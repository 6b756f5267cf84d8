//! An explicit finite-state machine: named states, guarded jumps between
//! them, and the state that is taken when no guard holds.
use crate::dff::sync_process;
use crate::module::{ElementView, Module, ModuleView};
use crate::stmt::{assignment, block_of, only_if, with_else, Block, Case, CaseView, Stmt, StmtView};
use crate::text::{decimal, decimal_string};
use crate::util::{address_bits, address_width};
use vstd::prelude::*;

verus! {

/// Model of a state: its jumps as pairs of guard and next state, and the
/// next state when no guard holds.
pub struct StateView {
    pub name: Seq<char>,
    pub trans: Seq<(Seq<char>, Seq<char>)>,
    pub default: Seq<char>,
}

/// Model of a state machine.
pub struct FSMView {
    pub state_var: Seq<char>,
    pub clk: Seq<char>,
    pub rst: Seq<char>,
    pub states: Seq<StateView>,
}

/// Model of a state under construction, with the machine it will join.
pub struct StateBuilderView {
    pub fsm: FSMView,
    pub name: Seq<char>,
    pub jumps: Seq<(Seq<char>, Seq<char>)>,
}

/// A guarded jump.
#[derive(Debug, Clone)]
pub struct Trans {
    cond: String,
    next: String,
}

/// A state of a machine.
#[derive(Debug, Clone)]
pub struct State {
    name: String,
    trans: Vec<Trans>,
    default: String,
}

/// A state machine on the signal `state_var`.
#[derive(Debug, Clone)]
pub struct FSM {
    state_var: String,
    clk: String,
    rst: String,
    states: Vec<State>,
}

/// A state under construction.
#[derive(Debug, Clone)]
pub struct StateBuilder {
    fsm: FSM,
    name: String,
    jumps: Vec<Trans>,
}

spec fn trans_view(trans: Seq<Trans>) -> Seq<(Seq<char>, Seq<char>)> {
    Seq::new(trans.len(), |i: int| (trans[i].cond@, trans[i].next@))
}

impl View for State {
    type V = StateView;

    closed spec fn view(&self) -> StateView {
        StateView { name: self.name@, trans: trans_view(self.trans@), default: self.default@ }
    }
}

impl View for FSM {
    type V = FSMView;

    closed spec fn view(&self) -> FSMView {
        FSMView {
            state_var: self.state_var@,
            clk: self.clk@,
            rst: self.rst@,
            states: Seq::new(self.states@.len(), |i: int| self.states@[i]@),
        }
    }
}

impl View for StateBuilder {
    type V = StateBuilderView;

    closed spec fn view(&self) -> StateBuilderView {
        StateBuilderView { fsm: self.fsm@, name: self.name@, jumps: trans_view(self.jumps@) }
    }
}

/// The width of the state signal: enough to number the states and at
/// least one bit, and eight bits for a machine without states.
pub open spec fn state_width(n: nat) -> nat {
    if n == 0 {
        8
    } else {
        address_width(n)
    }
}

/// One local parameter per state, numbered in order from zero.
pub open spec fn state_params(states: Seq<StateView>) -> Seq<ElementView> {
    Seq::new(
        states.len(),
        |i: int| ElementView::LocalParam { name: states[i].name, val: decimal(i as nat) },
    )
}

/// One conditional per jump, in order.
pub open spec fn jumps(var: Seq<char>, trans: Seq<(Seq<char>, Seq<char>)>) -> Seq<StmtView> {
    Seq::new(trans.len(), |i: int| only_if(trans[i].0, assignment(var, trans[i].1)))
}

/// What is done in a state: each jump in turn, and the default as the
/// `else` of the last.
pub open spec fn state_body(var: Seq<char>, st: StateView) -> StmtView {
    StmtView::Block(with_else(jumps(var, st.trans), assignment(var, st.default)))
}

/// The select on the state signal, one arm per state and no default.
pub open spec fn state_case(var: Seq<char>, states: Seq<StateView>) -> CaseView {
    CaseView {
        var,
        arms: Seq::new(states.len(), |i: int| (states[i].name, state_body(var, states[i]))),
        default: None,
    }
}

/// `m` with the machine added: the state signal, a local parameter per
/// state, and the clocked process that resets to state zero and
/// otherwise moves from state to state.
pub open spec fn with_fsm(m: ModuleView, fsm: FSMView) -> ModuleView {
    ModuleView {
        blocks: m.blocks + seq![
            ElementView::Logic {
                name: fsm.state_var,
                bit: state_width(fsm.states.len()),
                len: 1,
            },
        ] + state_params(fsm.states) + seq![
            sync_process(
                fsm.clk,
                fsm.rst,
                assignment(fsm.state_var, "0"@),
                block_of(StmtView::Case(state_case(fsm.state_var, fsm.states))),
            ),
        ],
        ..m
    }
}

impl FSM {
    /// A machine without states on the signal `state_var`, clocked by
    /// `clk` and reset while `rst` is low.
    pub fn new(state_var: &str, clk: &str, rst: &str) -> (r: FSM)
        ensures
            r@ == (FSMView {
                state_var: state_var@,
                clk: clk@,
                rst: rst@,
                states: Seq::empty(),
            }),
    {
        let r = FSM {
            state_var: String::from_str(state_var),
            clk: String::from_str(clk),
            rst: String::from_str(rst),
            states: Vec::new(),
        };
        assert(r@.states =~= Seq::empty());
        r
    }

    /// Starts the state `name`.
    pub fn state(self, name: &str) -> (r: StateBuilder)
        ensures
            r@ == (StateBuilderView { fsm: self@, name: name@, jumps: Seq::empty() }),
    {
        let r = StateBuilder { fsm: self, name: String::from_str(name), jumps: Vec::new() };
        assert(r@.jumps =~= Seq::empty());
        r
    }

    /// The number of states.
    pub fn len(&self) -> (n: usize)
        ensures
            n == self@.states.len(),
    {
        self.states.len()
    }
}

impl StateBuilder {
    /// Adds a jump to `next`, taken while `cond` holds.
    pub fn jump(self, cond: &str, next: &str) -> (r: StateBuilder)
        ensures
            r@ == (StateBuilderView { jumps: self@.jumps.push((cond@, next@)), ..self@ }),
    {
        let mut b = self;
        b.jumps.push(Trans { cond: String::from_str(cond), next: String::from_str(next) });
        assert(b@.jumps =~= self@.jumps.push((cond@, next@)));
        b
    }

    /// Finishes the state; it is kept while no guard holds.
    pub fn end(self) -> (r: FSM)
        ensures
            r@ == (FSMView {
                states: self@.fsm.states.push(
                    StateView { name: self@.name, trans: self@.jumps, default: self@.name },
                ),
                ..self@.fsm
            }),
    {
        let name = self.name.clone();
        self.else_(name.as_str())
    }

    /// Finishes the state; `next` is taken while no guard holds.
    pub fn else_(self, next: &str) -> (r: FSM)
        ensures
            r@ == (FSMView {
                states: self@.fsm.states.push(
                    StateView { name: self@.name, trans: self@.jumps, default: next@ },
                ),
                ..self@.fsm
            }),
    {
        let mut fsm = self.fsm;
        let state = State { name: self.name, trans: self.jumps, default: String::from_str(next) };
        fsm.states.push(state);
        assert(fsm@.states =~= self@.fsm.states.push(
            StateView { name: self@.name, trans: self@.jumps, default: next@ },
        ));
        fsm
    }
}

/// Builds what is done in the state `st`.
fn build_state(var: &str, st: &State) -> (r: Stmt)
    ensures
        r@ == state_body(var@, st@),
{
    let mut stmt: Block = Stmt::begin();
    let mut i: usize = 0;
    while i < st.trans.len()
        invariant
            i <= st.trans.len(),
            stmt@ == jumps(var@, st@.trans).take(i as int),
        decreases st.trans.len() - i,
    {
        stmt = stmt.if_(st.trans[i].cond.as_str(), Stmt::assign(var, st.trans[i].next.as_str()));
        assert(stmt@ =~= jumps(var@, st@.trans).take(i + 1));
        i = i + 1;
    }
    assert(jumps(var@, st@.trans).take(i as int) =~= jumps(var@, st@.trans));
    stmt.else_(Stmt::assign(var, st.default.as_str())).end()
}

impl Module {
    /// Adds the machine `fsm`.
    pub fn sync_fsm(self, fsm: FSM) -> (r: Module)
        ensures
            r@ == with_fsm(self@, fsm@),
    {
        let width: usize = if fsm.states.len() == 0 {
            8
        } else {
            address_bits(fsm.states.len())
        };
        let var = fsm.state_var.as_str();
        let mut m = self.logic(var, width, 1);
        let ghost base = m@.blocks;
        let mut i: usize = 0;
        while i < fsm.states.len()
            invariant
                i <= fsm.states.len(),
                m@ == (ModuleView {
                    blocks: base + state_params(fsm@.states).take(i as int),
                    ..self@
                }),
            decreases fsm.states.len() - i,
        {
            let ghost before = m@.blocks;
            m = m.lparam(fsm.states[i].name.as_str(), decimal_string(i).as_str());
            assert(m@.blocks =~= base + state_params(fsm@.states).take(i + 1));
            i = i + 1;
        }
        assert(state_params(fsm@.states).take(i as int) =~= state_params(fsm@.states));
        let mut cases = Case::new(var);
        let mut k: usize = 0;
        assert(cases@.arms =~= state_case(var@, fsm@.states).arms.take(0));
        while k < fsm.states.len()
            invariant
                k <= fsm.states.len(),
                var@ == fsm@.state_var,
                cases@ == (CaseView {
                    arms: state_case(var@, fsm@.states).arms.take(k as int),
                    ..state_case(var@, fsm@.states)
                }),
            decreases fsm.states.len() - k,
        {
            let body = build_state(var, &fsm.states[k]);
            cases = cases.case(fsm.states[k].name.as_str(), body);
            assert(cases@.arms =~= state_case(var@, fsm@.states).arms.take(k + 1));
            k = k + 1;
        }
        assert(cases@.arms =~= state_case(var@, fsm@.states).arms);
        let body = Stmt::begin().case(cases).end();
        assert(body@->Block_0 =~= seq![StmtView::Case(state_case(var@, fsm@.states))]);
        let m = m.sync_ff(fsm.clk.as_str(), fsm.rst.as_str(), Stmt::assign(var, "0"), body);
        assert(m@.blocks =~= with_fsm(self@, fsm@).blocks);
        m
    }
}

} // verus!
