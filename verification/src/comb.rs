//! A combinational multiplexer: guarded cases that drive the outputs, and
//! a default for when the last guard fails.
use crate::module::{ElementView, Module, ModuleView};
use crate::stmt::{assignment, only_if, with_else, Block, Stmt, StmtView};
use crate::text::lines;
use vstd::prelude::*;

verus! {

/// Model of a multiplexer, finished or under construction.
pub struct CombView {
    pub inputs: Seq<Seq<char>>,
    pub outputs: Seq<Seq<char>>,
    pub cases: Seq<(Seq<char>, Seq<Seq<char>>)>,
    pub default: Seq<Seq<char>>,
}

/// A finished multiplexer.
#[derive(Debug, Clone)]
pub struct Comb {
    inputs: Vec<String>,
    outputs: Vec<String>,
    cases: Vec<(String, Vec<String>)>,
    default: Vec<String>,
}

/// A multiplexer under construction.
#[derive(Debug, Clone)]
pub struct CombBuilder {
    inputs: Vec<String>,
    outputs: Vec<String>,
    cases: Vec<(String, Vec<String>)>,
}

spec fn cases_view(cases: Seq<(String, Vec<String>)>) -> Seq<(Seq<char>, Seq<Seq<char>>)> {
    Seq::new(cases.len(), |i: int| (cases[i].0@, lines(cases[i].1@)))
}

impl View for Comb {
    type V = CombView;

    closed spec fn view(&self) -> CombView {
        CombView {
            inputs: lines(self.inputs@),
            outputs: lines(self.outputs@),
            cases: cases_view(self.cases@),
            default: lines(self.default@),
        }
    }
}

impl View for CombBuilder {
    type V = CombView;

    closed spec fn view(&self) -> CombView {
        CombView {
            inputs: lines(self.inputs@),
            outputs: lines(self.outputs@),
            cases: cases_view(self.cases@),
            default: Seq::empty(),
        }
    }
}

/// The block that assigns to each output its value, output by output,
/// as far as both lists go.
pub open spec fn drive(outputs: Seq<Seq<char>>, values: Seq<Seq<char>>) -> StmtView {
    StmtView::Block(
        Seq::new(
            if outputs.len() <= values.len() {
                outputs.len()
            } else {
                values.len()
            },
            |i: int| assignment(outputs[i], values[i]),
        ),
    )
}

/// One conditional per case, in order.
pub open spec fn comb_cases(c: CombView) -> Seq<StmtView> {
    Seq::new(c.cases.len(), |i: int| only_if(c.cases[i].0, drive(c.outputs, c.cases[i].1)))
}

/// The body of the multiplexer: each case in turn, and the default as
/// the `else` of the last.
pub open spec fn comb_stmt(c: CombView) -> StmtView {
    StmtView::Block(with_else(comb_cases(c), drive(c.outputs, c.default)))
}

/// Copies the texts of `v`.
fn copy_strings(v: &Vec<&str>) -> (r: Vec<String>)
    ensures
        r@.len() == v@.len(),
        forall|i: int| 0 <= i < v@.len() ==> (#[trigger] r@[i])@ == v@[i]@,
{
    let mut out: Vec<String> = Vec::new();
    let mut i: usize = 0;
    while i < v.len()
        invariant
            i <= v.len(),
            out@.len() == i,
            forall|k: int| 0 <= k < i ==> (#[trigger] out@[k])@ == v@[k]@,
        decreases v.len() - i,
    {
        out.push(String::from_str(v[i]));
        i = i + 1;
    }
    out
}

/// The texts of `v`.
pub open spec fn texts(v: Seq<&str>) -> Seq<Seq<char>> {
    Seq::new(v.len(), |i: int| v[i]@)
}

/// Builds the block that drives `outputs` with `values`.
fn build_drive(outputs: &Vec<String>, values: &Vec<String>) -> (r: Stmt)
    ensures
        r@ == drive(lines(outputs@), lines(values@)),
{
    let n = if outputs.len() <= values.len() {
        outputs.len()
    } else {
        values.len()
    };
    let mut stmt: Block = Stmt::begin();
    let mut i: usize = 0;
    while i < n
        invariant
            i <= n,
            n <= outputs.len(),
            n <= values.len(),
            stmt@ == Seq::new(
                i as nat,
                |k: int| assignment(lines(outputs@)[k], lines(values@)[k]),
            ),
        decreases n - i,
    {
        stmt = stmt.assign(outputs[i].as_str(), values[i].as_str());
        assert(stmt@ =~= Seq::new(
            (i + 1) as nat,
            |k: int| assignment(lines(outputs@)[k], lines(values@)[k]),
        ));
        i = i + 1;
    }
    let r = stmt.end();
    assert(r@->Block_0 =~= drive(lines(outputs@), lines(values@))->Block_0);
    r
}

impl Comb {
    /// The names of the inputs.
    pub fn inputs(&self) -> (r: &Vec<String>)
        ensures
            lines(r@) == self@.inputs,
    {
        &self.inputs
    }

    /// The names of the outputs.
    pub fn outputs(&self) -> (r: &Vec<String>)
        ensures
            lines(r@) == self@.outputs,
    {
        &self.outputs
    }

    /// The number of cases.
    pub fn len(&self) -> (n: usize)
        ensures
            n == self@.cases.len(),
    {
        self.cases.len()
    }

    /// The guard of case `i` and the values that the outputs take in it.
    pub fn case(&self, i: usize) -> (r: (&str, &Vec<String>))
        requires
            i < self@.cases.len(),
        ensures
            r.0@ == self@.cases[i as int].0,
            lines(r.1@) == self@.cases[i as int].1,
    {
        (self.cases[i].0.as_str(), &self.cases[i].1)
    }

    /// The values that the outputs take when the last guard fails.
    pub fn default(&self) -> (r: &Vec<String>)
        ensures
            lines(r@) == self@.default,
    {
        &self.default
    }

    /// Starts a multiplexer without inputs, outputs or cases.
    pub fn new() -> (r: CombBuilder)
        ensures
            r@ == (CombView {
                inputs: Seq::empty(),
                outputs: Seq::empty(),
                cases: Seq::empty(),
                default: Seq::empty(),
            }),
    {
        let r = CombBuilder { inputs: Vec::new(), outputs: Vec::new(), cases: Vec::new() };
        assert(r@.inputs =~= Seq::empty());
        assert(r@.outputs =~= Seq::empty());
        assert(r@.cases =~= Seq::empty());
        r
    }
}

impl CombBuilder {
    /// Names an input.
    pub fn input(self, name: &str) -> (r: CombBuilder)
        ensures
            r@ == (CombView { inputs: self@.inputs.push(name@), ..self@ }),
    {
        let mut b = self;
        b.inputs.push(String::from_str(name));
        assert(b@.inputs =~= self@.inputs.push(name@));
        b
    }

    /// Names an output.
    pub fn output(self, name: &str) -> (r: CombBuilder)
        ensures
            r@ == (CombView { outputs: self@.outputs.push(name@), ..self@ }),
    {
        let mut b = self;
        b.outputs.push(String::from_str(name));
        assert(b@.outputs =~= self@.outputs.push(name@));
        b
    }

    /// Adds a case: while `cond` holds, the outputs take the values
    /// `outs`, one for each output named so far.
    pub fn case(self, cond: &str, outs: Vec<&str>) -> (r: CombBuilder)
        requires
            outs@.len() == self@.outputs.len(),
        ensures
            r@ == (CombView { cases: self@.cases.push((cond@, texts(outs@))), ..self@ }),
    {
        let mut b = self;
        let values = copy_strings(&outs);
        assert(lines(values@) =~= texts(outs@));
        b.cases.push((String::from_str(cond), values));
        assert(b@.cases =~= self@.cases.push((cond@, texts(outs@))));
        b
    }

    /// Sets the values that the outputs take otherwise, one for each
    /// output, and finishes the multiplexer.
    pub fn default(self, outs: Vec<&str>) -> (r: Comb)
        requires
            outs@.len() == self@.outputs.len(),
        ensures
            r@ == (CombView { default: texts(outs@), ..self@ }),
    {
        let values = copy_strings(&outs);
        assert(lines(values@) =~= texts(outs@));
        Comb { inputs: self.inputs, outputs: self.outputs, cases: self.cases, default: values }
    }
}

impl Module {
    /// Adds the multiplexer as a combinational process.
    pub fn comb(self, comb: Comb) -> (r: Module)
        ensures
            r@ == (ModuleView {
                blocks: self@.blocks.push(ElementView::AlwaysComb { stmt: comb_stmt(comb@) }),
                ..self@
            }),
    {
        let mut stmt: Block = Stmt::begin();
        let mut i: usize = 0;
        while i < comb.cases.len()
            invariant
                i <= comb.cases.len(),
                stmt@ == comb_cases(comb@).take(i as int),
            decreases comb.cases.len() - i,
        {
            let body = build_drive(&comb.outputs, &comb.cases[i].1);
            stmt = stmt.if_(comb.cases[i].0.as_str(), body);
            assert(stmt@ =~= comb_cases(comb@).take(i + 1));
            i = i + 1;
        }
        assert(comb_cases(comb@).take(i as int) =~= comb_cases(comb@));
        let stmt = stmt.else_(build_drive(&comb.outputs, &comb.default));
        self.always_comb(stmt.end())
    }
}

} // verus!
