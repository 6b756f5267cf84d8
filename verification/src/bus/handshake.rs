//! The handshake of the slave as a table of rules, and what the rules do
//! from one clock edge to the next.
//!
//! The handshake process that the slave emits is this table, written out
//! rule by rule. The same table, read as a transition on the values of
//! the signals, gives the behaviour of that process: every guard and
//! every right-hand side is read before the clock edge, and a signal that
//! no rule assigns in a cycle keeps its value.
use crate::bus::axi_lite::{held, protocol_body, SignalNamesView};
use crate::stmt::{assignment, StmtView};
use crate::text::join;
use vstd::prelude::*;

verus! {

/// A role of the bus that takes part in the handshake.
#[derive(Debug, Clone, Copy, PartialEq, Eq, Structural)]
pub enum Role {
    AwValid,
    AwReady,
    WValid,
    WReady,
    BValid,
    BReady,
    ArValid,
    ArReady,
    RValid,
    RReady,
}

/// A role as a condition: the signal is high, or it is low.
pub enum Term {
    High(Role),
    Low(Role),
}

/// One rule of the handshake.
pub enum Rule {
    /// In every cycle the target takes the conjunction of the terms.
    Drive { target: Role, value: Seq<Term> },
    /// In a cycle in which all terms of `taken` hold, the target is
    /// cleared; in another cycle in which all terms of `raised` hold, it
    /// is set; in every other cycle it keeps its value.
    Hold { target: Role, taken: Seq<Term>, raised: Seq<Term> },
}

/// The rules of the handshake, in the order in which they are written.
pub open spec fn rules() -> Seq<Rule> {
    seq![
        Rule::Drive {
            target: Role::AwReady,
            value: seq![Term::High(Role::AwValid), Term::Low(Role::AwReady)],
        },
        Rule::Drive {
            target: Role::WReady,
            value: seq![Term::High(Role::WValid), Term::Low(Role::WReady)],
        },
        Rule::Drive {
            target: Role::ArReady,
            value: seq![Term::High(Role::ArValid), Term::Low(Role::ArReady)],
        },
        Rule::Hold {
            target: Role::BValid,
            taken: seq![Term::High(Role::BValid), Term::High(Role::BReady)],
            raised: seq![Term::High(Role::AwReady), Term::High(Role::WReady)],
        },
        Rule::Hold {
            target: Role::RValid,
            taken: seq![Term::High(Role::RValid), Term::High(Role::RReady)],
            raised: seq![Term::High(Role::ArValid), Term::Low(Role::ArReady)],
        },
    ]
}

/// The name of the signal of a role.
pub open spec fn name_of(role: Role, bus: SignalNamesView) -> Seq<char> {
    match role {
        Role::AwValid => bus.awvalid,
        Role::AwReady => bus.awready,
        Role::WValid => bus.wvalid,
        Role::WReady => bus.wready,
        Role::BValid => bus.bvalid,
        Role::BReady => bus.bready,
        Role::ArValid => bus.arvalid,
        Role::ArReady => bus.arready,
        Role::RValid => bus.rvalid,
        Role::RReady => bus.rready,
    }
}

/// A term as it is written.
pub open spec fn term_text(t: Term, bus: SignalNamesView) -> Seq<char> {
    match t {
        Term::High(r) => name_of(r, bus),
        Term::Low(r) => "!"@ + name_of(r, bus),
    }
}

/// A conjunction of terms as it is written.
pub open spec fn terms_text(ts: Seq<Term>, bus: SignalNamesView) -> Seq<char> {
    join(Seq::new(ts.len(), |i: int| term_text(ts[i], bus)), " && "@)
}

/// A rule as it is written.
pub open spec fn rule_stmt(rule: Rule, bus: SignalNamesView) -> StmtView {
    match rule {
        Rule::Drive { target, value } => assignment(name_of(target, bus), terms_text(value, bus)),
        Rule::Hold { target, taken, raised } => held(
            name_of(target, bus),
            terms_text(taken, bus),
            terms_text(raised, bus),
        ),
    }
}

/// The values of the ten signals at a clock edge.
pub struct Signals {
    pub awvalid: bool,
    pub awready: bool,
    pub wvalid: bool,
    pub wready: bool,
    pub bvalid: bool,
    pub bready: bool,
    pub arvalid: bool,
    pub arready: bool,
    pub rvalid: bool,
    pub rready: bool,
}

impl Signals {
    /// The value of the signal of a role.
    pub open spec fn get(self, role: Role) -> bool {
        match role {
            Role::AwValid => self.awvalid,
            Role::AwReady => self.awready,
            Role::WValid => self.wvalid,
            Role::WReady => self.wready,
            Role::BValid => self.bvalid,
            Role::BReady => self.bready,
            Role::ArValid => self.arvalid,
            Role::ArReady => self.arready,
            Role::RValid => self.rvalid,
            Role::RReady => self.rready,
        }
    }

    /// These values with the signal of `role` set to `v`.
    pub open spec fn with(self, role: Role, v: bool) -> Signals {
        match role {
            Role::AwValid => Signals { awvalid: v, ..self },
            Role::AwReady => Signals { awready: v, ..self },
            Role::WValid => Signals { wvalid: v, ..self },
            Role::WReady => Signals { wready: v, ..self },
            Role::BValid => Signals { bvalid: v, ..self },
            Role::BReady => Signals { bready: v, ..self },
            Role::ArValid => Signals { arvalid: v, ..self },
            Role::ArReady => Signals { arready: v, ..self },
            Role::RValid => Signals { rvalid: v, ..self },
            Role::RReady => Signals { rready: v, ..self },
        }
    }
}

/// Whether a term holds of the values `s`.
pub open spec fn holds(t: Term, s: Signals) -> bool {
    match t {
        Term::High(r) => s.get(r),
        Term::Low(r) => !s.get(r),
    }
}

/// Whether all terms hold of the values `s`.
pub open spec fn all_hold(ts: Seq<Term>, s: Signals) -> bool {
    forall|i: int| 0 <= i < ts.len() ==> holds(#[trigger] ts[i], s)
}

/// What the rules assign at a clock edge: every rule reads the values
/// `before` the edge and writes into `after`, a later rule over an
/// earlier one.
pub open spec fn apply(rs: Seq<Rule>, before: Signals, after: Signals) -> Signals
    decreases rs.len(),
{
    if rs.len() == 0 {
        after
    } else {
        let done = apply(rs.drop_last(), before, after);
        match rs.last() {
            Rule::Drive { target, value } => done.with(target, all_hold(value, before)),
            Rule::Hold { target, taken, raised } => if all_hold(taken, before) {
                done.with(target, false)
            } else if all_hold(raised, before) {
                done.with(target, true)
            } else {
                done
            },
        }
    }
}

/// The state of the slave: the five signals that it drives.
#[derive(Debug, Clone, Copy, PartialEq, Eq, Structural)]
pub struct Slave {
    pub awready: bool,
    pub wready: bool,
    pub bvalid: bool,
    pub arready: bool,
    pub rvalid: bool,
}

/// What the master drives in one cycle.
#[derive(Debug, Clone, Copy, PartialEq, Eq, Structural)]
pub struct Master {
    pub awvalid: bool,
    pub wvalid: bool,
    pub bready: bool,
    pub arvalid: bool,
    pub rready: bool,
}

/// The ten signals in a cycle in which the slave is in the state `s` and
/// the master drives `m`.
pub open spec fn signals(s: Slave, m: Master) -> Signals {
    Signals {
        awvalid: m.awvalid,
        awready: s.awready,
        wvalid: m.wvalid,
        wready: s.wready,
        bvalid: s.bvalid,
        bready: m.bready,
        arvalid: m.arvalid,
        arready: s.arready,
        rvalid: s.rvalid,
        rready: m.rready,
    }
}

/// The state of the slave after a clock edge, outside reset.
pub open spec fn next(s: Slave, m: Master) -> Slave {
    let after = apply(rules(), signals(s, m), signals(s, m));
    Slave {
        awready: after.awready,
        wready: after.wready,
        bvalid: after.bvalid,
        arready: after.arready,
        rvalid: after.rvalid,
    }
}

/// The state of the slave after as many clock edges as `ms` is long, the
/// master driving `ms[i]` in the cycle before edge `i`.
pub open spec fn run(s: Slave, ms: Seq<Master>) -> Slave
    decreases ms.len(),
{
    if ms.len() == 0 {
        s
    } else {
        next(run(s, ms.drop_last()), ms.last())
    }
}

/// The handshake process of the slave is the block of the rules, each
/// written in its turn.
pub proof fn lemma_rules_are_the_process(bus: SignalNamesView)
    ensures
        protocol_body(bus) == StmtView::Block(
            Seq::new(rules().len(), |i: int| rule_stmt(rules()[i], bus)),
        ),
{
    reveal_strlit("!");
    reveal_strlit(" && ");
    reveal_strlit(" && !");
    reveal_with_fuel(join, 3);
    let written = Seq::new(rules().len(), |i: int| rule_stmt(rules()[i], bus));
    let body = protocol_body(bus)->Block_0;
    assert(written.len() == 5);
    assert forall|ts: Seq<Term>| ts.len() == 2 implies #[trigger] terms_text(ts, bus)
        == term_text(ts[0], bus) + " && "@ + term_text(ts[1], bus) by {
        let parts = Seq::new(ts.len(), |k: int| term_text(ts[k], bus));
        assert(parts.drop_last() =~= seq![parts[0]]);
        assert(join(parts, " && "@) =~= parts[0] + " && "@ + parts[1]);
    }
    assert forall|a: Seq<char>, b: Seq<char>| #[trigger] (a + " && "@ + ("!"@ + b)) == a + " && !"@
        + b by {
        assert(a + " && "@ + ("!"@ + b) =~= a + " && !"@ + b);
    }
    assert forall|i: int| 0 <= i < 5 implies written[i] == body[i] by {
        let r = rules()[i];
        match r {
            Rule::Drive { target, value } => {
                assert(terms_text(value, bus) == term_text(value[0], bus) + " && "@ + term_text(
                    value[1],
                    bus,
                ));
            },
            Rule::Hold { target, taken, raised } => {
                assert(terms_text(taken, bus) == term_text(taken[0], bus) + " && "@ + term_text(
                    taken[1],
                    bus,
                ));
                assert(terms_text(raised, bus) == term_text(raised[0], bus) + " && "@
                    + term_text(raised[1], bus));
            },
        }
    }
    assert(written =~= body);
}

/// What the rules make of a state. Each ready answers its valid unless it
/// is high already. A response valid that is high stays high unless its
/// ready is high, and falls then. One that is low rises when both write
/// readies are high, for the write response, or when a read address is
/// accepted, for the read data.
pub proof fn lemma_next(s: Slave, m: Master)
    ensures
        next(s, m) == (Slave {
            awready: m.awvalid && !s.awready,
            wready: m.wvalid && !s.wready,
            bvalid: if s.bvalid {
                !m.bready
            } else {
                s.awready && s.wready
            },
            arready: m.arvalid && !s.arready,
            rvalid: if s.rvalid {
                !m.rready
            } else {
                m.arvalid && !s.arready
            },
        }),
{
    let before = signals(s, m);
    let r = rules();
    reveal_with_fuel(apply, 6);
    let r4 = r.drop_last();
    let r3 = r4.drop_last();
    let r2 = r3.drop_last();
    let r1 = r2.drop_last();
    let r0 = r1.drop_last();
    assert(r0.len() == 0);
    assert(all_hold(r1.last()->Drive_value, before) == (m.awvalid && !s.awready)) by {
        let v = r1.last()->Drive_value;
        assert(holds(v[0], before) == m.awvalid);
        assert(holds(v[1], before) == !s.awready);
    }
    assert(all_hold(r2.last()->Drive_value, before) == (m.wvalid && !s.wready)) by {
        let v = r2.last()->Drive_value;
        assert(holds(v[0], before) == m.wvalid);
        assert(holds(v[1], before) == !s.wready);
    }
    assert(all_hold(r3.last()->Drive_value, before) == (m.arvalid && !s.arready)) by {
        let v = r3.last()->Drive_value;
        assert(holds(v[0], before) == m.arvalid);
        assert(holds(v[1], before) == !s.arready);
    }
    assert(all_hold(r4.last()->Hold_taken, before) == (s.bvalid && m.bready)) by {
        let v = r4.last()->Hold_taken;
        assert(holds(v[0], before) == s.bvalid);
        assert(holds(v[1], before) == m.bready);
    }
    assert(all_hold(r4.last()->Hold_raised, before) == (s.awready && s.wready)) by {
        let v = r4.last()->Hold_raised;
        assert(holds(v[0], before) == s.awready);
        assert(holds(v[1], before) == s.wready);
    }
    assert(all_hold(r.last()->Hold_taken, before) == (s.rvalid && m.rready)) by {
        let v = r.last()->Hold_taken;
        assert(holds(v[0], before) == s.rvalid);
        assert(holds(v[1], before) == m.rready);
    }
    assert(all_hold(r.last()->Hold_raised, before) == (m.arvalid && !s.arready)) by {
        let v = r.last()->Hold_raised;
        assert(holds(v[0], before) == m.arvalid);
        assert(holds(v[1], before) == !s.arready);
    }
}

/// A ready is a pulse of one cycle: in the cycle after one in which it
/// was high it is low, whatever the master does.
pub proof fn lemma_ready_is_a_pulse(s: Slave, m: Master)
    ensures
        s.awready ==> !next(s, m).awready,
        s.wready ==> !next(s, m).wready,
        s.arready ==> !next(s, m).arready,
{
    lemma_next(s, m);
}

/// A response valid is held until it is taken: while it is high and its
/// ready is low it stays high, and in the cycle after one in which both
/// were high it is low.
pub proof fn lemma_response_is_held(s: Slave, m: Master)
    ensures
        s.bvalid && !m.bready ==> next(s, m).bvalid,
        s.bvalid && m.bready ==> !next(s, m).bvalid,
        s.rvalid && !m.rready ==> next(s, m).rvalid,
        s.rvalid && m.rready ==> !next(s, m).rvalid,
{
    lemma_next(s, m);
}

/// Whether the master starts no write and leaves the response untaken.
pub open spec fn waits(m: Master) -> bool {
    !m.awvalid && !m.wvalid && !m.bready
}

/// While the master starts no write and does not take the response, a
/// response that is valid stays valid and both write readies stay low.
pub proof fn lemma_write_response_waits(s: Slave, wait: Seq<Master>)
    requires
        !s.awready && !s.wready && s.bvalid,
        forall|i: int| 0 <= i < wait.len() ==> waits(#[trigger] wait[i]),
    ensures
        !run(s, wait).awready && !run(s, wait).wready && run(s, wait).bvalid,
    decreases wait.len(),
{
    if wait.len() > 0 {
        lemma_write_response_waits(s, wait.drop_last());
        assert(waits(wait[wait.len() - 1]));
        lemma_next(run(s, wait.drop_last()), wait.last());
    }
}

/// A write in which the master holds address and data valid for one
/// cycle, while both readies are low and no earlier response is left
/// untaken, then leaves the response untaken for as many cycles as `wait`
/// is long and takes it in the cycle after. Both readies are high in the
/// cycle after the valid one, and in no other. The response is low in
/// that cycle, high in the next and in every cycle in which the master
/// waits, high in the cycle in which it is taken, and low in the cycle
/// after.
pub proof fn lemma_write_handshake(
    s0: Slave,
    m0: Master,
    m1: Master,
    wait: Seq<Master>,
    take: Master,
)
    requires
        !s0.awready,
        !s0.wready,
        s0.bvalid ==> m0.bready,
        m0.awvalid && m0.wvalid,
        !m1.awvalid && !m1.wvalid,
        forall|i: int| 0 <= i < wait.len() ==> waits(#[trigger] wait[i]),
        !take.awvalid && !take.wvalid && take.bready,
    ensures
        next(s0, m0).awready && next(s0, m0).wready && !next(s0, m0).bvalid,
        forall|j: int|
            0 <= j <= wait.len() ==> {
                let s = #[trigger] run(next(next(s0, m0), m1), wait.take(j));
                !s.awready && !s.wready && s.bvalid
            },
        !next(run(next(next(s0, m0), m1), wait), take).awready,
        !next(run(next(next(s0, m0), m1), wait), take).wready,
        !next(run(next(next(s0, m0), m1), wait), take).bvalid,
{
    let s1 = next(s0, m0);
    let s2 = next(s1, m1);
    lemma_next(s0, m0);
    lemma_next(s1, m1);
    assert forall|j: int| 0 <= j <= wait.len() implies {
        let s = #[trigger] run(s2, wait.take(j));
        !s.awready && !s.wready && s.bvalid
    } by {
        lemma_write_response_waits(s2, wait.take(j));
    }
    lemma_write_response_waits(s2, wait);
    lemma_next(run(s2, wait), take);
}

/// While the master does not take the read data, data that is valid
/// stays valid.
pub proof fn lemma_read_data_waits(s: Slave, wait: Seq<Master>)
    requires
        s.rvalid,
        forall|i: int| 0 <= i < wait.len() ==> !(#[trigger] wait[i]).rready,
    ensures
        run(s, wait).rvalid,
    decreases wait.len(),
{
    if wait.len() > 0 {
        lemma_read_data_waits(s, wait.drop_last());
        assert(!wait[wait.len() - 1].rready);
        lemma_next(run(s, wait.drop_last()), wait.last());
    }
}

/// A read in which the master offers an address while the address ready
/// is low and no data is valid, then leaves the data untaken for as many
/// cycles as `wait` is long and takes it in the cycle after. The address
/// is accepted in the next cycle; the data is valid in that cycle, in
/// every cycle in which the master waits and in the cycle in which it is
/// taken, and low in the cycle after.
pub proof fn lemma_read_handshake(s0: Slave, m0: Master, wait: Seq<Master>, take: Master)
    requires
        !s0.arready,
        !s0.rvalid,
        m0.arvalid,
        forall|i: int| 0 <= i < wait.len() ==> !(#[trigger] wait[i]).rready,
        take.rready,
    ensures
        next(s0, m0).arready,
        forall|j: int|
            0 <= j <= wait.len() ==> (#[trigger] run(next(s0, m0), wait.take(j))).rvalid,
        !next(run(next(s0, m0), wait), take).rvalid,
{
    let s1 = next(s0, m0);
    lemma_next(s0, m0);
    assert forall|j: int| 0 <= j <= wait.len() implies (#[trigger] run(
        s1,
        wait.take(j),
    )).rvalid by {
        lemma_read_data_waits(s1, wait.take(j));
    }
    lemma_read_data_waits(s1, wait);
    lemma_next(run(s1, wait), take);
}

impl Slave {
    /// The state in reset: every signal low.
    pub fn reset() -> (r: Slave)
        ensures
            r == (Slave {
                awready: false,
                wready: false,
                bvalid: false,
                arready: false,
                rvalid: false,
            }),
    {
        Slave { awready: false, wready: false, bvalid: false, arready: false, rvalid: false }
    }

    /// The state after a clock edge, outside reset, in a cycle in which
    /// the master drives `m`.
    pub fn step(self, m: Master) -> (r: Slave)
        ensures
            r == next(self, m),
    {
        proof {
            lemma_next(self, m);
        }
        Slave {
            awready: m.awvalid && !self.awready,
            wready: m.wvalid && !self.wready,
            bvalid: if self.bvalid {
                !m.bready
            } else {
                self.awready && self.wready
            },
            arready: m.arvalid && !self.arready,
            rvalid: if self.rvalid {
                !m.rready
            } else {
                m.arvalid && !self.arready
            },
        }
    }
}

} // verus!
