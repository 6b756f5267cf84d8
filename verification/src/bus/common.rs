//! What every bus slave builds from a memory map: the storage of the
//! registers, and the selects that decode an address.
use crate::bus::{Kind, MemMap, RegView, SlotView};
use crate::module::{ElementView, Module, ModuleView};
use crate::stmt::{assignment, block_of, Block, Case, CaseView, Stmt, StmtView};
use crate::text::{concat, decimal, decimal_string};
use crate::util::{range, range_text};
use vstd::prelude::*;

verus! {

/// The storage of one register: its signal, or for a trigger the strobe
/// and the response.
pub open spec fn storage_of(reg: RegView) -> Seq<ElementView> {
    if reg.kind == Kind::Trigger {
        seq![
            ElementView::Logic { name: reg.name + "_trig"@, bit: 1, len: 1 },
            ElementView::Logic { name: reg.name + "_resp"@, bit: 1, len: 1 },
        ]
    } else {
        seq![ElementView::Logic { name: reg.name, bit: reg.bit, len: reg.len }]
    }
}

/// The storage of all registers, in order.
pub open spec fn storage(regs: Seq<RegView>) -> Seq<ElementView>
    decreases regs.len(),
{
    if regs.len() == 0 {
        Seq::empty()
    } else {
        storage(regs.drop_last()) + storage_of(regs.last())
    }
}

/// For a writable slot, the assignment that clears it on reset.
pub open spec fn clear_of() -> spec_fn(SlotView) -> Option<StmtView> {
    |s: SlotView|
        match s.write {
            Some(w) => Some(assignment(w, "0"@)),
            None => None,
        }
}

/// For a writable slot, the arm that writes it: keyed by its address, it
/// takes the low bits of `wdata`.
pub open spec fn write_arm(wdata: Seq<char>) -> spec_fn(SlotView) -> Option<
    (Seq<char>, StmtView),
> {
    |s: SlotView|
        match s.write {
            Some(w) => Some((decimal(s.addr), assignment(w, wdata + range_text(s.bit, 0)))),
            None => None,
        }
}

/// For a readable slot, the arm that reads it: keyed by its address, it
/// drives the low bits of `rdata`.
pub open spec fn read_arm(rdata: Seq<char>) -> spec_fn(SlotView) -> Option<(Seq<char>, StmtView)> {
    |s: SlotView|
        match s.read {
            Some(r) => Some((decimal(s.addr), assignment(rdata + range_text(s.bit, 0), r))),
            None => None,
        }
}

/// The reset of the write side: every writable signal is cleared.
pub open spec fn write_reset(slots: Seq<SlotView>) -> StmtView {
    StmtView::Block(slots.filter_map(clear_of()))
}

/// The write decode: one arm per writable slot; an address without one
/// does nothing.
pub open spec fn write_case(addr: Seq<char>, wdata: Seq<char>, slots: Seq<SlotView>) -> CaseView {
    CaseView {
        var: addr,
        arms: slots.filter_map(write_arm(wdata)),
        default: Some(Box::new(StmtView::Empty)),
    }
}

/// The read decode: one arm per readable slot; an address without one
/// reads as zero.
pub open spec fn read_case(addr: Seq<char>, rdata: Seq<char>, slots: Seq<SlotView>) -> CaseView {
    CaseView {
        var: addr,
        arms: slots.filter_map(read_arm(rdata)),
        default: Some(Box::new(assignment(rdata, "0"@))),
    }
}

/// Wraps a select into a block.
pub(crate) fn case_block(case: Case) -> (r: Stmt)
    ensures
        r@ == block_of(StmtView::Case(case@)),
{
    let r = Stmt::begin().case(case).end();
    assert(r@->Block_0 =~= seq![StmtView::Case(case@)]);
    r
}

impl Module {
    /// Declares the storage of every register of `mem`.
    pub fn define_regs(self, mem: &MemMap) -> (r: Module)
        ensures
            r@ == (ModuleView { blocks: self@.blocks + storage(mem@.regs), ..self@ }),
    {
        let mut m = self;
        let mut i: usize = 0;
        assert(m@.blocks =~= self@.blocks + storage(mem@.regs.take(0)));
        while i < mem.len()
            invariant
                i <= mem@.regs.len(),
                m@ == (ModuleView {
                    blocks: self@.blocks + storage(mem@.regs.take(i as int)),
                    ..self@
                }),
            decreases mem@.regs.len() - i,
        {
            let reg = mem.reg(i);
            let ghost before = m@.blocks;
            proof {
                assert(mem@.regs.take(i + 1).drop_last() =~= mem@.regs.take(i as int));
                assert(mem@.regs.take(i + 1).last() == reg@);
            }
            match reg.kind() {
                Kind::Trigger => {
                    let trig = concat(reg.name(), "_trig");
                    let resp = concat(reg.name(), "_resp");
                    m = m.logic(trig.as_str(), 1, 1).logic(resp.as_str(), 1, 1);
                    assert(m@.blocks =~= before + storage_of(reg@));
                },
                _ => {
                    let bit = reg.bit();
                    let len = reg.len();
                    m = m.logic(reg.name(), bit, len);
                    assert(m@.blocks =~= before + storage_of(reg@));
                },
            }
            assert(m@.blocks =~= self@.blocks + storage(mem@.regs.take(i + 1)));
            i = i + 1;
        }
        assert(mem@.regs.take(i as int) =~= mem@.regs);
        m
    }
}

/// Builds the reset of the write side of `mem`.
pub fn build_write_reset(mem: &MemMap) -> (r: Stmt)
    ensures
        r@ == write_reset(mem@.slots),
{
    let mut stmt: Block = Stmt::begin();
    let mut i: usize = 0;
    assert(stmt@ =~= mem@.slots.take(0).filter_map(clear_of()));
    while i < mem.total_slots()
        invariant
            i <= mem@.slots.len(),
            stmt@ == mem@.slots.take(i as int).filter_map(clear_of()),
        decreases mem@.slots.len() - i,
    {
        let slot = mem.slot(i);
        proof {
            mem@.slots.lemma_filter_map_take_succ(clear_of(), i as int);
        }
        match slot.write() {
            Some(name) => {
                let ghost before = stmt@;
                stmt = stmt.assign(name, "0");
                assert(stmt@ =~= before + seq![clear_of()(slot@)->Some_0]);
            },
            None => {
                assert(stmt@ + Seq::<StmtView>::empty() =~= stmt@);
            },
        }
        i = i + 1;
    }
    assert(mem@.slots.take(i as int) =~= mem@.slots);
    stmt.end()
}

/// Builds the write decode of `mem` on the address signal `addr`, taking
/// the data from `wdata`.
pub fn build_write_case(addr: &str, wdata: &str, mem: &MemMap) -> (r: Case)
    ensures
        r@ == write_case(addr@, wdata@, mem@.slots),
{
    let mut cases = Case::new(addr);
    let mut i: usize = 0;
    assert(cases@.arms =~= mem@.slots.take(0).filter_map(write_arm(wdata@)));
    while i < mem.total_slots()
        invariant
            i <= mem@.slots.len(),
            cases@ == (CaseView {
                var: addr@,
                arms: mem@.slots.take(i as int).filter_map(write_arm(wdata@)),
                default: None,
            }),
        decreases mem@.slots.len() - i,
    {
        let slot = mem.slot(i);
        proof {
            mem@.slots.lemma_filter_map_take_succ(write_arm(wdata@), i as int);
        }
        match slot.write() {
            Some(name) => {
                let ghost before = cases@.arms;
                let key = decimal_string(slot.addr());
                let val = concat(wdata, range(slot.bit(), 0).as_str());
                cases = cases.case(key.as_str(), Stmt::assign(name, val.as_str()));
                assert(cases@.arms =~= before + seq![write_arm(wdata@)(slot@)->Some_0]);
            },
            None => {
                assert(cases@.arms + Seq::<(Seq<char>, StmtView)>::empty() =~= cases@.arms);
            },
        }
        i = i + 1;
    }
    assert(mem@.slots.take(i as int) =~= mem@.slots);
    cases.default(Stmt::empty())
}

/// Builds the read decode of `mem` on the address signal `addr`, driving
/// `rdata`.
pub fn build_read_case(addr: &str, rdata: &str, mem: &MemMap) -> (r: Case)
    ensures
        r@ == read_case(addr@, rdata@, mem@.slots),
{
    let mut cases = Case::new(addr);
    let mut i: usize = 0;
    assert(cases@.arms =~= mem@.slots.take(0).filter_map(read_arm(rdata@)));
    while i < mem.total_slots()
        invariant
            i <= mem@.slots.len(),
            cases@ == (CaseView {
                var: addr@,
                arms: mem@.slots.take(i as int).filter_map(read_arm(rdata@)),
                default: None,
            }),
        decreases mem@.slots.len() - i,
    {
        let slot = mem.slot(i);
        proof {
            mem@.slots.lemma_filter_map_take_succ(read_arm(rdata@), i as int);
        }
        match slot.read() {
            Some(name) => {
                let ghost before = cases@.arms;
                let key = decimal_string(slot.addr());
                let var = concat(rdata, range(slot.bit(), 0).as_str());
                cases = cases.case(key.as_str(), Stmt::assign(var.as_str(), name));
                assert(cases@.arms =~= before + seq![read_arm(rdata@)(slot@)->Some_0]);
            },
            None => {
                assert(cases@.arms + Seq::<(Seq<char>, StmtView)>::empty() =~= cases@.arms);
            },
        }
        i = i + 1;
    }
    assert(mem@.slots.take(i as int) =~= mem@.slots);
    cases.default(Stmt::assign(rdata, "0"))
}

} // verus!
