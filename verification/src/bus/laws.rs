//! What holds of the address decode of every memory map.
use crate::bus::common::{read_arm, read_case, write_arm, write_case};
use crate::bus::{
    allocate, first_addr, lemma_allocate_addr, lemma_slot_kind, lemma_slot_of_reg, Kind,
    MemMapView, SlotView,
};
use crate::stmt::{assignment, StmtView};
use crate::text::{decimal, decimal_value, lemma_decimal_value};
use crate::util::range_text;
use vstd::prelude::*;

verus! {

/// Whether the slot at each position has that position as its address.
pub open spec fn addressed_in_order(slots: Seq<SlotView>) -> bool {
    forall|i: int| 0 <= i < slots.len() ==> (#[trigger] slots[i]).addr == i
}

/// Whether every arm that `f` makes is keyed by the address of its slot.
pub open spec fn keyed_by_address(f: spec_fn(SlotView) -> Option<(Seq<char>, StmtView)>) -> bool {
    forall|s: SlotView| (#[trigger] f(s)) is Some ==> (f(s)->0).0 == decimal(s.addr)
}

/// The address that the key of an arm stands for.
pub open spec fn arm_addr(arm: (Seq<char>, StmtView)) -> nat {
    decimal_value(arm.0)
}

/// The arms that a decode makes for slots in address order: each arm is
/// the arm of the slot at the address of its key, the keys increase
/// strictly, and every slot that has an arm finds it among them.
pub proof fn lemma_arms(slots: Seq<SlotView>, f: spec_fn(SlotView) -> Option<(Seq<char>, StmtView)>)
    requires
        addressed_in_order(slots),
        keyed_by_address(f),
    ensures
        forall|k: int|
            0 <= k < slots.filter_map(f).len() ==> arm_addr(#[trigger] slots.filter_map(f)[k])
                < slots.len() && f(slots[arm_addr(slots.filter_map(f)[k]) as int]) == Some(
                slots.filter_map(f)[k],
            ),
        forall|j: int, k: int|
            0 <= j < k < slots.filter_map(f).len() ==> arm_addr(#[trigger] slots.filter_map(f)[j])
                < arm_addr(#[trigger] slots.filter_map(f)[k]),
        forall|i: int|
            0 <= i < slots.len() && (#[trigger] f(slots[i])) is Some ==> slots.filter_map(
                f,
            ).contains(f(slots[i])->0),
    decreases slots.len(),
{
    if slots.len() > 0 {
        let head = slots.drop_last();
        let last = slots.last();
        let arms = slots.filter_map(f);
        let before = head.filter_map(f);
        assert(addressed_in_order(head)) by {
            assert forall|i: int| 0 <= i < head.len() implies (#[trigger] head[i]).addr == i by {
                assert(head[i] == slots[i]);
            }
        }
        lemma_arms(head, f);
        assert forall|k: int| 0 <= k < before.len() implies arm_addr(#[trigger] before[k])
            < head.len() && f(slots[arm_addr(before[k]) as int]) == Some(before[k]) by {
            assert(head[arm_addr(before[k]) as int] == slots[arm_addr(before[k]) as int]);
        }
        if f(last) is Some {
            let arm = f(last)->0;
            assert(arms =~= before + seq![arm]);
            lemma_decimal_value(last.addr);
            assert(arm_addr(arm) == slots.len() - 1);
            assert forall|k: int| 0 <= k < arms.len() implies arm_addr(#[trigger] arms[k])
                < slots.len() && f(slots[arm_addr(arms[k]) as int]) == Some(arms[k]) by {
                if k < before.len() {
                    assert(arms[k] == before[k]);
                }
            }
            assert forall|j: int, k: int| 0 <= j < k < arms.len() implies arm_addr(
                #[trigger] arms[j],
            ) < arm_addr(#[trigger] arms[k]) by {
                assert(arms[j] == before[j]);
                if k < before.len() {
                    assert(arms[k] == before[k]);
                }
            }
            assert forall|i: int| 0 <= i < slots.len() && (#[trigger] f(
                slots[i],
            )) is Some implies arms.contains(f(slots[i])->0) by {
                if i < head.len() {
                    assert(head[i] == slots[i]);
                    let k = choose|k: int| 0 <= k < before.len() && before[k] == f(head[i])->0;
                    assert(arms[k] == f(slots[i])->0);
                } else {
                    assert(arms[arms.len() - 1] == arm);
                }
            }
        } else {
            assert(arms =~= before);
            assert forall|i: int| 0 <= i < slots.len() && (#[trigger] f(
                slots[i],
            )) is Some implies arms.contains(f(slots[i])->0) by {
                assert(head[i] == slots[i]);
            }
        }
    }
}

/// A decode makes as many arms as there are slots that it has an arm
/// for.
pub proof fn lemma_arm_count(
    slots: Seq<SlotView>,
    f: spec_fn(SlotView) -> Option<(Seq<char>, StmtView)>,
)
    ensures
        slots.filter_map(f).len() == slots.filter(|s: SlotView| f(s) is Some).len(),
    decreases slots.len(),
{
    reveal_with_fuel(Seq::filter, 2);
    if slots.len() > 0 {
        lemma_arm_count(slots.drop_last(), f);
    }
}

/// The slots of a memory map stand in address order.
pub proof fn lemma_mem_map_in_order(mem: MemMapView)
    requires
        mem.wf(),
    ensures
        addressed_in_order(mem.slots),
{
    assert forall|i: int| 0 <= i < mem.slots.len() implies (#[trigger] mem.slots[i]).addr == i by {
        lemma_allocate_addr(mem.regs, i);
    }
}

/// The read decode has exactly one arm for each readable slot and none
/// besides, each keyed by the address of its slot; no two arms have the
/// same key; and there is a default arm.
pub proof fn lemma_read_decode(mem: MemMapView, addr: Seq<char>, rdata: Seq<char>)
    requires
        mem.wf(),
    ensures
        read_case(addr, rdata, mem.slots).default is Some,
        read_case(addr, rdata, mem.slots).arms.len() == mem.slots.filter(
            |s: SlotView| s.read is Some,
        ).len(),
        forall|i: int|
            0 <= i < mem.slots.len() && (#[trigger] mem.slots[i]).read is Some ==> read_case(
                addr,
                rdata,
                mem.slots,
            ).arms.contains(
                (
                    decimal(i as nat),
                    assignment(rdata + range_text(mem.slots[i].bit, 0), mem.slots[i].read->0),
                ),
            ),
        forall|k: int|
            0 <= k < read_case(addr, rdata, mem.slots).arms.len() ==> {
                let arm = #[trigger] read_case(addr, rdata, mem.slots).arms[k];
                &&& arm_addr(arm) < mem.slots.len()
                &&& mem.slots[arm_addr(arm) as int].read is Some
                &&& arm.0 == decimal(arm_addr(arm))
            },
        forall|j: int, k: int|
            0 <= j < k < read_case(addr, rdata, mem.slots).arms.len() ==> (#[trigger] read_case(
                addr,
                rdata,
                mem.slots,
            ).arms[j]).0 != (#[trigger] read_case(addr, rdata, mem.slots).arms[k]).0,
{
    let f = read_arm(rdata);
    let arms = mem.slots.filter_map(f);
    lemma_mem_map_in_order(mem);
    lemma_arms(mem.slots, f);
    lemma_arm_count(mem.slots, f);
    assert(mem.slots.filter(|s: SlotView| f(s) is Some) =~= mem.slots.filter(
        |s: SlotView| s.read is Some,
    )) by {
        assert((|s: SlotView| f(s) is Some) =~= (|s: SlotView| s.read is Some));
    }
    assert forall|i: int|
        0 <= i < mem.slots.len() && (#[trigger] mem.slots[i]).read is Some implies arms.contains(
        (
            decimal(i as nat),
            assignment(rdata + range_text(mem.slots[i].bit, 0), mem.slots[i].read->0),
        ),
    ) by {
        assert(f(mem.slots[i]) is Some);
    }
    assert forall|j: int, k: int| 0 <= j < k < arms.len() implies (#[trigger] arms[j]).0 != (
    #[trigger] arms[k]).0 by {
        assert(arm_addr(arms[j]) < arm_addr(arms[k]));
    }
}

/// The write decode has exactly one arm for each writable slot and none
/// besides, each keyed by the address of its slot; no two arms have the
/// same key; and there is a default arm, which does nothing.
pub proof fn lemma_write_decode(mem: MemMapView, addr: Seq<char>, wdata: Seq<char>)
    requires
        mem.wf(),
    ensures
        write_case(addr, wdata, mem.slots).default == Some(Box::new(StmtView::Empty)),
        write_case(addr, wdata, mem.slots).arms.len() == mem.slots.filter(
            |s: SlotView| s.write is Some,
        ).len(),
        forall|i: int|
            0 <= i < mem.slots.len() && (#[trigger] mem.slots[i]).write is Some ==> write_case(
                addr,
                wdata,
                mem.slots,
            ).arms.contains(
                (
                    decimal(i as nat),
                    assignment(mem.slots[i].write->0, wdata + range_text(mem.slots[i].bit, 0)),
                ),
            ),
        forall|k: int|
            0 <= k < write_case(addr, wdata, mem.slots).arms.len() ==> {
                let arm = #[trigger] write_case(addr, wdata, mem.slots).arms[k];
                &&& arm_addr(arm) < mem.slots.len()
                &&& mem.slots[arm_addr(arm) as int].write is Some
                &&& arm.0 == decimal(arm_addr(arm))
            },
        forall|j: int, k: int|
            0 <= j < k < write_case(addr, wdata, mem.slots).arms.len() ==> (
            #[trigger] write_case(addr, wdata, mem.slots).arms[j]).0 != (#[trigger] write_case(
                addr,
                wdata,
                mem.slots,
            ).arms[k]).0,
{
    let f = write_arm(wdata);
    let arms = mem.slots.filter_map(f);
    lemma_mem_map_in_order(mem);
    lemma_arms(mem.slots, f);
    lemma_arm_count(mem.slots, f);
    assert(mem.slots.filter(|s: SlotView| f(s) is Some) =~= mem.slots.filter(
        |s: SlotView| s.write is Some,
    )) by {
        assert((|s: SlotView| f(s) is Some) =~= (|s: SlotView| s.write is Some));
    }
    assert forall|i: int|
        0 <= i < mem.slots.len() && (#[trigger] mem.slots[i]).write is Some implies arms.contains(
        (
            decimal(i as nat),
            assignment(mem.slots[i].write->0, wdata + range_text(mem.slots[i].bit, 0)),
        ),
    ) by {
        assert(f(mem.slots[i]) is Some);
    }
    assert forall|j: int, k: int| 0 <= j < k < arms.len() implies (#[trigger] arms[j]).0 != (
    #[trigger] arms[k]).0 by {
        assert(arm_addr(arms[j]) < arm_addr(arms[k]));
    }
}

/// No arm of the write decode is keyed by the address of an element of a
/// read-only register.
pub proof fn lemma_read_only_not_written(
    mem: MemMapView,
    addr: Seq<char>,
    wdata: Seq<char>,
    r: int,
    idx: int,
)
    requires
        mem.wf(),
        0 <= r < mem.regs.len(),
        mem.regs[r].kind == Kind::ReadOnly,
        0 <= idx < mem.regs[r].len,
    ensures
        first_addr(mem.regs, r) + idx < mem.slots.len(),
        mem.slots[first_addr(mem.regs, r) + idx].addr == first_addr(mem.regs, r) + idx,
        forall|k: int|
            0 <= k < write_case(addr, wdata, mem.slots).arms.len() ==> (#[trigger] write_case(
                addr,
                wdata,
                mem.slots,
            ).arms[k]).0 != decimal(first_addr(mem.regs, r) + idx as nat),
{
    let a = first_addr(mem.regs, r) + idx;
    lemma_slot_of_reg(mem.regs, r, idx);
    lemma_slot_kind(mem.regs[r], a as nat, idx as nat);
    lemma_write_decode(mem, addr, wdata);
    lemma_decimal_value(a as nat);
}

/// No arm of the read decode is keyed by the address of an element of a
/// write-only register.
pub proof fn lemma_write_only_not_read(
    mem: MemMapView,
    addr: Seq<char>,
    rdata: Seq<char>,
    r: int,
    idx: int,
)
    requires
        mem.wf(),
        0 <= r < mem.regs.len(),
        mem.regs[r].kind == Kind::WriteOnly,
        0 <= idx < mem.regs[r].len,
    ensures
        first_addr(mem.regs, r) + idx < mem.slots.len(),
        mem.slots[first_addr(mem.regs, r) + idx].addr == first_addr(mem.regs, r) + idx,
        forall|k: int|
            0 <= k < read_case(addr, rdata, mem.slots).arms.len() ==> (#[trigger] read_case(
                addr,
                rdata,
                mem.slots,
            ).arms[k]).0 != decimal(first_addr(mem.regs, r) + idx as nat),
{
    let a = first_addr(mem.regs, r) + idx;
    lemma_slot_of_reg(mem.regs, r, idx);
    lemma_slot_kind(mem.regs[r], a as nat, idx as nat);
    lemma_read_decode(mem, addr, rdata);
    lemma_decimal_value(a as nat);
}

/// At the address of a trigger, the write decode sets the strobe from bit
/// zero of the write data, and the read decode drives bit zero of the
/// read data from the response. Every arm with that address is one of
/// these two, and neither signal is the name of the register itself.
pub proof fn lemma_trigger_arms(
    mem: MemMapView,
    addr: Seq<char>,
    wdata: Seq<char>,
    rdata: Seq<char>,
    r: int,
)
    requires
        mem.wf(),
        0 <= r < mem.regs.len(),
        mem.regs[r].kind == Kind::Trigger,
    ensures
        first_addr(mem.regs, r) < mem.slots.len(),
        write_case(addr, wdata, mem.slots).arms.contains(
            (
                decimal(first_addr(mem.regs, r)),
                assignment(mem.regs[r].name + "_trig"@, wdata + range_text(1, 0)),
            ),
        ),
        read_case(addr, rdata, mem.slots).arms.contains(
            (
                decimal(first_addr(mem.regs, r)),
                assignment(rdata + range_text(1, 0), mem.regs[r].name + "_resp"@),
            ),
        ),
        forall|k: int|
            0 <= k < write_case(addr, wdata, mem.slots).arms.len() && (#[trigger] write_case(
                addr,
                wdata,
                mem.slots,
            ).arms[k]).0 == decimal(first_addr(mem.regs, r)) ==> write_case(
                addr,
                wdata,
                mem.slots,
            ).arms[k].1 == assignment(mem.regs[r].name + "_trig"@, wdata + range_text(1, 0)),
        forall|k: int|
            0 <= k < read_case(addr, rdata, mem.slots).arms.len() && (#[trigger] read_case(
                addr,
                rdata,
                mem.slots,
            ).arms[k]).0 == decimal(first_addr(mem.regs, r)) ==> read_case(
                addr,
                rdata,
                mem.slots,
            ).arms[k].1 == assignment(rdata + range_text(1, 0), mem.regs[r].name + "_resp"@),
        mem.regs[r].name + "_trig"@ != mem.regs[r].name,
        mem.regs[r].name + "_resp"@ != mem.regs[r].name,
{
    let a = first_addr(mem.regs, r);
    assert(mem.regs[r].wf());
    lemma_slot_of_reg(mem.regs, r, 0);
    lemma_slot_kind(mem.regs[r], a, 0);
    lemma_mem_map_in_order(mem);
    lemma_arms(mem.slots, write_arm(wdata));
    lemma_arms(mem.slots, read_arm(rdata));
    lemma_decimal_value(a);
    assert(write_arm(wdata)(mem.slots[a as int]) is Some);
    assert(read_arm(rdata)(mem.slots[a as int]) is Some);
}

} // verus!
