//! Register maps: an ordered list of registers, and the address map that
//! is allocated from it.
//!
//! Allocation is greedy and keeps the order: each register takes as many
//! consecutive addresses as it has elements, the first register starting
//! at address zero. Nothing is packed, padded or reordered.
use crate::util::{address_bits, address_width, ceil_log2, sel, sel_text};
use vstd::prelude::*;

pub mod axi_lite;
pub mod common;
pub mod handshake;
pub mod laws;
pub mod pico;

verus! {

/// What the bus may do with a register.
#[derive(Debug, Clone, Copy, PartialEq, Eq, Structural)]
pub enum Kind {
    /// Read and written by the bus.
    ReadWrite,
    /// Read by the bus, driven by the design.
    ReadOnly,
    /// Written by the bus, not readable.
    WriteOnly,
    /// A strobe written by the bus and a response read by it.
    Trigger,
}

/// Why a bus cannot be built for a memory map.
#[derive(Debug, Clone, Copy, PartialEq, Eq, Structural)]
pub enum BusError {
    /// The protocol has no data bus of this width.
    DataWidth,
    /// The protocol has no address bus this wide.
    AddrWidth,
}

/// What stands in front of every role of a bus: the name and an
/// underscore, or nothing for a bus without a name.
pub open spec fn prefix_of(name: Option<Seq<char>>) -> Seq<char> {
    match name {
        Some(n) => n + "_"@,
        None => Seq::empty(),
    }
}

/// Model of a register: `len` elements of `bit` bits each.
pub struct RegView {
    pub name: Seq<char>,
    pub kind: Kind,
    pub bit: nat,
    pub len: nat,
}

/// Model of an allocated slot: one address, and the signals behind it.
pub struct SlotView {
    pub addr: nat,
    pub bit: nat,
    pub read: Option<Seq<char>>,
    pub write: Option<Seq<char>>,
}

/// Model of a memory map.
pub struct MemMapView {
    pub data_bit: nat,
    pub addr_bit: nat,
    pub regs: Seq<RegView>,
    pub slots: Seq<SlotView>,
}

impl RegView {
    /// A register has at least one bit and one element; a trigger has
    /// exactly one of each.
    pub open spec fn wf(self) -> bool {
        &&& self.bit >= 1
        &&& self.len >= 1
        &&& self.kind == Kind::Trigger ==> self.bit == 1 && self.len == 1
    }
}

/// The slot of element `idx` of `reg` at address `addr`.
pub open spec fn slot_of(reg: RegView, addr: nat, idx: nat) -> SlotView {
    match reg.kind {
        Kind::ReadWrite => SlotView {
            addr,
            bit: reg.bit,
            read: Some(reg.name + sel_text(idx, reg.len)),
            write: Some(reg.name + sel_text(idx, reg.len)),
        },
        Kind::ReadOnly => SlotView {
            addr,
            bit: reg.bit,
            read: Some(reg.name + sel_text(idx, reg.len)),
            write: None,
        },
        Kind::WriteOnly => SlotView {
            addr,
            bit: reg.bit,
            read: None,
            write: Some(reg.name + sel_text(idx, reg.len)),
        },
        Kind::Trigger => SlotView {
            addr,
            bit: 1,
            read: Some(reg.name + "_resp"@),
            write: Some(reg.name + "_trig"@),
        },
    }
}

/// The slots of `reg` when its first element stands at address `base`.
pub open spec fn slots_of(reg: RegView, base: nat) -> Seq<SlotView> {
    Seq::new(reg.len, |i: int| slot_of(reg, (base + i) as nat, i as nat))
}

/// The slots of `regs`, allocated greedily from address zero.
pub open spec fn allocate(regs: Seq<RegView>) -> Seq<SlotView>
    decreases regs.len(),
{
    if regs.len() == 0 {
        Seq::empty()
    } else {
        allocate(regs.drop_last()) + slots_of(regs.last(), allocate(regs.drop_last()).len())
    }
}

/// The number of elements of all of `regs`.
pub open spec fn total_slots(regs: Seq<RegView>) -> nat
    decreases regs.len(),
{
    if regs.len() == 0 {
        0
    } else {
        total_slots(regs.drop_last()) + regs.last().len
    }
}

/// The memory map of `regs` behind a data bus of `data_bit` bits.
pub open spec fn mem_map(regs: Seq<RegView>, data_bit: nat) -> MemMapView {
    MemMapView {
        data_bit,
        addr_bit: address_width(allocate(regs).len()),
        regs,
        slots: allocate(regs),
    }
}

/// Whether every register of `regs` is valid and fits a data bus of
/// `data_bit` bits.
pub open spec fn fits(regs: Seq<RegView>, data_bit: nat) -> bool {
    forall|i: int| 0 <= i < regs.len() ==> (#[trigger] regs[i]).wf() && regs[i].bit <= data_bit
}

impl MemMapView {
    /// A memory map is the greedy allocation of its registers, each of
    /// which fits the data bus.
    pub open spec fn wf(self) -> bool {
        &&& fits(self.regs, self.data_bit)
        &&& self == mem_map(self.regs, self.data_bit)
    }
}

/// The number of slots is the sum of the registers' lengths, a trigger
/// counting as one.
pub proof fn lemma_allocate_len(regs: Seq<RegView>)
    ensures
        allocate(regs).len() == total_slots(regs),
    decreases regs.len(),
{
    if regs.len() > 0 {
        lemma_allocate_len(regs.drop_last());
    }
}

/// Addresses are consecutive from zero: the slot at position `i` has the
/// address `i`.
pub proof fn lemma_allocate_addr(regs: Seq<RegView>, i: int)
    requires
        0 <= i < allocate(regs).len(),
    ensures
        allocate(regs)[i].addr == i,
    decreases regs.len(),
{
    if regs.len() > 0 {
        let head = allocate(regs.drop_last());
        if i < head.len() {
            lemma_allocate_addr(regs.drop_last(), i);
        }
    }
}

/// The address of the first element of the register at position `r`.
pub open spec fn first_addr(regs: Seq<RegView>, r: int) -> nat {
    total_slots(regs.take(r))
}

/// Element `idx` of the register at position `r` stands `idx` addresses
/// behind the first address of that register.
pub proof fn lemma_slot_of_reg(regs: Seq<RegView>, r: int, idx: int)
    requires
        0 <= r < regs.len(),
        0 <= idx < regs[r].len,
    ensures
        first_addr(regs, r) + idx < allocate(regs).len(),
        allocate(regs)[first_addr(regs, r) + idx] == slot_of(
            regs[r],
            first_addr(regs, r) + idx as nat,
            idx as nat,
        ),
    decreases regs.len(),
{
    let head = regs.drop_last();
    lemma_allocate_len(head);
    if r == regs.len() - 1 {
        assert(regs.take(r) =~= head);
    } else {
        assert(head.take(r) =~= regs.take(r));
        lemma_slot_of_reg(head, r, idx);
    }
}

/// Every slot is an element of one of the registers.
pub proof fn lemma_slot_origin(regs: Seq<RegView>, i: int) -> (at: (int, int))
    requires
        0 <= i < allocate(regs).len(),
    ensures
        0 <= at.0 < regs.len(),
        0 <= at.1 < regs[at.0].len,
        i == first_addr(regs, at.0) + at.1,
        allocate(regs)[i] == slot_of(regs[at.0], i as nat, at.1 as nat),
    decreases regs.len(),
{
    let head = regs.drop_last();
    lemma_allocate_len(head);
    if i < allocate(head).len() {
        let at = lemma_slot_origin(head, i);
        assert(head.take(at.0) =~= regs.take(at.0));
        at
    } else {
        assert(regs.take(regs.len() - 1) =~= head);
        (regs.len() - 1, i - allocate(head).len())
    }
}

/// What the kind of a register means for each of its slots: a read-only
/// register cannot be written, a write-only register cannot be read, and
/// a trigger is written through its strobe and read through its response,
/// neither of which is the name of the register itself.
pub proof fn lemma_slot_kind(reg: RegView, addr: nat, idx: nat)
    ensures
        reg.kind == Kind::ReadWrite ==> slot_of(reg, addr, idx).read is Some && slot_of(
            reg,
            addr,
            idx,
        ).write is Some,
        reg.kind == Kind::ReadOnly ==> slot_of(reg, addr, idx).read is Some && slot_of(
            reg,
            addr,
            idx,
        ).write is None,
        reg.kind == Kind::WriteOnly ==> slot_of(reg, addr, idx).read is None && slot_of(
            reg,
            addr,
            idx,
        ).write is Some,
        reg.kind == Kind::Trigger ==> slot_of(reg, addr, idx).read == Some(reg.name + "_resp"@)
            && slot_of(reg, addr, idx).write == Some(reg.name + "_trig"@),
        reg.name + "_resp"@ != reg.name,
        reg.name + "_trig"@ != reg.name,
        reg.name + "_resp"@ != reg.name + "_trig"@,
{
    reveal_strlit("_resp");
    reveal_strlit("_trig");
    assert((reg.name + "_resp"@).len() == reg.name.len() + 5);
    assert((reg.name + "_trig"@).len() == reg.name.len() + 5);
    assert((reg.name + "_resp"@)[reg.name.len() as int + 1] == 'r');
    assert((reg.name + "_trig"@)[reg.name.len() as int + 1] == 't');
}

/// In every memory map the number of slots is the sum of the lengths of
/// its registers, and the address width is the ceiling of the base-two
/// logarithm of that number, but at least one.
pub proof fn lemma_mem_map_size(m: MemMapView)
    requires
        m.wf(),
    ensures
        m.slots.len() == total_slots(m.regs),
        m.addr_bit == if ceil_log2(total_slots(m.regs)) >= 1 {
            ceil_log2(total_slots(m.regs))
        } else {
            1
        },
{
    lemma_allocate_len(m.regs);
}

/// A register of a register list.
#[derive(Debug)]
pub struct Reg {
    name: String,
    kind: Kind,
    bit: usize,
    len: usize,
}

/// One address of a memory map.
#[derive(Debug)]
pub struct Slot {
    addr: usize,
    bit: usize,
    read: Option<String>,
    write: Option<String>,
}

/// An ordered list of registers.
#[derive(Debug)]
pub struct RegList {
    regs: Vec<Reg>,
}

/// Registers with their allocated addresses.
#[derive(Debug)]
pub struct MemMap {
    data_bit: usize,
    addr_bit: usize,
    regs: Vec<Reg>,
    map: Vec<Slot>,
}

impl View for Reg {
    type V = RegView;

    closed spec fn view(&self) -> RegView {
        RegView { name: self.name@, kind: self.kind, bit: self.bit as nat, len: self.len as nat }
    }
}

impl View for Slot {
    type V = SlotView;

    closed spec fn view(&self) -> SlotView {
        SlotView {
            addr: self.addr as nat,
            bit: self.bit as nat,
            read: match self.read {
                Some(s) => Some(s@),
                None => None,
            },
            write: match self.write {
                Some(s) => Some(s@),
                None => None,
            },
        }
    }
}

spec fn regs_view(regs: Seq<Reg>) -> Seq<RegView> {
    Seq::new(regs.len(), |i: int| regs[i]@)
}

spec fn slots_view(slots: Seq<Slot>) -> Seq<SlotView> {
    Seq::new(slots.len(), |i: int| slots[i]@)
}

impl View for RegList {
    type V = Seq<RegView>;

    closed spec fn view(&self) -> Seq<RegView> {
        regs_view(self.regs@)
    }
}

impl View for MemMap {
    type V = MemMapView;

    closed spec fn view(&self) -> MemMapView {
        MemMapView {
            data_bit: self.data_bit as nat,
            addr_bit: self.addr_bit as nat,
            regs: regs_view(self.regs@),
            slots: slots_view(self.map@),
        }
    }
}

impl Reg {
    #[verifier::type_invariant]
    spec fn inv(self) -> bool {
        self@.wf()
    }

    /// A register that the bus reads and writes.
    pub fn read_write(name: &str, bit: usize, len: usize) -> (r: Reg)
        requires
            0 < bit,
            0 < len,
        ensures
            r@ == (RegView { name: name@, kind: Kind::ReadWrite, bit: bit as nat, len: len as nat }),
    {
        Reg { name: String::from_str(name), kind: Kind::ReadWrite, bit, len }
    }

    /// A register that the bus only reads.
    pub fn read_only(name: &str, bit: usize, len: usize) -> (r: Reg)
        requires
            0 < bit,
            0 < len,
        ensures
            r@ == (RegView { name: name@, kind: Kind::ReadOnly, bit: bit as nat, len: len as nat }),
    {
        Reg { name: String::from_str(name), kind: Kind::ReadOnly, bit, len }
    }

    /// A register that the bus only writes.
    pub fn write_only(name: &str, bit: usize, len: usize) -> (r: Reg)
        requires
            0 < bit,
            0 < len,
        ensures
            r@ == (RegView { name: name@, kind: Kind::WriteOnly, bit: bit as nat, len: len as nat }),
    {
        Reg { name: String::from_str(name), kind: Kind::WriteOnly, bit, len }
    }

    /// A one-bit strobe with a one-bit response.
    pub fn trigger(name: &str) -> (r: Reg)
        ensures
            r@ == (RegView { name: name@, kind: Kind::Trigger, bit: 1, len: 1 }),
    {
        Reg { name: String::from_str(name), kind: Kind::Trigger, bit: 1, len: 1 }
    }

    /// The number of addresses that the register takes.
    pub fn len(&self) -> (n: usize)
        ensures
            n == self@.len,
            self@.wf(),
    {
        proof {
            use_type_invariant(self);
        }
        self.len
    }

    /// The width of one element.
    pub fn bit(&self) -> (n: usize)
        ensures
            n == self@.bit,
            self@.wf(),
    {
        proof {
            use_type_invariant(self);
        }
        self.bit
    }

    /// The kind of the register.
    pub fn kind(&self) -> (k: Kind)
        ensures
            k == self@.kind,
    {
        self.kind
    }

    /// The name of the register.
    pub fn name(&self) -> (s: &str)
        ensures
            s@ == self@.name,
    {
        self.name.as_str()
    }

    /// The slot of element `idx` at address `addr`.
    pub fn allocate(&self, addr: usize, idx: usize) -> (r: Slot)
        ensures
            r@ == slot_of(self@, addr as nat, idx as nat),
    {
        match self.kind {
            Kind::ReadWrite => {
                let mut signal = self.name.clone();
                signal.append(sel(idx, self.len).as_str());
                Slot {
                    read: Some(signal.clone()),
                    write: Some(signal),
                    bit: self.bit,
                    addr,
                }
            },
            Kind::ReadOnly => {
                let mut signal = self.name.clone();
                signal.append(sel(idx, self.len).as_str());
                Slot { read: Some(signal), write: None, bit: self.bit, addr }
            },
            Kind::WriteOnly => {
                let mut signal = self.name.clone();
                signal.append(sel(idx, self.len).as_str());
                Slot { read: None, write: Some(signal), bit: self.bit, addr }
            },
            Kind::Trigger => {
                let mut resp = self.name.clone();
                resp.append("_resp");
                let mut trig = self.name.clone();
                trig.append("_trig");
                Slot { read: Some(resp), write: Some(trig), bit: 1, addr }
            },
        }
    }
}

impl Clone for Reg {
    fn clone(&self) -> (r: Reg)
        ensures
            r@ == self@,
    {
        proof {
            use_type_invariant(self);
        }
        Reg { name: self.name.clone(), kind: self.kind, bit: self.bit, len: self.len }
    }
}

/// Copies an optional text.
pub(crate) fn copy_name(name: &Option<String>) -> (r: Option<String>)
    ensures
        r == *name,
{
    match name {
        Some(s) => Some(s.clone()),
        None => None,
    }
}

impl Clone for Slot {
    fn clone(&self) -> (r: Slot)
        ensures
            r@ == self@,
    {
        Slot {
            addr: self.addr,
            bit: self.bit,
            read: copy_name(&self.read),
            write: copy_name(&self.write),
        }
    }
}

/// Copies registers in order.
fn copy_regs(v: &Vec<Reg>) -> (r: Vec<Reg>)
    ensures
        regs_view(r@) == regs_view(v@),
{
    let mut out: Vec<Reg> = Vec::new();
    let mut i: usize = 0;
    while i < v.len()
        invariant
            i <= v.len(),
            out@.len() == i,
            forall|k: int| 0 <= k < i ==> (#[trigger] out@[k])@ == v@[k]@,
        decreases v.len() - i,
    {
        out.push(v[i].clone());
        i = i + 1;
    }
    assert(regs_view(out@) =~= regs_view(v@));
    out
}

/// Copies slots in order.
fn copy_slots(v: &Vec<Slot>) -> (r: Vec<Slot>)
    ensures
        slots_view(r@) == slots_view(v@),
{
    let mut out: Vec<Slot> = Vec::new();
    let mut i: usize = 0;
    while i < v.len()
        invariant
            i <= v.len(),
            out@.len() == i,
            forall|k: int| 0 <= k < i ==> (#[trigger] out@[k])@ == v@[k]@,
        decreases v.len() - i,
    {
        out.push(v[i].clone());
        i = i + 1;
    }
    assert(slots_view(out@) =~= slots_view(v@));
    out
}

impl Clone for RegList {
    fn clone(&self) -> (r: RegList)
        ensures
            r@ == self@,
    {
        RegList { regs: copy_regs(&self.regs) }
    }
}

impl Clone for MemMap {
    fn clone(&self) -> (r: MemMap)
        ensures
            r@ == self@,
    {
        proof {
            use_type_invariant(self);
        }
        MemMap {
            data_bit: self.data_bit,
            addr_bit: self.addr_bit,
            regs: copy_regs(&self.regs),
            map: copy_slots(&self.map),
        }
    }
}

impl Slot {
    /// The address of the slot.
    pub fn addr(&self) -> (n: usize)
        ensures
            n == self@.addr,
    {
        self.addr
    }

    /// The width of the slot.
    pub fn bit(&self) -> (n: usize)
        ensures
            n == self@.bit,
    {
        self.bit
    }

    /// The signal that a read of the slot returns, if it can be read.
    pub fn read(&self) -> (s: Option<&str>)
        ensures
            match s {
                Some(t) => self@.read == Some(t@),
                None => self@.read is None,
            },
    {
        match &self.read {
            Some(t) => Some(t.as_str()),
            None => None,
        }
    }

    /// The signal that a write of the slot sets, if it can be written.
    pub fn write(&self) -> (s: Option<&str>)
        ensures
            match s {
                Some(t) => self@.write == Some(t@),
                None => self@.write is None,
            },
    {
        match &self.write {
            Some(t) => Some(t.as_str()),
            None => None,
        }
    }
}

impl RegList {
    /// The empty list.
    pub fn new() -> (r: RegList)
        ensures
            r@ == Seq::<RegView>::empty(),
    {
        let r = RegList { regs: Vec::new() };
        assert(r@ =~= Seq::<RegView>::empty());
        r
    }

    fn push(self, reg: Reg) -> (r: RegList)
        ensures
            r@ == self@.push(reg@),
    {
        let mut list = self;
        list.regs.push(reg);
        assert(list@ =~= self@.push(reg@));
        list
    }

    /// Adds a register that the bus reads and writes.
    pub fn read_write(self, name: &str, bit: usize, len: usize) -> (r: RegList)
        requires
            0 < bit,
            0 < len,
        ensures
            r@ == self@.push(
                RegView { name: name@, kind: Kind::ReadWrite, bit: bit as nat, len: len as nat },
            ),
    {
        self.push(Reg::read_write(name, bit, len))
    }

    /// Adds a register that the bus only reads.
    pub fn read_only(self, name: &str, bit: usize, len: usize) -> (r: RegList)
        requires
            0 < bit,
            0 < len,
        ensures
            r@ == self@.push(
                RegView { name: name@, kind: Kind::ReadOnly, bit: bit as nat, len: len as nat },
            ),
    {
        self.push(Reg::read_only(name, bit, len))
    }

    /// Adds a register that the bus only writes.
    pub fn write_only(self, name: &str, bit: usize, len: usize) -> (r: RegList)
        requires
            0 < bit,
            0 < len,
        ensures
            r@ == self@.push(
                RegView { name: name@, kind: Kind::WriteOnly, bit: bit as nat, len: len as nat },
            ),
    {
        self.push(Reg::write_only(name, bit, len))
    }

    /// Adds a trigger.
    pub fn trigger(self, name: &str) -> (r: RegList)
        ensures
            r@ == self@.push(RegView { name: name@, kind: Kind::Trigger, bit: 1, len: 1 }),
    {
        self.push(Reg::trigger(name))
    }

    /// Whether every register fits a data bus of `data_bit` bits.
    pub fn fits(&self, data_bit: usize) -> (ok: bool)
        ensures
            ok == fits(self@, data_bit as nat),
    {
        let mut i: usize = 0;
        while i < self.regs.len()
            invariant
                i <= self.regs.len(),
                fits(self@.subrange(0, i as int), data_bit as nat),
            decreases self.regs.len() - i,
        {
            if self.regs[i].bit() > data_bit {
                assert(self@[i as int].bit > data_bit);
                return false;
            }
            assert forall|k: int| 0 <= k < i + 1 implies (#[trigger] self@.subrange(
                0,
                i + 1,
            )[k]).wf() && self@.subrange(0, i + 1)[k].bit <= data_bit by {
                if k < i {
                    assert(self@.subrange(0, i as int)[k] == self@[k]);
                }
            }
            i = i + 1;
        }
        assert(self@.subrange(0, i as int) =~= self@);
        true
    }

    /// Allocates an address for every element of every register, in
    /// order, from address zero.
    pub fn allocate_greedy(self, data_bit: usize) -> (r: MemMap)
        requires
            fits(self@, data_bit as nat),
        ensures
            r@ == mem_map(self@, data_bit as nat),
    {
        let mut list: Vec<Slot> = Vec::new();
        let mut i: usize = 0;
        assert(slots_view(list@) =~= allocate(self@.subrange(0, 0)));
        while i < self.regs.len()
            invariant
                i <= self.regs.len(),
                slots_view(list@) == allocate(self@.subrange(0, i as int)),
            decreases self.regs.len() - i,
        {
            let reg = &self.regs[i];
            let n = reg.len();
            let ghost head = slots_view(list@);
            let ghost base = list@.len();
            let mut idx: usize = 0;
            assert(slots_view(list@) =~= head + slots_of(reg@, base).subrange(0, 0));
            while idx < n
                invariant
                    idx <= n,
                    n == reg@.len,
                    base == head.len(),
                    slots_view(list@) == head + slots_of(reg@, base).subrange(0, idx as int),
                decreases n - idx,
            {
                assert(slots_view(list@).len() == base + idx);
                let ghost prev = slots_view(list@);
                let slot = reg.allocate(list.len(), idx);
                list.push(slot);
                assert(slots_view(list@) =~= prev.push(slot@));
                assert(slot@ == slots_of(reg@, base)[idx as int]);
                assert(slots_view(list@) =~= head + slots_of(reg@, base).subrange(0, idx + 1));
                idx = idx + 1;
            }
            proof {
                assert(slots_of(reg@, base).subrange(0, idx as int) =~= slots_of(reg@, base));
                let next = self@.subrange(0, i + 1);
                assert(next.drop_last() =~= self@.subrange(0, i as int));
                assert(next.last() == reg@);
            }
            i = i + 1;
        }
        assert(self@.subrange(0, i as int) =~= self@);
        let addr_bit = address_bits(list.len());
        MemMap { data_bit, addr_bit, regs: self.regs, map: list }
    }
}

impl MemMap {
    #[verifier::type_invariant]
    spec fn inv(self) -> bool {
        self@.wf()
    }

    /// The width of the data bus.
    pub fn data_bit(&self) -> (n: usize)
        ensures
            n == self@.data_bit,
            self@.wf(),
    {
        proof {
            use_type_invariant(self);
        }
        self.data_bit
    }

    /// The width of the address bus.
    pub fn addr_bit(&self) -> (n: usize)
        ensures
            n == self@.addr_bit,
            self@.wf(),
    {
        proof {
            use_type_invariant(self);
        }
        self.addr_bit
    }

    /// The number of slots.
    pub fn total_slots(&self) -> (n: usize)
        ensures
            n == self@.slots.len(),
            self@.wf(),
    {
        proof {
            use_type_invariant(self);
        }
        self.map.len()
    }

    /// The number of registers.
    pub fn len(&self) -> (n: usize)
        ensures
            n == self@.regs.len(),
            self@.wf(),
    {
        proof {
            use_type_invariant(self);
        }
        self.regs.len()
    }

    /// The register at position `i`.
    pub fn reg(&self, i: usize) -> (r: &Reg)
        requires
            i < self@.regs.len(),
        ensures
            r@ == self@.regs[i as int],
    {
        &self.regs[i]
    }

    /// The slot at address `i`.
    pub fn slot(&self, i: usize) -> (r: &Slot)
        requires
            i < self@.slots.len(),
        ensures
            r@ == self@.slots[i as int],
    {
        &self.map[i]
    }
}

} // verus!
