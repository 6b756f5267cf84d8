//! A register map that carries its own bus: a name, a data width, and
//! the registers, each checked against the width as it is added.
use crate::bus::axi_lite::{prefixed, with_slave, SignalNames};
use crate::bus::{fits, mem_map, Kind, RegList, RegView};
use crate::module::{Module, ModuleView};
use crate::text::concat;
use vstd::prelude::*;

verus! {

/// Model of a register map with its bus.
pub struct RegMapView {
    pub name: Seq<char>,
    pub bit: nat,
    pub regs: Seq<RegView>,
}

/// Registers behind a handshake bus of a given name and data width.
#[derive(Debug)]
pub struct RegMap {
    name: String,
    bit: usize,
    list: RegList,
}

impl View for RegMap {
    type V = RegMapView;

    closed spec fn view(&self) -> RegMapView {
        RegMapView { name: self.name@, bit: self.bit as nat, regs: self.list@ }
    }
}

impl RegMap {
    #[verifier::type_invariant]
    spec fn inv(self) -> bool {
        (self.bit == 32 || self.bit == 64) && fits(self.list@, self.bit as nat)
    }

    /// An empty map behind the bus `name` with a data width of `bit`
    /// bits, which is 32 or 64.
    pub fn new(name: &str, bit: usize) -> (r: RegMap)
        requires
            bit == 32 || bit == 64,
        ensures
            r@ == (RegMapView { name: name@, bit: bit as nat, regs: Seq::empty() }),
    {
        RegMap { name: String::from_str(name), bit, list: RegList::new() }
    }

    /// The name of the bus.
    pub fn name(&self) -> (s: &str)
        ensures
            s@ == self@.name,
    {
        self.name.as_str()
    }

    /// The data width of the bus.
    pub fn bit(&self) -> (n: usize)
        ensures
            n == self@.bit,
            n == 32 || n == 64,
    {
        proof {
            use_type_invariant(self);
        }
        self.bit
    }

    /// Adds `len` elements of `bit` bits that the bus reads and writes.
    pub fn read_write(self, name: &str, bit: usize, len: usize) -> (r: RegMap)
        requires
            0 < bit <= self@.bit,
            0 < len,
        ensures
            r@ == (RegMapView {
                regs: self@.regs.push(
                    RegView {
                        name: name@,
                        kind: Kind::ReadWrite,
                        bit: bit as nat,
                        len: len as nat,
                    },
                ),
                ..self@
            }),
    {
        proof {
            use_type_invariant(&self);
        }
        RegMap { name: self.name, bit: self.bit, list: self.list.read_write(name, bit, len) }
    }

    /// Adds `len` elements of `bit` bits that the bus only reads.
    pub fn read_only(self, name: &str, bit: usize, len: usize) -> (r: RegMap)
        requires
            0 < bit <= self@.bit,
            0 < len,
        ensures
            r@ == (RegMapView {
                regs: self@.regs.push(
                    RegView {
                        name: name@,
                        kind: Kind::ReadOnly,
                        bit: bit as nat,
                        len: len as nat,
                    },
                ),
                ..self@
            }),
    {
        proof {
            use_type_invariant(&self);
        }
        RegMap { name: self.name, bit: self.bit, list: self.list.read_only(name, bit, len) }
    }

    /// Adds `len` elements of `bit` bits that the bus only writes.
    pub fn write_only(self, name: &str, bit: usize, len: usize) -> (r: RegMap)
        requires
            0 < bit <= self@.bit,
            0 < len,
        ensures
            r@ == (RegMapView {
                regs: self@.regs.push(
                    RegView {
                        name: name@,
                        kind: Kind::WriteOnly,
                        bit: bit as nat,
                        len: len as nat,
                    },
                ),
                ..self@
            }),
    {
        proof {
            use_type_invariant(&self);
        }
        RegMap { name: self.name, bit: self.bit, list: self.list.write_only(name, bit, len) }
    }

    /// Adds a trigger.
    pub fn trigger(self, name: &str) -> (r: RegMap)
        ensures
            r@ == (RegMapView {
                regs: self@.regs.push(RegView { name: name@, kind: Kind::Trigger, bit: 1, len: 1 }),
                ..self@
            }),
    {
        proof {
            use_type_invariant(&self);
        }
        RegMap { name: self.name, bit: self.bit, list: self.list.trigger(name) }
    }
}

impl Clone for RegMap {
    fn clone(&self) -> (r: RegMap)
        ensures
            r@ == self@,
    {
        proof {
            use_type_invariant(self);
        }
        RegMap { name: self.name.clone(), bit: self.bit, list: self.list.clone() }
    }
}

impl Module {
    /// Allocates the registers of `regmap` and adds the handshake slave
    /// for them. The signals of the bus are named by the name of the map,
    /// an underscore and the role.
    pub fn regmap(self, clk: &str, rst: &str, regmap: RegMap) -> (r: Module)
        ensures
            r@ == with_slave(
                self@,
                clk@,
                rst@,
                prefixed(regmap@.name + "_"@),
                mem_map(regmap@.regs, regmap@.bit),
            ),
    {
        proof {
            use_type_invariant(&regmap);
        }
        let prefix = concat(regmap.name.as_str(), "_");
        let bus = SignalNames::prefixed(prefix.as_str());
        let mem = regmap.list.allocate_greedy(regmap.bit);
        self.axi_lite(clk, rst, &bus, &mem)
    }
}

} // verus!
