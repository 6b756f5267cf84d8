//! The single-cycle bus: address, data and control are exchanged in one
//! cycle, without an address phase. The data bus is 32 bits wide and the
//! address bus at most 32.
use crate::bus::common::{
    build_read_case, build_write_case, build_write_reset, case_block, read_case, storage,
    write_case, write_reset,
};
use crate::bus::{copy_name, prefix_of, BusError, MemMap, MemMapView};
use crate::dff::sync_process;
use crate::module::{port, Direct, ElementView, Module, ModuleView, PortView};
use crate::stmt::{block_of, only_if, Stmt, StmtView};
use crate::text::concat;
use vstd::prelude::*;

verus! {

/// The name of the signal of each role of the bus.
#[derive(Debug, Clone)]
pub struct SignalNames {
    pub ready: String,
    pub valid: String,
    pub addr: String,
    pub wstrb: String,
    pub wdata: String,
    pub rdata: String,
}

/// Model of the table of signal names.
pub struct SignalNamesView {
    pub ready: Seq<char>,
    pub valid: Seq<char>,
    pub addr: Seq<char>,
    pub wstrb: Seq<char>,
    pub wdata: Seq<char>,
    pub rdata: Seq<char>,
}

impl View for SignalNames {
    type V = SignalNamesView;

    open spec fn view(&self) -> SignalNamesView {
        SignalNamesView {
            ready: self.ready@,
            valid: self.valid@,
            addr: self.addr@,
            wstrb: self.wstrb@,
            wdata: self.wdata@,
            rdata: self.rdata@,
        }
    }
}

/// The table in which every signal is named by `prefix` and its role.
pub open spec fn prefixed(prefix: Seq<char>) -> SignalNamesView {
    SignalNamesView {
        ready: prefix + "ready"@,
        valid: prefix + "valid"@,
        addr: prefix + "addr"@,
        wstrb: prefix + "wstrb"@,
        wdata: prefix + "wdata"@,
        rdata: prefix + "rdata"@,
    }
}

/// Whether the protocol can carry `mem`.
pub open spec fn supports(mem: MemMapView) -> bool {
    mem.data_bit == 32 && mem.addr_bit <= 32
}

/// The ports of the slave.
pub open spec fn slave_ports(bus: SignalNamesView, mem: MemMapView) -> Seq<PortView> {
    seq![
        port(bus.valid, Direct::In, 1),
        port(bus.ready, Direct::In, 1),
        port(bus.wstrb, Direct::In, mem.data_bit / 8),
        port(bus.addr, Direct::In, mem.addr_bit),
        port(bus.wdata, Direct::In, mem.data_bit),
        port(bus.rdata, Direct::Out, mem.data_bit),
    ]
}

/// The direction of the other end of a port.
pub open spec fn mirror(d: Direct) -> Direct {
    match d {
        Direct::In => Direct::Out,
        Direct::Out => Direct::In,
        Direct::InOut => Direct::InOut,
    }
}

/// The ports of the master: those of the slave, each seen from the other
/// end.
pub open spec fn master_ports(bus: SignalNamesView, mem: MemMapView) -> Seq<PortView> {
    Seq::new(
        slave_ports(bus, mem).len(),
        |i: int|
            PortView { direct: mirror(slave_ports(bus, mem)[i].direct), ..slave_ports(bus, mem)[i] },
    )
}

/// What the write decode does outside reset: in a cycle in which the
/// exchange is valid and ready, the addressed slot takes the data.
pub open spec fn write_body(bus: SignalNamesView, mem: MemMapView) -> StmtView {
    block_of(
        only_if(
            bus.valid + " && "@ + bus.ready,
            block_of(StmtView::Case(write_case(bus.addr, bus.wdata, mem.slots))),
        ),
    )
}

/// The read side: the read data follows the addressed slot, without a
/// clock.
pub open spec fn read_body(bus: SignalNamesView, mem: MemMapView) -> StmtView {
    block_of(StmtView::Case(read_case(bus.addr, bus.rdata, mem.slots)))
}

/// `m` with a slave for `mem` added: the storage of the registers, the
/// ports of the bus, the clocked write decode and the combinational read
/// multiplexer.
pub open spec fn with_slave(
    m: ModuleView,
    clk: Seq<char>,
    rst: Seq<char>,
    bus: SignalNamesView,
    mem: MemMapView,
) -> ModuleView {
    ModuleView {
        ports: m.ports + slave_ports(bus, mem),
        blocks: m.blocks + storage(mem.regs) + seq![
            sync_process(clk, rst, write_reset(mem.slots), write_body(bus, mem)),
            ElementView::AlwaysComb { stmt: read_body(bus, mem) },
        ],
        ..m
    }
}

/// `m` with a master for `mem` added: the mirrored ports and the storage
/// of the registers, and no process.
pub open spec fn with_master(m: ModuleView, bus: SignalNamesView, mem: MemMapView) -> ModuleView {
    ModuleView {
        ports: m.ports + master_ports(bus, mem),
        blocks: m.blocks + storage(mem.regs),
        ..m
    }
}

impl SignalNames {
    /// The table in which every signal is named by `prefix` and its role.
    pub fn prefixed(prefix: &str) -> (r: SignalNames)
        ensures
            r@ == prefixed(prefix@),
    {
        SignalNames {
            ready: concat(prefix, "ready"),
            valid: concat(prefix, "valid"),
            addr: concat(prefix, "addr"),
            wstrb: concat(prefix, "wstrb"),
            wdata: concat(prefix, "wdata"),
            rdata: concat(prefix, "rdata"),
        }
    }

    /// The table for a bus called `name`, or for one without a name.
    pub fn named(name: &Option<String>) -> (r: SignalNames)
        ensures
            r@ == prefixed(
                prefix_of(
                    match name {
                        Some(n) => Some(n@),
                        None => None,
                    },
                ),
            ),
    {
        match name {
            Some(n) => {
                let prefix = concat(n.as_str(), "_");
                SignalNames::prefixed(prefix.as_str())
            },
            None => {
                let prefix = String::new();
                SignalNames::prefixed(prefix.as_str())
            },
        }
    }
}

impl Module {
    /// Adds a single-cycle slave for `mem` whose signals are named by
    /// `bus`, clocked by `clk` and reset while `rst` is low.
    pub fn pico(self, clk: &str, rst: &str, bus: &SignalNames, mem: &MemMap) -> (r: Module)
        requires
            supports(mem@),
        ensures
            r@ == with_slave(self@, clk@, rst@, bus@, mem@),
    {
        let data_bit = mem.data_bit();
        let addr_bit = mem.addr_bit();
        let m = self.define_regs(mem);
        let m = m.input(bus.valid.as_str(), 1).input(bus.ready.as_str(), 1).input(
            bus.wstrb.as_str(),
            data_bit / 8,
        ).input(bus.addr.as_str(), addr_bit).input(bus.wdata.as_str(), data_bit).output(
            bus.rdata.as_str(),
            data_bit,
        );
        assert(m@.ports =~= self@.ports + slave_ports(bus@, mem@));

        let init = build_write_reset(mem);
        let case = build_write_case(bus.addr.as_str(), bus.wdata.as_str(), mem);
        let mut both = String::from_str(bus.valid.as_str());
        both.append(" && ");
        both.append(bus.ready.as_str());
        let gated = Stmt::begin().if_(both.as_str(), case_block(case)).end();
        assert(gated@->Block_0 =~= write_body(bus@, mem@)->Block_0);
        let m = m.sync_ff(clk, rst, init, gated);

        let case = build_read_case(bus.addr.as_str(), bus.rdata.as_str(), mem);
        let m = m.always_comb(case_block(case));
        assert(m@.blocks =~= self@.blocks + storage(mem@.regs) + seq![
            sync_process(clk@, rst@, write_reset(mem@.slots), write_body(bus@, mem@)),
            ElementView::AlwaysComb { stmt: read_body(bus@, mem@) },
        ]);
        m
    }
}

/// Model of a single-cycle slave that waits to be added to a module.
pub struct PicoSlaveView {
    pub name: Option<Seq<char>>,
    pub clk: Seq<char>,
    pub rst: Seq<char>,
    pub mem: MemMapView,
}

/// A single-cycle slave for a memory map, with its clock and reset.
#[derive(Debug)]
pub struct PicoSlave {
    name: Option<String>,
    clk: String,
    rst: String,
    mem: MemMap,
}

impl View for PicoSlave {
    type V = PicoSlaveView;

    closed spec fn view(&self) -> PicoSlaveView {
        PicoSlaveView {
            name: match self.name {
                Some(n) => Some(n@),
                None => None,
            },
            clk: self.clk@,
            rst: self.rst@,
            mem: self.mem@,
        }
    }
}

impl PicoSlave {
    #[verifier::type_invariant]
    spec fn inv(self) -> bool {
        supports(self.mem@)
    }

    /// A slave for `mem`. Its signals are named `name`, an underscore and
    /// the role; without a name, by the role alone.
    pub fn new(name: Option<&str>, clk: &str, rst: &str, mem: MemMap) -> (r: PicoSlave)
        requires
            supports(mem@),
        ensures
            r@ == (PicoSlaveView {
                name: match name {
                    Some(n) => Some(n@),
                    None => None,
                },
                clk: clk@,
                rst: rst@,
                mem: mem@,
            }),
    {
        PicoSlave {
            name: match name {
                Some(n) => Some(String::from_str(n)),
                None => None,
            },
            clk: String::from_str(clk),
            rst: String::from_str(rst),
            mem,
        }
    }

    /// A slave for `mem`, or the reason why there is none: first the data
    /// bus must be 32 bits wide, then the address bus at most 32.
    pub fn try_new(name: Option<&str>, clk: &str, rst: &str, mem: MemMap) -> (r: Result<
        PicoSlave,
        BusError,
    >)
        ensures
            match r {
                Ok(bus) => supports(mem@) && bus@ == (PicoSlaveView {
                    name: match name {
                        Some(n) => Some(n@),
                        None => None,
                    },
                    clk: clk@,
                    rst: rst@,
                    mem: mem@,
                }),
                Err(BusError::DataWidth) => mem@.data_bit != 32,
                Err(BusError::AddrWidth) => mem@.data_bit == 32 && mem@.addr_bit > 32,
            },
    {
        if mem.data_bit() != 32 {
            Err(BusError::DataWidth)
        } else if mem.addr_bit() > 32 {
            Err(BusError::AddrWidth)
        } else {
            Ok(PicoSlave::new(name, clk, rst, mem))
        }
    }

    /// The names of the signals of this slave.
    pub fn signal_names(&self) -> (r: SignalNames)
        ensures
            r@ == prefixed(prefix_of(self@.name)),
    {
        SignalNames::named(&self.name)
    }

    /// Adds the slave to `module`.
    pub fn add(self, module: Module) -> (r: Module)
        ensures
            r@ == with_slave(
                module@,
                self@.clk,
                self@.rst,
                prefixed(prefix_of(self@.name)),
                self@.mem,
            ),
            supports(self@.mem),
    {
        proof {
            use_type_invariant(&self);
        }
        let bus = self.signal_names();
        module.pico(self.clk.as_str(), self.rst.as_str(), &bus, &self.mem)
    }
}

impl Clone for PicoSlave {
    fn clone(&self) -> (r: PicoSlave)
        ensures
            r@ == self@,
    {
        proof {
            use_type_invariant(self);
        }
        PicoSlave {
            name: copy_name(&self.name),
            clk: self.clk.clone(),
            rst: self.rst.clone(),
            mem: self.mem.clone(),
        }
    }
}

/// Model of a single-cycle master that waits to be added to a module.
pub struct PicoMasterView {
    pub name: Option<Seq<char>>,
    pub mem: MemMapView,
}

/// The master end of a single-cycle bus: ports and storage, no protocol.
#[derive(Debug)]
pub struct PicoMaster {
    name: Option<String>,
    mem: MemMap,
}

impl View for PicoMaster {
    type V = PicoMasterView;

    closed spec fn view(&self) -> PicoMasterView {
        PicoMasterView {
            name: match self.name {
                Some(n) => Some(n@),
                None => None,
            },
            mem: self.mem@,
        }
    }
}

impl PicoMaster {
    #[verifier::type_invariant]
    spec fn inv(self) -> bool {
        supports(self.mem@)
    }

    /// A master for `mem`, its signals named as those of a slave.
    pub fn new(name: Option<&str>, mem: MemMap) -> (r: PicoMaster)
        requires
            supports(mem@),
        ensures
            r@ == (PicoMasterView {
                name: match name {
                    Some(n) => Some(n@),
                    None => None,
                },
                mem: mem@,
            }),
    {
        PicoMaster {
            name: match name {
                Some(n) => Some(String::from_str(n)),
                None => None,
            },
            mem,
        }
    }

    /// The names of the signals of this master.
    pub fn signal_names(&self) -> (r: SignalNames)
        ensures
            r@ == prefixed(prefix_of(self@.name)),
    {
        SignalNames::named(&self.name)
    }
}

impl Clone for PicoMaster {
    fn clone(&self) -> (r: PicoMaster)
        ensures
            r@ == self@,
    {
        proof {
            use_type_invariant(self);
        }
        PicoMaster { name: copy_name(&self.name), mem: self.mem.clone() }
    }
}

impl Module {
    /// Adds the single-cycle slave for `mem`, named `name`.
    pub fn pico_slave(self, name: Option<&str>, clk: &str, rst: &str, mem: MemMap) -> (r: Module)
        requires
            supports(mem@),
        ensures
            r@ == with_slave(
                self@,
                clk@,
                rst@,
                prefixed(
                    prefix_of(
                        match name {
                            Some(n) => Some(n@),
                            None => None,
                        },
                    ),
                ),
                mem@,
            ),
    {
        PicoSlave::new(name, clk, rst, mem).add(self)
    }

    /// Adds the master end `bus`: its ports, mirrored from the slave's,
    /// and the storage of its registers.
    pub fn pico_master(self, bus: PicoMaster) -> (r: Module)
        ensures
            r@ == with_master(self@, prefixed(prefix_of(bus@.name)), bus@.mem),
    {
        proof {
            use_type_invariant(&bus);
        }
        let names = bus.signal_names();
        let mem = &bus.mem;
        let data_bit = mem.data_bit();
        let addr_bit = mem.addr_bit();
        let m = self.define_regs(mem);
        let m = m.output(names.valid.as_str(), 1).output(names.ready.as_str(), 1).output(
            names.wstrb.as_str(),
            data_bit / 8,
        ).output(names.addr.as_str(), addr_bit).output(names.wdata.as_str(), data_bit).input(
            names.rdata.as_str(),
            data_bit,
        );
        assert(m@.ports =~= self@.ports + master_ports(names@, mem@));
        m
    }
}

} // verus!
