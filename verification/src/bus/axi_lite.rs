//! The handshake bus slave: paired valid and ready signals, with an
//! address phase, a data phase and a response phase in each direction.
use crate::bus::common::{
    build_read_case, build_write_case, build_write_reset, case_block, read_case, storage,
    write_case, write_reset,
};
use crate::bus::{copy_name, prefix_of, BusError, MemMap, MemMapView};
use crate::dff::sync_process;
use crate::module::{port, Direct, ElementView, Module, ModuleView, PortView};
use crate::stmt::{assignment, block_of, only_if, Block, CondView, Stmt, StmtView};
use crate::text::concat;
use vstd::prelude::*;

verus! {

/// The name of the signal of each role of the bus.
#[derive(Debug, Clone)]
pub struct SignalNames {
    pub awaddr: String,
    pub awvalid: String,
    pub awready: String,
    pub wdata: String,
    pub wstrb: String,
    pub wvalid: String,
    pub wready: String,
    pub bresp: String,
    pub bvalid: String,
    pub bready: String,
    pub araddr: String,
    pub arvalid: String,
    pub arready: String,
    pub rdata: String,
    pub rresp: String,
    pub rvalid: String,
    pub rready: String,
}

/// Model of the table of signal names.
pub struct SignalNamesView {
    pub awaddr: Seq<char>,
    pub awvalid: Seq<char>,
    pub awready: Seq<char>,
    pub wdata: Seq<char>,
    pub wstrb: Seq<char>,
    pub wvalid: Seq<char>,
    pub wready: Seq<char>,
    pub bresp: Seq<char>,
    pub bvalid: Seq<char>,
    pub bready: Seq<char>,
    pub araddr: Seq<char>,
    pub arvalid: Seq<char>,
    pub arready: Seq<char>,
    pub rdata: Seq<char>,
    pub rresp: Seq<char>,
    pub rvalid: Seq<char>,
    pub rready: Seq<char>,
}

impl View for SignalNames {
    type V = SignalNamesView;

    open spec fn view(&self) -> SignalNamesView {
        SignalNamesView {
            awaddr: self.awaddr@,
            awvalid: self.awvalid@,
            awready: self.awready@,
            wdata: self.wdata@,
            wstrb: self.wstrb@,
            wvalid: self.wvalid@,
            wready: self.wready@,
            bresp: self.bresp@,
            bvalid: self.bvalid@,
            bready: self.bready@,
            araddr: self.araddr@,
            arvalid: self.arvalid@,
            arready: self.arready@,
            rdata: self.rdata@,
            rresp: self.rresp@,
            rvalid: self.rvalid@,
            rready: self.rready@,
        }
    }
}

/// The table in which every signal is named by `prefix` and its role.
pub open spec fn prefixed(prefix: Seq<char>) -> SignalNamesView {
    SignalNamesView {
        awaddr: prefix + "awaddr"@,
        awvalid: prefix + "awvalid"@,
        awready: prefix + "awready"@,
        wdata: prefix + "wdata"@,
        wstrb: prefix + "wstrb"@,
        wvalid: prefix + "wvalid"@,
        wready: prefix + "wready"@,
        bresp: prefix + "bresp"@,
        bvalid: prefix + "bvalid"@,
        bready: prefix + "bready"@,
        araddr: prefix + "araddr"@,
        arvalid: prefix + "arvalid"@,
        arready: prefix + "arready"@,
        rdata: prefix + "rdata"@,
        rresp: prefix + "rresp"@,
        rvalid: prefix + "rvalid"@,
        rready: prefix + "rready"@,
    }
}

/// The ports of the slave, channel by channel: write address, write
/// data, write response, read address, read data.
pub open spec fn ports(bus: SignalNamesView, mem: MemMapView) -> Seq<PortView> {
    seq![
        port(bus.awaddr, Direct::In, mem.addr_bit),
        port(bus.awvalid, Direct::In, 1),
        port(bus.awready, Direct::Out, 1),
        port(bus.wdata, Direct::In, mem.data_bit),
        port(bus.wstrb, Direct::In, mem.data_bit / 8),
        port(bus.wvalid, Direct::In, 1),
        port(bus.wready, Direct::Out, 1),
        port(bus.bresp, Direct::Out, 2),
        port(bus.bvalid, Direct::Out, 1),
        port(bus.bready, Direct::In, 1),
        port(bus.araddr, Direct::In, mem.addr_bit),
        port(bus.arvalid, Direct::In, 1),
        port(bus.arready, Direct::Out, 1),
        port(bus.rdata, Direct::Out, mem.data_bit),
        port(bus.rresp, Direct::Out, 2),
        port(bus.rvalid, Direct::Out, 1),
        port(bus.rready, Direct::In, 1),
    ]
}

/// What the write decode does outside reset: while write data and write
/// address are both valid, the addressed slot takes the data.
pub open spec fn write_body(bus: SignalNamesView, mem: MemMapView) -> StmtView {
    block_of(
        only_if(
            bus.wvalid + " && "@ + bus.awvalid,
            block_of(StmtView::Case(write_case(bus.awaddr, bus.wdata, mem.slots))),
        ),
    )
}

/// What the read decode does outside reset: while the read address is
/// valid, the read data takes the addressed slot.
pub open spec fn read_body(bus: SignalNamesView, mem: MemMapView) -> StmtView {
    block_of(
        only_if(
            bus.arvalid,
            block_of(StmtView::Case(read_case(bus.araddr, bus.rdata, mem.slots))),
        ),
    )
}

/// The reset of the handshake: every ready, every response valid and both
/// response codes are cleared.
pub open spec fn protocol_reset(bus: SignalNamesView) -> StmtView {
    StmtView::Block(
        seq![
            assignment(bus.awready, "0"@),
            assignment(bus.wready, "0"@),
            assignment(bus.bvalid, "0"@),
            assignment(bus.arready, "0"@),
            assignment(bus.rvalid, "0"@),
            assignment(bus.bresp, "0"@),
            assignment(bus.rresp, "0"@),
        ],
    )
}

/// A response valid that is held: it is cleared in a cycle in which
/// `taken` holds, raised in another cycle in which `raised` holds, and
/// keeps its value in every other cycle.
pub open spec fn held(valid: Seq<char>, taken: Seq<char>, raised: Seq<char>) -> StmtView {
    StmtView::Cond(
        CondView {
            arms: seq![(taken, assignment(valid, "0"@)), (raised, assignment(valid, "1"@))],
            other: None,
        },
    )
}

/// The handshake in each cycle. A ready answers a valid for one cycle.
/// The write response becomes valid once both write readies were seen,
/// the read data once the read address was accepted; each stays valid
/// until its own ready is seen, and is cleared then.
pub open spec fn protocol_body(bus: SignalNamesView) -> StmtView {
    StmtView::Block(
        seq![
            assignment(bus.awready, bus.awvalid + " && !"@ + bus.awready),
            assignment(bus.wready, bus.wvalid + " && !"@ + bus.wready),
            assignment(bus.arready, bus.arvalid + " && !"@ + bus.arready),
            held(
                bus.bvalid,
                bus.bvalid + " && "@ + bus.bready,
                bus.awready + " && "@ + bus.wready,
            ),
            held(
                bus.rvalid,
                bus.rvalid + " && "@ + bus.rready,
                bus.arvalid + " && !"@ + bus.arready,
            ),
        ],
    )
}

/// The three processes of the slave: write decode, read decode,
/// handshake.
pub open spec fn processes(
    clk: Seq<char>,
    rst: Seq<char>,
    bus: SignalNamesView,
    mem: MemMapView,
) -> Seq<ElementView> {
    seq![
        sync_process(clk, rst, write_reset(mem.slots), write_body(bus, mem)),
        sync_process(clk, rst, assignment(bus.rdata, "0"@), read_body(bus, mem)),
        sync_process(clk, rst, protocol_reset(bus), protocol_body(bus)),
    ]
}

/// `m` with a slave for `mem` added: the storage of the registers, the
/// ports of the bus, and the three processes.
pub open spec fn with_slave(
    m: ModuleView,
    clk: Seq<char>,
    rst: Seq<char>,
    bus: SignalNamesView,
    mem: MemMapView,
) -> ModuleView {
    ModuleView {
        ports: m.ports + ports(bus, mem),
        blocks: m.blocks + storage(mem.regs) + processes(clk, rst, bus, mem),
        ..m
    }
}

impl SignalNames {
    /// The table in which every signal is named by `prefix` and its role.
    pub fn prefixed(prefix: &str) -> (r: SignalNames)
        ensures
            r@ == prefixed(prefix@),
    {
        SignalNames {
            awaddr: concat(prefix, "awaddr"),
            awvalid: concat(prefix, "awvalid"),
            awready: concat(prefix, "awready"),
            wdata: concat(prefix, "wdata"),
            wstrb: concat(prefix, "wstrb"),
            wvalid: concat(prefix, "wvalid"),
            wready: concat(prefix, "wready"),
            bresp: concat(prefix, "bresp"),
            bvalid: concat(prefix, "bvalid"),
            bready: concat(prefix, "bready"),
            araddr: concat(prefix, "araddr"),
            arvalid: concat(prefix, "arvalid"),
            arready: concat(prefix, "arready"),
            rdata: concat(prefix, "rdata"),
            rresp: concat(prefix, "rresp"),
            rvalid: concat(prefix, "rvalid"),
            rready: concat(prefix, "rready"),
        }
    }
}

/// `a && !b`.
fn and_not(a: &str, b: &str) -> (r: String)
    ensures
        r@ == a@ + " && !"@ + b@,
{
    let mut s = String::from_str(a);
    s.append(" && !");
    s.append(b);
    s
}

/// `a && b`.
fn and(a: &str, b: &str) -> (r: String)
    ensures
        r@ == a@ + " && "@ + b@,
{
    let mut s = String::from_str(a);
    s.append(" && ");
    s.append(b);
    s
}

/// A block that holds the one conditional `if (cond) stmt`.
fn only_if_block(cond: &str, stmt: Stmt) -> (r: Stmt)
    ensures
        r@ == block_of(only_if(cond@, stmt@)),
{
    let r = Stmt::begin().if_(cond, stmt).end();
    assert(r@->Block_0 =~= seq![only_if(cond@, stmt@)]);
    r
}

/// Builds the reset of the handshake.
fn build_protocol_reset(bus: &SignalNames) -> (r: Stmt)
    ensures
        r@ == protocol_reset(bus@),
{
    let r = Stmt::begin().assign(bus.awready.as_str(), "0").assign(
        bus.wready.as_str(),
        "0",
    ).assign(bus.bvalid.as_str(), "0").assign(bus.arready.as_str(), "0").assign(
        bus.rvalid.as_str(),
        "0",
    ).assign(bus.bresp.as_str(), "0").assign(bus.rresp.as_str(), "0").end();
    assert(r@->Block_0 =~= protocol_reset(bus@)->Block_0);
    r
}

/// Adds to `block` the conditional that holds the response valid `valid`.
fn add_held(block: Block, valid: &str, taken: &str, raised: &str) -> (r: Block)
    ensures
        r@ == block@.push(held(valid@, taken@, raised@)),
{
    let opened = block.if_(taken, Stmt::assign(valid, "0"));
    proof {
        let first = only_if(taken@, assignment(valid@, "0"@));
        assert(opened@.last() == first);
        assert(opened@.drop_last() =~= block@);
        assert(first->Cond_0.arms.push((raised@, assignment(valid@, "1"@))) =~= held(
            valid@,
            taken@,
            raised@,
        )->Cond_0.arms);
    }
    opened.elif(raised, Stmt::assign(valid, "1"))
}

/// Builds the handshake of one cycle.
fn build_protocol_body(bus: &SignalNames) -> (r: Stmt)
    ensures
        r@ == protocol_body(bus@),
{
    let awready = and_not(bus.awvalid.as_str(), bus.awready.as_str());
    let wready = and_not(bus.wvalid.as_str(), bus.wready.as_str());
    let arready = and_not(bus.arvalid.as_str(), bus.arready.as_str());
    let b_taken = and(bus.bvalid.as_str(), bus.bready.as_str());
    let b_raised = and(bus.awready.as_str(), bus.wready.as_str());
    let r_taken = and(bus.rvalid.as_str(), bus.rready.as_str());
    let r_raised = and_not(bus.arvalid.as_str(), bus.arready.as_str());
    let block = Stmt::begin().assign(bus.awready.as_str(), awready.as_str()).assign(
        bus.wready.as_str(),
        wready.as_str(),
    ).assign(bus.arready.as_str(), arready.as_str());
    let block = add_held(block, bus.bvalid.as_str(), b_taken.as_str(), b_raised.as_str());
    let block = add_held(block, bus.rvalid.as_str(), r_taken.as_str(), r_raised.as_str());
    let r = block.end();
    assert(r@->Block_0 =~= protocol_body(bus@)->Block_0);
    r
}

impl Module {
    /// Adds a slave for `mem` whose signals are named by `bus`, clocked by
    /// `clk` and reset while `rst` is low.
    pub fn axi_lite(self, clk: &str, rst: &str, bus: &SignalNames, mem: &MemMap) -> (r: Module)
        requires
            mem@.data_bit == 32 || mem@.data_bit == 64,
        ensures
            r@ == with_slave(self@, clk@, rst@, bus@, mem@),
    {
        let data_bit = mem.data_bit();
        let addr_bit = mem.addr_bit();
        let m = self.define_regs(mem);
        let m = m.input(bus.awaddr.as_str(), addr_bit).input(bus.awvalid.as_str(), 1).output(
            bus.awready.as_str(),
            1,
        ).input(bus.wdata.as_str(), data_bit).input(bus.wstrb.as_str(), data_bit / 8).input(
            bus.wvalid.as_str(),
            1,
        ).output(bus.wready.as_str(), 1).output(bus.bresp.as_str(), 2).output(
            bus.bvalid.as_str(),
            1,
        ).input(bus.bready.as_str(), 1).input(bus.araddr.as_str(), addr_bit).input(
            bus.arvalid.as_str(),
            1,
        ).output(bus.arready.as_str(), 1).output(bus.rdata.as_str(), data_bit).output(
            bus.rresp.as_str(),
            2,
        ).output(bus.rvalid.as_str(), 1).input(bus.rready.as_str(), 1);
        assert(m@.ports =~= self@.ports + ports(bus@, mem@));

        let init = build_write_reset(mem);
        let case = build_write_case(bus.awaddr.as_str(), bus.wdata.as_str(), mem);
        let both = and(bus.wvalid.as_str(), bus.awvalid.as_str());
        let m = m.sync_ff(clk, rst, init, only_if_block(both.as_str(), case_block(case)));

        let case = build_read_case(bus.araddr.as_str(), bus.rdata.as_str(), mem);
        let m = m.sync_ff(
            clk,
            rst,
            Stmt::assign(bus.rdata.as_str(), "0"),
            only_if_block(bus.arvalid.as_str(), case_block(case)),
        );

        let m = m.sync_ff(clk, rst, build_protocol_reset(bus), build_protocol_body(bus));
        assert(m@.blocks =~= self@.blocks + storage(mem@.regs) + processes(
            clk@,
            rst@,
            bus@,
            mem@,
        ));
        m
    }
}

/// Model of a handshake slave that waits to be added to a module.
pub struct AXILiteSlaveView {
    pub name: Option<Seq<char>>,
    pub clk: Seq<char>,
    pub rst: Seq<char>,
    pub mem: MemMapView,
}

/// A handshake slave for a memory map, with its clock and reset.
#[derive(Debug)]
pub struct AXILiteSlave {
    name: Option<String>,
    clk: String,
    rst: String,
    mem: MemMap,
}

impl View for AXILiteSlave {
    type V = AXILiteSlaveView;

    closed spec fn view(&self) -> AXILiteSlaveView {
        AXILiteSlaveView {
            name: match self.name {
                Some(n) => Some(n@),
                None => None,
            },
            clk: self.clk@,
            rst: self.rst@,
            mem: self.mem@,
        }
    }
}

impl AXILiteSlave {
    #[verifier::type_invariant]
    spec fn inv(self) -> bool {
        self.mem@.data_bit == 32 || self.mem@.data_bit == 64
    }

    /// A slave for `mem`. Its signals are named `name`, an underscore and
    /// the role; without a name, by the role alone. The data bus is 32 or
    /// 64 bits wide.
    pub fn new(name: Option<&str>, clk: &str, rst: &str, mem: MemMap) -> (r: AXILiteSlave)
        requires
            mem@.data_bit == 32 || mem@.data_bit == 64,
        ensures
            r@ == (AXILiteSlaveView {
                name: match name {
                    Some(n) => Some(n@),
                    None => None,
                },
                clk: clk@,
                rst: rst@,
                mem: mem@,
            }),
    {
        AXILiteSlave {
            name: match name {
                Some(n) => Some(String::from_str(n)),
                None => None,
            },
            clk: String::from_str(clk),
            rst: String::from_str(rst),
            mem,
        }
    }

    /// A slave for `mem`, or the reason why there is none: the data bus
    /// must be 32 or 64 bits wide.
    pub fn try_new(name: Option<&str>, clk: &str, rst: &str, mem: MemMap) -> (r: Result<
        AXILiteSlave,
        BusError,
    >)
        ensures
            match r {
                Ok(bus) => (mem@.data_bit == 32 || mem@.data_bit == 64) && bus@ == (
                    AXILiteSlaveView {
                        name: match name {
                            Some(n) => Some(n@),
                            None => None,
                        },
                        clk: clk@,
                        rst: rst@,
                        mem: mem@,
                    }),
                Err(e) => e == BusError::DataWidth && mem@.data_bit != 32 && mem@.data_bit != 64,
            },
    {
        let bit = mem.data_bit();
        if bit == 32 || bit == 64 {
            Ok(AXILiteSlave::new(name, clk, rst, mem))
        } else {
            Err(BusError::DataWidth)
        }
    }

    /// The names of the signals of this slave.
    pub fn signal_names(&self) -> (r: SignalNames)
        ensures
            r@ == prefixed(prefix_of(self@.name)),
    {
        match &self.name {
            Some(n) => {
                let prefix = concat(n.as_str(), "_");
                SignalNames::prefixed(prefix.as_str())
            },
            None => {
                let prefix = String::new();
                SignalNames::prefixed(prefix.as_str())
            },
        }
    }

    /// Adds the slave to `module`.
    pub fn add(self, module: Module) -> (r: Module)
        ensures
            r@ == with_slave(
                module@,
                self@.clk,
                self@.rst,
                prefixed(prefix_of(self@.name)),
                self@.mem,
            ),
            self@.mem.data_bit == 32 || self@.mem.data_bit == 64,
    {
        proof {
            use_type_invariant(&self);
        }
        let bus = self.signal_names();
        module.axi_lite(self.clk.as_str(), self.rst.as_str(), &bus, &self.mem)
    }
}

impl Clone for AXILiteSlave {
    fn clone(&self) -> (r: AXILiteSlave)
        ensures
            r@ == self@,
    {
        proof {
            use_type_invariant(self);
        }
        AXILiteSlave {
            name: copy_name(&self.name),
            clk: self.clk.clone(),
            rst: self.rst.clone(),
            mem: self.mem.clone(),
        }
    }
}

impl Module {
    /// Adds the slave `bus`.
    pub fn axi_lite_slave(self, bus: AXILiteSlave) -> (r: Module)
        ensures
            r@ == with_slave(
                self@,
                bus@.clk,
                bus@.rst,
                prefixed(prefix_of(bus@.name)),
                bus@.mem,
            ),
    {
        bus.add(self)
    }
}

} // verus!
