use ruverta::bus::axi_lite::{AXILiteSlave, SignalNames};
use ruverta::bus::pico::{PicoMaster, PicoSlave};
use ruverta::bus::{BusError, Kind, Reg, RegList};
use ruverta::module::Module;
use ruverta::stmt::Stmt;

fn scenario() -> RegList {
    RegList::new()
        .read_write("csr_rw", 8, 4)
        .read_only("csr_ro", 8, 1)
        .trigger("csr_tw")
}

#[test]
fn memory_map_of_the_scenario() {
    let mem = scenario().allocate_greedy(32);
    assert_eq!(mem.total_slots(), 6);
    assert_eq!(mem.addr_bit(), 3);
    assert_eq!(mem.data_bit(), 32);
    assert_eq!(mem.len(), 3);
    let expect: [(usize, Option<&str>, Option<&str>); 6] = [
        (8, Some("csr_rw[0]"), Some("csr_rw[0]")),
        (8, Some("csr_rw[1]"), Some("csr_rw[1]")),
        (8, Some("csr_rw[2]"), Some("csr_rw[2]")),
        (8, Some("csr_rw[3]"), Some("csr_rw[3]")),
        (8, Some("csr_ro"), None),
        (1, Some("csr_tw_resp"), Some("csr_tw_trig")),
    ];
    for (i, (bit, read, write)) in expect.iter().enumerate() {
        let slot = mem.slot(i);
        assert_eq!(slot.addr(), i);
        assert_eq!(slot.bit(), *bit);
        assert_eq!(slot.read(), *read);
        assert_eq!(slot.write(), *write);
    }
}

#[test]
fn total_slots_is_the_sum_of_the_lengths() {
    let list = RegList::new()
        .read_write("a", 1, 3)
        .trigger("t")
        .write_only("w", 16, 5)
        .read_only("r", 32, 1)
        .trigger("u");
    let mem = list.allocate_greedy(32);
    let mut sum = 0;
    for i in 0..mem.len() {
        sum += mem.reg(i).len();
    }
    assert_eq!(sum, 11);
    assert_eq!(mem.total_slots(), 11);
    assert_eq!(mem.addr_bit(), 4);
    assert_eq!(mem.reg(1).kind(), Kind::Trigger);
    assert_eq!(mem.reg(1).len(), 1);
    assert_eq!(mem.reg(1).bit(), 1);
    assert_eq!(mem.reg(2).name(), "w");
    for i in 0..mem.total_slots() {
        assert_eq!(mem.slot(i).addr(), i);
    }
}

#[test]
fn address_width_is_floored_at_one() {
    assert_eq!(RegList::new().allocate_greedy(32).addr_bit(), 1);
    assert_eq!(RegList::new().allocate_greedy(32).total_slots(), 0);
    assert_eq!(RegList::new().trigger("t").allocate_greedy(32).addr_bit(), 1);
    assert_eq!(RegList::new().read_write("a", 8, 2).allocate_greedy(32).addr_bit(), 1);
    assert_eq!(RegList::new().read_write("a", 8, 3).allocate_greedy(32).addr_bit(), 2);
    assert_eq!(RegList::new().read_write("a", 8, 4).allocate_greedy(32).addr_bit(), 2);
    assert_eq!(RegList::new().read_write("a", 8, 5).allocate_greedy(32).addr_bit(), 3);
    assert_eq!(RegList::new().read_write("a", 8, 256).allocate_greedy(32).addr_bit(), 8);
    assert_eq!(RegList::new().read_write("a", 8, 257).allocate_greedy(32).addr_bit(), 9);
}

#[test]
fn registers_must_fit_the_data_bus() {
    assert!(scenario().fits(32));
    assert!(scenario().fits(8));
    assert!(!scenario().fits(7));
    assert!(RegList::new().fits(0));
    assert!(!RegList::new().read_write("wide", 33, 1).fits(32));
    assert!(RegList::new().read_write("wide", 33, 1).fits(64));
}

#[test]
fn slots_of_each_kind() {
    let rw = Reg::read_write("a", 4, 2).allocate(7, 1);
    assert_eq!((rw.addr(), rw.bit(), rw.read(), rw.write()), (7, 4, Some("a[1]"), Some("a[1]")));
    let ro = Reg::read_only("b", 4, 1).allocate(0, 0);
    assert_eq!((ro.read(), ro.write()), (Some("b"), None));
    let wo = Reg::write_only("c", 4, 3).allocate(0, 2);
    assert_eq!((wo.read(), wo.write()), (None, Some("c[2]")));
    let tr = Reg::trigger("go").allocate(9, 0);
    assert_eq!(
        (tr.addr(), tr.bit(), tr.read(), tr.write()),
        (9, 1, Some("go_resp"), Some("go_trig"))
    );
}

const SCENARIO_TEXT: &str = "\
module axi_lite_slave
(
  input  logic        clk,
  input  logic        rstn,
  input  logic [ 2:0] cbus_awaddr,
  input  logic        cbus_awvalid,
  output logic        cbus_awready,
  input  logic [31:0] cbus_wdata,
  input  logic [ 3:0] cbus_wstrb,
  input  logic        cbus_wvalid,
  output logic        cbus_wready,
  output logic [ 1:0] cbus_bresp,
  output logic        cbus_bvalid,
  input  logic        cbus_bready,
  input  logic [ 2:0] cbus_araddr,
  input  logic        cbus_arvalid,
  output logic        cbus_arready,
  output logic [31:0] cbus_rdata,
  output logic [ 1:0] cbus_rresp,
  output logic        cbus_rvalid,
  input  logic        cbus_rready
)
;
  logic [ 7:0] csr_rw[ 3:0];
  logic [ 7:0] csr_ro;
  logic        csr_tw_trig;
  logic        csr_tw_resp;
  always_ff @(posedge clk)
    begin
      if (!rstn)
        begin
          csr_rw[0] <= 0;
          csr_rw[1] <= 0;
          csr_rw[2] <= 0;
          csr_rw[3] <= 0;
          csr_tw_trig <= 0;
        end
      else
        begin
          if (cbus_wvalid && cbus_awvalid)
            begin
              case (cbus_awaddr)
                0: 
                csr_rw[0] <= cbus_wdata[7:0];
                1: 
                csr_rw[1] <= cbus_wdata[7:0];
                2: 
                csr_rw[2] <= cbus_wdata[7:0];
                3: 
                csr_rw[3] <= cbus_wdata[7:0];
                5: 
                csr_tw_trig <= cbus_wdata[0:0];
                default: 
                ;
              endcase
            end
        end
    end
  always_ff @(posedge clk)
    begin
      if (!rstn)
        cbus_rdata <= 0;
      else
        begin
          if (cbus_arvalid)
            begin
              case (cbus_araddr)
                0: 
                cbus_rdata[7:0] <= csr_rw[0];
                1: 
                cbus_rdata[7:0] <= csr_rw[1];
                2: 
                cbus_rdata[7:0] <= csr_rw[2];
                3: 
                cbus_rdata[7:0] <= csr_rw[3];
                4: 
                cbus_rdata[7:0] <= csr_ro;
                5: 
                cbus_rdata[0:0] <= csr_tw_resp;
                default: 
                cbus_rdata <= 0;
              endcase
            end
        end
    end
  always_ff @(posedge clk)
    begin
      if (!rstn)
        begin
          cbus_awready <= 0;
          cbus_wready <= 0;
          cbus_bvalid <= 0;
          cbus_arready <= 0;
          cbus_rvalid <= 0;
          cbus_bresp <= 0;
          cbus_rresp <= 0;
        end
      else
        begin
          cbus_awready <= cbus_awvalid && !cbus_awready;
          cbus_wready <= cbus_wvalid && !cbus_wready;
          cbus_arready <= cbus_arvalid && !cbus_arready;
          if (cbus_bvalid && cbus_bready)
            cbus_bvalid <= 0;
          else if (cbus_awready && cbus_wready)
            cbus_bvalid <= 1;
          if (cbus_rvalid && cbus_rready)
            cbus_rvalid <= 0;
          else if (cbus_arvalid && !cbus_arready)
            cbus_rvalid <= 1;
        end
    end
endmodule";

fn scenario_module() -> Module {
    Module::new("axi_lite_slave")
        .input("clk", 1)
        .input("rstn", 1)
        .axi_lite_slave(AXILiteSlave::new(
            Some("cbus"),
            "clk",
            "rstn",
            scenario().allocate_greedy(32),
        ))
}

#[test]
fn handshake_slave_of_the_scenario() {
    let text = scenario_module().verilog().join("\n");
    assert_eq!(text, SCENARIO_TEXT);
}

#[test]
fn write_address_port_of_the_scenario_is_three_bits_wide() {
    let lines = scenario_module().verilog();
    assert!(lines.contains(&"  input  logic [ 2:0] cbus_awaddr,".to_string()));
    assert!(lines.contains(&"  input  logic [ 2:0] cbus_araddr,".to_string()));
}

/// The keys of the arms of the select on `var`, and whether it has a default.
fn arms_of(lines: &[String], var: &str) -> (Vec<String>, usize) {
    let head = format!("case ({})", var);
    let start = lines
        .iter()
        .position(|l| l.trim_start() == head)
        .unwrap_or_else(|| panic!("no select on {}", var));
    let depth = lines[start].len() - lines[start].trim_start().len();
    let mut keys = vec![];
    let mut defaults = 0;
    for l in &lines[start + 1..] {
        if l.trim_start() == "endcase" && l.len() - l.trim_start().len() == depth {
            break;
        }
        if l.ends_with(": ") && l.len() - l.trim_start().len() == depth + 2 {
            let key = l.trim().trim_end_matches(':').to_string();
            if key == "default" {
                defaults += 1;
            } else {
                keys.push(key);
            }
        }
    }
    (keys, defaults)
}

#[test]
fn decodes_of_the_scenario() {
    let lines = scenario_module().verilog();
    let (read_keys, read_defaults) = arms_of(&lines, "cbus_araddr");
    assert_eq!(read_keys, vec!["0", "1", "2", "3", "4", "5"]);
    assert_eq!(read_defaults, 1);
    let (write_keys, write_defaults) = arms_of(&lines, "cbus_awaddr");
    assert_eq!(write_keys, vec!["0", "1", "2", "3", "5"]);
    assert_eq!(write_defaults, 1);
}

#[test]
fn decode_arms_have_distinct_addresses() {
    let mem = RegList::new()
        .read_only("a", 8, 3)
        .write_only("b", 8, 2)
        .trigger("c")
        .read_write("d", 8, 7)
        .allocate_greedy(32);
    let m = Module::new("m").axi_lite_slave(AXILiteSlave::new(None, "clk", "rstn", mem));
    let lines = m.verilog();
    let (read_keys, read_defaults) = arms_of(&lines, "araddr");
    let (write_keys, write_defaults) = arms_of(&lines, "awaddr");
    assert_eq!(read_keys, vec!["0", "1", "2", "5", "6", "7", "8", "9", "10", "11", "12"]);
    assert_eq!(write_keys, vec!["3", "4", "5", "6", "7", "8", "9", "10", "11", "12"]);
    assert_eq!((read_defaults, write_defaults), (1, 1));
    for keys in [&read_keys, &write_keys] {
        let mut sorted = keys.clone();
        sorted.sort();
        sorted.dedup();
        assert_eq!(sorted.len(), keys.len());
    }
}

#[test]
fn read_only_has_no_write_arm_and_write_only_no_read_arm() {
    let mem = RegList::new()
        .read_only("ro", 8, 1)
        .write_only("wo", 8, 1)
        .allocate_greedy(32);
    let m = Module::new("m").axi_lite_slave(AXILiteSlave::new(Some("b"), "clk", "rstn", mem));
    let lines = m.verilog();
    assert_eq!(arms_of(&lines, "b_awaddr").0, vec!["1"]);
    assert_eq!(arms_of(&lines, "b_araddr").0, vec!["0"]);
    let text = lines.join("\n");
    assert!(!text.contains("ro <="));
    assert!(!text.contains("<= wo;"));
    assert!(text.contains("wo <= b_wdata[7:0];"));
    assert!(text.contains("b_rdata[7:0] <= ro;"));
}

#[test]
fn trigger_is_written_by_strobe_and_read_by_response() {
    let mem = RegList::new().trigger("go").allocate_greedy(64);
    let m = Module::new("m").axi_lite_slave(AXILiteSlave::new(Some("b"), "clk", "rstn", mem));
    let text = m.verilog().join("\n");
    assert!(text.contains("                0: \n                go_trig <= b_wdata[0:0];"));
    assert!(text.contains("                0: \n                b_rdata[0:0] <= go_resp;"));
    assert!(text.contains("          go_trig <= 0;"));
    assert!(!text.contains(" go <="));
    assert!(!text.contains("<= go;"));
    assert!(text.contains("  logic        go_trig;\n  logic        go_resp;"));
    assert!(!text.contains("logic        go;"));
}

#[test]
fn slave_without_a_name_uses_the_roles() {
    let mem = RegList::new().read_write("r", 8, 1).allocate_greedy(32);
    let bus = AXILiteSlave::new(None, "clk", "rstn", mem);
    let names = bus.signal_names();
    assert_eq!(names.awaddr, "awaddr");
    assert_eq!(names.rready, "rready");
    let lines = Module::new("m").axi_lite_slave(bus).verilog();
    assert_eq!(lines[2], "  input  logic        awaddr,");
    assert_eq!(lines[18], "  input  logic        rready");
}

#[test]
fn signal_names_of_a_named_slave() {
    let mem = RegList::new().allocate_greedy(32);
    let n = AXILiteSlave::new(Some("cbus"), "clk", "rstn", mem).signal_names();
    let all = [
        (n.awaddr, "cbus_awaddr"),
        (n.awvalid, "cbus_awvalid"),
        (n.awready, "cbus_awready"),
        (n.wdata, "cbus_wdata"),
        (n.wstrb, "cbus_wstrb"),
        (n.wvalid, "cbus_wvalid"),
        (n.wready, "cbus_wready"),
        (n.bresp, "cbus_bresp"),
        (n.bvalid, "cbus_bvalid"),
        (n.bready, "cbus_bready"),
        (n.araddr, "cbus_araddr"),
        (n.arvalid, "cbus_arvalid"),
        (n.arready, "cbus_arready"),
        (n.rdata, "cbus_rdata"),
        (n.rresp, "cbus_rresp"),
        (n.rvalid, "cbus_rvalid"),
        (n.rready, "cbus_rready"),
    ];
    for (got, want) in all {
        assert_eq!(got, want);
    }
}

#[test]
fn slave_with_a_table_of_its_own() {
    let mut names = SignalNames::prefixed("s_axi_");
    names.awaddr = "WADDR".to_string();
    names.wdata = "WDATA".to_string();
    let mem = RegList::new().read_write("r", 16, 1).allocate_greedy(32);
    let text = Module::new("m").axi_lite("aclk", "aresetn", &names, &mem).verilog().join("\n");
    assert!(text.contains("  input  logic        WADDR,"));
    assert!(text.contains("  input  logic [31:0] WDATA,"));
    assert!(text.contains("              case (WADDR)\n                0: \n                r <= WDATA[15:0];"));
    assert!(text.contains("  always_ff @(posedge aclk)\n    begin\n      if (!aresetn)"));
    assert!(text.contains("          if (s_axi_wvalid && s_axi_awvalid)"));
}

#[test]
fn handshake_slave_takes_32_and_64_bits_only() {
    for bit in [32, 64] {
        let mem = RegList::new().allocate_greedy(bit);
        assert!(AXILiteSlave::try_new(Some("b"), "clk", "rstn", mem).is_ok());
    }
    for bit in [0, 1, 8, 16, 31, 33, 63, 65, 128] {
        let mem = RegList::new().allocate_greedy(bit);
        let r = AXILiteSlave::try_new(Some("b"), "clk", "rstn", mem);
        assert_eq!(r.err(), Some(BusError::DataWidth));
    }
}

#[test]
fn single_cycle_slave_with_64_bits_fails() {
    let mem = scenario().allocate_greedy(64);
    let r = PicoSlave::try_new(Some("mem"), "clk", "rstn", mem);
    assert_eq!(r.err(), Some(BusError::DataWidth));
}

#[test]
fn single_cycle_slave_takes_32_bits() {
    let mem = scenario().allocate_greedy(32);
    assert!(PicoSlave::try_new(Some("mem"), "clk", "rstn", mem).is_ok());
    let mem = scenario().allocate_greedy(16);
    assert_eq!(
        PicoSlave::try_new(None, "clk", "rstn", mem).err(),
        Some(BusError::DataWidth)
    );
}

const PICO_TEXT: &str = "\
module pico_slave
(
  input  logic        clk,
  input  logic        rstn,
  input  logic        mem_valid,
  input  logic        mem_ready,
  input  logic [ 3:0] mem_wstrb,
  input  logic [ 2:0] mem_addr,
  input  logic [31:0] mem_wdata,
  output logic [31:0] mem_rdata
)
;
  logic [ 7:0] csr_rw[ 3:0];
  logic [ 7:0] csr_ro;
  logic        csr_tw_trig;
  logic        csr_tw_resp;
  always_ff @(posedge clk)
    begin
      if (!rstn)
        begin
          csr_rw[0] <= 0;
          csr_rw[1] <= 0;
          csr_rw[2] <= 0;
          csr_rw[3] <= 0;
          csr_tw_trig <= 0;
        end
      else
        begin
          if (mem_valid && mem_ready)
            begin
              case (mem_addr)
                0: 
                csr_rw[0] <= mem_wdata[7:0];
                1: 
                csr_rw[1] <= mem_wdata[7:0];
                2: 
                csr_rw[2] <= mem_wdata[7:0];
                3: 
                csr_rw[3] <= mem_wdata[7:0];
                5: 
                csr_tw_trig <= mem_wdata[0:0];
                default: 
                ;
              endcase
            end
        end
    end
  always_comb
    begin
      case (mem_addr)
        0: 
        mem_rdata[7:0] = csr_rw[0];
        1: 
        mem_rdata[7:0] = csr_rw[1];
        2: 
        mem_rdata[7:0] = csr_rw[2];
        3: 
        mem_rdata[7:0] = csr_rw[3];
        4: 
        mem_rdata[7:0] = csr_ro;
        5: 
        mem_rdata[0:0] = csr_tw_resp;
        default: 
        mem_rdata = 0;
      endcase
    end
endmodule";

#[test]
fn single_cycle_slave_of_the_scenario() {
    let m = Module::new("pico_slave")
        .input("clk", 1)
        .input("rstn", 1)
        .pico_slave(Some("mem"), "clk", "rstn", scenario().allocate_greedy(32));
    assert_eq!(m.verilog().join("\n"), PICO_TEXT);
    let same = PicoSlave::new(Some("mem"), "clk", "rstn", scenario().allocate_greedy(32))
        .add(Module::new("pico_slave").input("clk", 1).input("rstn", 1));
    assert_eq!(same.verilog().join("\n"), PICO_TEXT);
}

#[test]
fn single_cycle_master_mirrors_the_ports() {
    let bus = PicoMaster::new(Some("mem"), scenario().allocate_greedy(32));
    assert_eq!(bus.signal_names().valid, "mem_valid");
    let m = Module::new("pico_master").pico_master(bus);
    let expected = "\
module pico_master
(
  output logic        mem_valid,
  output logic        mem_ready,
  output logic [ 3:0] mem_wstrb,
  output logic [ 2:0] mem_addr,
  output logic [31:0] mem_wdata,
  input  logic [31:0] mem_rdata
)
;
  logic [ 7:0] csr_rw[ 3:0];
  logic [ 7:0] csr_ro;
  logic        csr_tw_trig;
  logic        csr_tw_resp;
endmodule";
    assert_eq!(m.verilog().join("\n"), expected);
}

#[test]
fn test_test_uart() {
    let uart = Module::new("uart")
        .inout("clk", 1)
        .input("rstn", 1)
        .output("tx", 1)
        .input("rx", 1)
        .axi_lite_slave(AXILiteSlave::new(
            Some("csr"),
            "clk",
            "rstn",
            RegList::new()
                .read_write("div", 32, 1)
                .read_write("tx_data", 8, 1)
                .read_only("rx_data", 8, 1)
                .allocate_greedy(32),
        ))
        .async_ff(
            "clk",
            "rstn",
            Stmt::begin()
                .add(Stmt::assign("buf", "0"))
                .add(Stmt::assign("cnt", "0"))
                .end(),
            Stmt::begin().add(Stmt::assign("buf", "a")).end(),
        );
    let lines = uart.verilog();
    assert_eq!(lines[0], "module uart");
    assert_eq!(lines[2], "  inout  logic        clk,");
    assert_eq!(lines[6], "  input  logic [ 1:0] csr_awaddr,");
    assert_eq!(arms_of(&lines, "csr_awaddr"), (vec!["0".to_string(), "1".to_string()], 1));
    assert_eq!(
        arms_of(&lines, "csr_araddr"),
        (vec!["0".to_string(), "1".to_string(), "2".to_string()], 1)
    );
    assert_eq!(lines.last().map(|s| s.as_str()), Some("endmodule"));
    assert_eq!(
        lines[lines.len() - 13],
        "  always_ff @(posedge clk or negedge rstn)"
    );
    println!("{}", lines.join("\n"));
}

#[test]
fn building_and_rendering_twice_is_identical() {
    assert_eq!(scenario_module().verilog(), scenario_module().verilog());
    assert_eq!(
        scenario_module().verilog_sorted(),
        scenario_module().verilog_sorted()
    );
    let m = scenario_module();
    assert_eq!(m.verilog().join("\n").into_bytes(), m.verilog().join("\n").into_bytes());
}
