use ruverta::module::Module;
use ruverta::regmap::RegMap;
use ruverta::stmt::Stmt;

const CSR_PORTS: &str = "\
(
  input  logic [ 1:0] cbus_awaddr,
  input  logic        cbus_awvalid,
  output logic        cbus_awready,
  input  logic [31:0] cbus_wdata,
  input  logic [ 3:0] cbus_wstrb,
  input  logic        cbus_wvalid,
  output logic        cbus_wready,
  output logic [ 1:0] cbus_bresp,
  output logic        cbus_bvalid,
  input  logic        cbus_bready,
  input  logic [ 1:0] cbus_araddr,
  input  logic        cbus_arvalid,
  output logic        cbus_arready,
  output logic [31:0] cbus_rdata,
  output logic [ 1:0] cbus_rresp,
  output logic        cbus_rvalid,
  input  logic        cbus_rready
)
;";

const CSR_PROTOCOL: &str = "  always_ff @(posedge clk)
    begin
      if (!rstn)
        begin
          cbus_awready <= 0;
          cbus_wready <= 0;
          cbus_bvalid <= 0;
          cbus_arready <= 0;
          cbus_rvalid <= 0;
          cbus_bresp <= 0;
          cbus_rresp <= 0;
        end
      else
        begin
          cbus_awready <= cbus_awvalid && !cbus_awready;
          cbus_wready <= cbus_wvalid && !cbus_wready;
          cbus_arready <= cbus_arvalid && !cbus_arready;
          if (cbus_bvalid && cbus_bready)
            cbus_bvalid <= 0;
          else if (cbus_awready && cbus_wready)
            cbus_bvalid <= 1;
          if (cbus_rvalid && cbus_rready)
            cbus_rvalid <= 0;
          else if (cbus_arvalid && !cbus_arready)
            cbus_rvalid <= 1;
        end
    end";

#[test]
fn test_csr() {
    let regmap = RegMap::new("cbus", 32)
        .read_only("ctrl", 8, 2)
        .read_only("buf", 8, 1)
        .trigger("start");
    let module = Module::new("test_csr").regmap("clk", "rstn", regmap);
    let body = "  logic [ 7:0] ctrl[ 1:0];
  logic [ 7:0] buf;
  logic        start_trig;
  logic        start_resp;
  always_ff @(posedge clk)
    begin
      if (!rstn)
        begin
          start_trig <= 0;
        end
      else
        begin
          if (cbus_wvalid && cbus_awvalid)
            begin
              case (cbus_awaddr)
                3: 
                start_trig <= cbus_wdata[0:0];
                default: 
                ;
              endcase
            end
        end
    end
  always_ff @(posedge clk)
    begin
      if (!rstn)
        cbus_rdata <= 0;
      else
        begin
          if (cbus_arvalid)
            begin
              case (cbus_araddr)
                0: 
                cbus_rdata[7:0] <= ctrl[0];
                1: 
                cbus_rdata[7:0] <= ctrl[1];
                2: 
                cbus_rdata[7:0] <= buf;
                3: 
                cbus_rdata[0:0] <= start_resp;
                default: 
                cbus_rdata <= 0;
              endcase
            end
        end
    end";
    let expected = format!(
        "module test_csr\n{}\n{}\n{}\nendmodule",
        CSR_PORTS, body, CSR_PROTOCOL
    );
    assert_eq!(module.verilog().join("\n"), expected);
    println!("{}", module.verilog().join("\n"))
}

#[test]
fn lib_test_uart() {
    let uart = Module::new("uart")
        .inout("clk", 1)
        .input("rstn", 1)
        .output("tx", 1)
        .input("rx", 1)
        .regmap(
            "clk",
            "rstn",
            RegMap::new("csr", 32)
                .read_write("div", 32, 1)
                .read_write("tx_data", 8, 1)
                .read_only("rx_data", 8, 1),
        )
        .async_ff(
            "clk",
            "rstn",
            Stmt::begin()
                .add(Stmt::assign("buf", "0"))
                .add(Stmt::assign("cnt", "0"))
                .end(),
            Stmt::begin().add(Stmt::assign("buf", "a")).end(),
        );
    let lines = uart.verilog();
    assert_eq!(lines[0], "module uart");
    assert_eq!(lines[1], "(");
    assert_eq!(lines[2], "  inout  logic        clk,");
    assert_eq!(lines[3], "  input  logic        rstn,");
    assert_eq!(lines[4], "  output logic        tx,");
    assert_eq!(lines[5], "  input  logic        rx,");
    assert_eq!(lines[6], "  input  logic [ 1:0] csr_awaddr,");
    assert_eq!(lines[22], "  input  logic        csr_rready");
    assert_eq!(lines[23], ")");
    assert_eq!(lines[24], ";");
    assert_eq!(lines[25], "  logic [31:0] div;");
    assert_eq!(lines[26], "  logic [ 7:0] tx_data;");
    assert_eq!(lines[27], "  logic [ 7:0] rx_data;");
    let tail: Vec<&str> = lines[lines.len() - 16..].iter().map(|s| s.as_str()).collect();
    let expected_tail = "  always_ff @(posedge clk or negedge rstn)
    begin
      if (!rstn)
        begin
          buf <= 0;
          cnt <= 0;
        end
      else
        begin
          buf <= a;
        end
    end
endmodule";
    assert_eq!(tail[3..].join("\n"), expected_tail);
    let text = lines.join("\n");
    assert!(text.contains("                0: \n                div <= csr_wdata[31:0];"));
    assert!(text.contains("                1: \n                tx_data <= csr_wdata[7:0];"));
    assert!(!text.contains("rx_data <= csr_wdata"));
    assert!(text.contains("                2: \n                csr_rdata[7:0] <= rx_data;"));
    println!("{}", text);
}

#[test]
fn test_regmap() {
    let m = Module::new("regmap").input("clk", 1).input("rstn", 1).regmap(
        "clk",
        "rstn",
        RegMap::new("cbus", 32)
            .read_write("csr_rw", 8, 2)
            .read_only("csr_ro", 8, 1)
            .trigger("csr_tw"),
    );
    let s = m.verilog().join("\n");
    assert!(s.starts_with(
        "module regmap\n(\n  input  logic        clk,\n  input  logic        rstn,\n  input  logic [ 1:0] cbus_awaddr,\n"
    ));
    assert!(s.contains("\n  logic [ 7:0] csr_rw[ 1:0];\n  logic [ 7:0] csr_ro;\n  logic        csr_tw_trig;\n  logic        csr_tw_resp;\n"));
    assert!(s.ends_with(&format!("{}\nendmodule", CSR_PROTOCOL)));
}

#[test]
fn regmap_keeps_name_and_width() {
    let r = RegMap::new("cbus", 64).write_only("cmd", 64, 1);
    assert_eq!(r.name(), "cbus");
    assert_eq!(r.bit(), 64);
    let m = Module::new("w").regmap("clk", "rstn", r);
    let s = m.verilog().join("\n");
    assert!(s.contains("  input  logic [63:0] cbus_wdata,\n  input  logic [ 7:0] cbus_wstrb,"));
    assert!(s.contains("  input  logic        cbus_awaddr,"));
    assert!(s.contains("                0: \n                cmd <= cbus_wdata[63:0];"));
    assert!(s.contains("              case (cbus_araddr)\n                default: \n                cbus_rdata <= 0;\n              endcase"));
}

#[test]
fn empty_regmap_still_has_an_address_bit() {
    let m = Module::new("e").regmap("clk", "rstn", RegMap::new("b", 32));
    let s = m.verilog().join("\n");
    assert!(s.contains("  input  logic        b_awaddr,"));
    assert!(s.contains("  input  logic        b_araddr,"));
    assert!(s.contains("      if (!rstn)\n        begin\n        end\n      else"));
    assert!(s.contains(
        "              case (b_awaddr)\n                default: \n                ;\n              endcase"
    ));
}
