use ruverta::module::{AlwaysComb, AlwaysFF, Direct, Instant, LocalParam, Logic, Module, Param, Port, Sens};
use ruverta::stmt::{Case, Stmt};

#[test]
fn test_instant() {
    let obj = Instant::new("i_hoge", "hoge")
        .port("clk", "clk")
        .port("rstn", "rstn")
        .param("a", "hoge");
    let expected = "\
hoge #(
  .a(hoge)
) i_hoge (
  .clk(clk),
  .rstn(rstn)
);";
    assert_eq!(obj.verilog().join("\n"), expected);
    println!("{}", obj.verilog().join("\n"));
}

#[test]
fn test_module() {
    let name = "test_fsm";
    let m = Module::new(name)
        .param("BIT", Some("8"))
        .input("clk", 1)
        .input("rstn", 1)
        .input("in0", 8)
        .input("in1", 8)
        .output("out", 8)
        .always_comb(Stmt::assign("out", "in0 + in1"))
        .always_ff(
            Sens::new().posedge("clk"),
            Stmt::begin().assign("a", "b").end(),
        );
    let s = m.verilog().join("\n");
    let expected = "\
module test_fsm
#(
  parameter BIT = 8
)
(
  input  logic        clk,
  input  logic        rstn,
  input  logic [ 7:0] in0,
  input  logic [ 7:0] in1,
  output logic [ 7:0] out
)
;
  always_comb
    out = in0 + in1;
  always_ff @(posedge clk)
    begin
      a <= b;
    end
endmodule";
    assert_eq!(s, expected);
}

#[test]
fn empty_module_has_no_lists() {
    let m = Module::new("empty");
    assert_eq!(m.verilog().join("\n"), "module empty\n;\nendmodule");
    assert_eq!(m.verilog_sorted().join("\n"), "module empty\n;\nendmodule");
    assert_eq!(m.module_header(), vec!["module empty".to_string(), ";".to_string()]);
    assert_eq!(m.module_footer(), vec!["endmodule".to_string()]);
}

#[test]
fn parameters_with_and_without_default() {
    let m = Module::new("p").param("A", Some("1")).param("B", None).param("C", Some("A + 1"));
    let expected = "\
module p
#(
  parameter A = 1,
  parameter B,
  parameter C = A + 1
)
;
endmodule";
    assert_eq!(m.verilog().join("\n"), expected);
    assert_eq!(Param::new("W", None).verilog(), "parameter W");
    assert_eq!(Param::new("W", Some("8")).verilog(), "parameter W = 8");
}

#[test]
fn port_directions_and_ranges() {
    assert_eq!(Port::input("a", 1, 1).verilog(), "input  logic        a");
    assert_eq!(Port::output("b", 8, 1).verilog(), "output logic [ 7:0] b");
    assert_eq!(Port::inout("c", 32, 1).verilog(), "inout  logic [31:0] c");
    assert_eq!(Port::input("d", 2, 4).verilog(), "input  logic [ 1:0] d[ 3:0]");
    assert_eq!(Port::output("e", 1, 16).verilog(), "output logic        e[15:0]");
    assert_eq!(Port::output("f", 128, 1).verilog(), "output logic [127:0] f");
    assert_eq!(Direct::In.verilog(), "input");
    assert_eq!(Direct::Out.verilog(), "output");
    assert_eq!(Direct::InOut.verilog(), "inout");
}

#[test]
fn storage_and_local_parameters() {
    assert_eq!(Logic::new("cnt", 24, 1).verilog(), vec!["logic [23:0] cnt;".to_string()]);
    assert_eq!(Logic::new("flag", 1, 1).verilog(), vec!["logic        flag;".to_string()]);
    assert_eq!(Logic::new("mem", 8, 32).verilog(), vec!["logic [ 7:0] mem[31:0];".to_string()]);
    assert_eq!(
        LocalParam::new("IDLE", "0").verilog(),
        vec!["localparam IDLE = 0;".to_string()]
    );
}

#[test]
fn sensitivity_lists() {
    assert_eq!(Sens::new().verilog(), "");
    assert_eq!(Sens::new().posedge("clk").verilog(), "posedge clk");
    assert_eq!(
        Sens::new().posedge("clk").negedge("rstn").verilog(),
        "posedge clk or negedge rstn"
    );
    assert_eq!(
        Sens::new().bothedge("a").posedge("b").negedge("c").verilog(),
        "a or posedge b or negedge c"
    );
}

#[test]
fn processes_pick_the_assignment_operator() {
    let ff = AlwaysFF::new(Sens::new().posedge("clk"), Stmt::assign("q", "d"));
    assert_eq!(ff.verilog().join("\n"), "always_ff @(posedge clk)\n  q <= d;");
    let comb = AlwaysComb::new(Stmt::assign("y", "a & b"));
    assert_eq!(comb.verilog().join("\n"), "always_comb\n  y = a & b;");
}

#[test]
fn instance_without_connections() {
    let i = Instant::new("u0", "leaf");
    assert_eq!(i.verilog().join("\n"), "leaf #(\n) u0 (\n);");
}

fn mixed() -> Module {
    Module::new("basic")
        .param("BIT", Some("8"))
        .input("clk", 1)
        .input("rstn", 1)
        .input("in0", 8)
        .input("in1", 8)
        .output("out", 8)
        .always_comb(Stmt::assign("tmp", "in0 + in1"))
        .logic("tmp", 8, 1)
        .instant(Instant::new("u0", "leaf").port("a", "tmp"))
        .lparam("param", "0")
        .always_ff(Sens::new().posedge("clk"), Stmt::assign("out", "tmp"))
        .logic("late", 1, 2)
        .lparam("other", "1")
        .always_comb(
            Stmt::begin()
                .case(
                    Case::new("hoge")
                        .case("0", Stmt::empty())
                        .case("1", Stmt::empty()),
                )
                .end(),
        )
}

#[test]
fn body_in_order_of_construction() {
    let expected = "\
module basic
#(
  parameter BIT = 8
)
(
  input  logic        clk,
  input  logic        rstn,
  input  logic [ 7:0] in0,
  input  logic [ 7:0] in1,
  output logic [ 7:0] out
)
;
  always_comb
    tmp = in0 + in1;
  logic [ 7:0] tmp;
  leaf #(
  ) u0 (
    .a(tmp)
  );
  localparam param = 0;
  always_ff @(posedge clk)
    out <= tmp;
  logic        late[ 1:0];
  localparam other = 1;
  always_comb
    begin
      case (hoge)
        0: 
        ;
        1: 
        ;
      endcase
    end
endmodule";
    assert_eq!(mixed().verilog().join("\n"), expected);
}

#[test]
fn body_grouped_declarations_first() {
    let expected = "\
module basic
#(
  parameter BIT = 8
)
(
  input  logic        clk,
  input  logic        rstn,
  input  logic [ 7:0] in0,
  input  logic [ 7:0] in1,
  output logic [ 7:0] out
)
;
  localparam param = 0;
  localparam other = 1;
  logic [ 7:0] tmp;
  logic        late[ 1:0];
  always_comb
    tmp = in0 + in1;
  leaf #(
  ) u0 (
    .a(tmp)
  );
  always_ff @(posedge clk)
    out <= tmp;
  always_comb
    begin
      case (hoge)
        0: 
        ;
        1: 
        ;
      endcase
    end
endmodule";
    assert_eq!(mixed().verilog_sorted().join("\n"), expected);
}

#[test]
fn grouped_body_holds_the_same_lines() {
    let mut a = mixed().verilog();
    let mut b = mixed().verilog_sorted();
    a.sort();
    b.sort();
    assert_eq!(a, b);
}

#[test]
fn rendering_a_module_twice_is_identical() {
    let m = mixed();
    assert_eq!(m.verilog(), m.verilog());
    assert_eq!(m.verilog(), mixed().verilog());
    assert_eq!(m.verilog_sorted(), mixed().verilog_sorted());
}

#[test]
fn flip_flops_with_reset() {
    let m = Module::new("ff")
        .sync_ff("clk", "rstn", Stmt::assign("q", "0"), Stmt::assign("q", "d"))
        .async_ff("clk", "rstn", Stmt::assign("r", "0"), Stmt::assign("r", "d"));
    let expected = "\
module ff
;
  always_ff @(posedge clk)
    begin
      if (!rstn)
        q <= 0;
      else
        q <= d;
    end
  always_ff @(posedge clk or negedge rstn)
    begin
      if (!rstn)
        r <= 0;
      else
        r <= d;
    end
endmodule";
    assert_eq!(m.verilog().join("\n"), expected);
}

#[test]
fn grouping_a_body_in_group_order_changes_nothing() {
    let m = Module::new("ordered")
        .lparam("A", "0")
        .lparam("B", "1")
        .logic("x", 8, 1)
        .logic("y", 1, 4)
        .always_comb(Stmt::assign("x", "A"))
        .instant(Instant::new("u0", "leaf"))
        .always_ff(Sens::new().posedge("clk"), Stmt::assign("y[0]", "B"));
    assert_eq!(m.verilog(), m.verilog_sorted());
}
