use ruverta::comb::Comb;
use ruverta::fifo::FIFO;
use ruverta::fsm::FSM;
use ruverta::module::Module;
use ruverta::stream::Stream;

#[test]
fn multiplexer_with_one_case() {
    let m = Module::new("comb")
        .input("clk", 1)
        .input("rstn", 1)
        .input("in0", 1)
        .input("in1", 1)
        .output("out0", 1)
        .output("out1", 1)
        .comb(
            Comb::new()
                .input("in0")
                .input("in1")
                .output("out0")
                .output("out1")
                .case("in0==0", vec!["0", "1"])
                .default(vec!["in0", "in1"]),
        );
    let expected = "\
module comb
(
  input  logic        clk,
  input  logic        rstn,
  input  logic        in0,
  input  logic        in1,
  output logic        out0,
  output logic        out1
)
;
  always_comb
    begin
      if (in0==0)
        begin
          out0 = 0;
          out1 = 1;
        end
      else
        begin
          out0 = in0;
          out1 = in1;
        end
    end
endmodule";
    assert_eq!(m.verilog().join("\n"), expected);
}

#[test]
fn multiplexer_default_belongs_to_the_last_case() {
    let m = Module::new("c").comb(
        Comb::new()
            .output("y")
            .case("a", vec!["1"])
            .case("b", vec!["2"])
            .default(vec!["0"]),
    );
    let expected = "\
module c
;
  always_comb
    begin
      if (a)
        begin
          y = 1;
        end
      if (b)
        begin
          y = 2;
        end
      else
        begin
          y = 0;
        end
    end
endmodule";
    assert_eq!(m.verilog().join("\n"), expected);
}

#[test]
fn multiplexer_without_cases() {
    let m = Module::new("c").comb(Comb::new().output("y").default(vec!["0"]));
    assert_eq!(
        m.verilog().join("\n"),
        "module c\n;\n  always_comb\n    begin\n      else\n        begin\n          y = 0;\n        end\n    end\nendmodule"
    );
}

#[test]
fn state_machine_with_two_states() {
    const INIT: &str = "INIT";
    const RUNNING: &str = "RUNNING";
    let fsm = FSM::new("state", "clk", "rstn")
        .state(INIT)
        .jump("in0 == 1", RUNNING)
        .else_(INIT)
        .state(RUNNING)
        .jump("in1 == 1", INIT)
        .else_(RUNNING);
    assert_eq!(fsm.len(), 2);
    let m = Module::new("fsm")
        .input("clk", 1)
        .input("rstn", 1)
        .input("in0", 1)
        .input("in1", 1)
        .sync_fsm(fsm);
    let expected = "\
module fsm
(
  input  logic        clk,
  input  logic        rstn,
  input  logic        in0,
  input  logic        in1
)
;
  logic        state;
  localparam INIT = 0;
  localparam RUNNING = 1;
  always_ff @(posedge clk)
    begin
      if (!rstn)
        state <= 0;
      else
        begin
          case (state)
            INIT: 
            begin
              if (in0 == 1)
                state <= RUNNING;
              else
                state <= INIT;
            end
            RUNNING: 
            begin
              if (in1 == 1)
                state <= INIT;
              else
                state <= RUNNING;
            end
          endcase
        end
    end
endmodule";
    assert_eq!(m.verilog().join("\n"), expected);
}

#[test]
fn state_that_ends_keeps_itself() {
    let fsm = FSM::new("s", "clk", "rstn")
        .state("A")
        .jump("go", "B")
        .jump("stop", "C")
        .end()
        .state("B")
        .end()
        .state("C")
        .else_("A");
    let text = Module::new("m").sync_fsm(fsm).verilog().join("\n");
    assert!(text.contains("  logic [ 1:0] s;\n  localparam A = 0;\n  localparam B = 1;\n  localparam C = 2;\n"));
    assert!(text.contains(
        "            A: \n            begin\n              if (go)\n                s <= B;\n              if (stop)\n                s <= C;\n              else\n                s <= A;\n            end\n"
    ));
    assert!(text.contains("            B: \n            begin\n              else\n                s <= B;\n            end\n"));
    assert!(text.contains("            C: \n            begin\n              else\n                s <= A;\n            end\n"));
}

#[test]
fn state_machine_without_states() {
    let text = Module::new("m")
        .sync_fsm(FSM::new("s", "clk", "rstn"))
        .verilog()
        .join("\n");
    let expected = "\
module m
;
  logic [ 7:0] s;
  always_ff @(posedge clk)
    begin
      if (!rstn)
        s <= 0;
      else
        begin
        end
    end
endmodule";
    assert_eq!(text, expected);
}

#[test]
fn fifo_storage() {
    let fifo = FIFO::new("rx", 8, 32);
    assert_eq!(fifo.name(), "rx");
    let m = Module::new("fifo").fifo(fifo);
    let expected = "\
module fifo
;
  logic [ 7:0] rx_buf[31:0];
  logic [ 4:0] rx_rptr;
  logic [ 4:0] rx_wptr;
endmodule";
    assert_eq!(m.verilog().join("\n"), expected);
}

#[test]
fn fifo_with_one_entry() {
    let m = Module::new("fifo").fifo(FIFO::new("rx", 8, 1));
    let expected = "\
module fifo
;
  logic [ 7:0] rx_buf;
  logic        rx_rptr;
  logic        rx_wptr;
endmodule";
    assert_eq!(m.verilog().join("\n"), expected);
}

#[test]
fn state_machine_with_one_state() {
    let fsm = FSM::new("s", "clk", "rstn").state("ONLY").end();
    let text = Module::new("m").sync_fsm(fsm).verilog().join("\n");
    let expected = "\
module m
;
  logic        s;
  localparam ONLY = 0;
  always_ff @(posedge clk)
    begin
      if (!rstn)
        s <= 0;
      else
        begin
          case (s)
            ONLY: 
            begin
              else
                s <= ONLY;
            end
          endcase
        end
    end
endmodule";
    assert_eq!(text, expected);
}

#[test]
fn fifo_pointer_widths() {
    let text = |len: usize| Module::new("f").fifo(FIFO::new("q", 1, len)).verilog().join("\n");
    assert!(text(2).contains("  logic        q_buf[ 1:0];\n  logic        q_rptr;\n  logic        q_wptr;"));
    assert!(text(3).contains("  logic [ 1:0] q_rptr;"));
    assert!(text(4).contains("  logic [ 1:0] q_wptr;"));
    assert!(text(5).contains("  logic [ 2:0] q_rptr;"));
    assert!(text(1024).contains("  logic        q_buf[1023:0];\n  logic [ 9:0] q_rptr;"));
}

#[test]
fn stream_ends() {
    let s = Stream::new("s", 8);
    assert_eq!(s.data(), "s_data");
    assert_eq!(s.valid(), "s_valid");
    assert_eq!(s.ready(), "s_ready");
    let slave = Module::new("rx").stream_slave(Stream::new("s", 8));
    let expected = "\
module rx
(
  input  logic [ 7:0] s_data,
  input  logic        s_valid,
  output logic        s_ready
)
;
endmodule";
    assert_eq!(slave.verilog().join("\n"), expected);
    let master = Module::new("tx").stream_master(Stream::new("s", 8));
    let expected = "\
module tx
(
  output logic [ 7:0] s_data,
  output logic        s_valid,
  input  logic        s_ready
)
;
endmodule";
    assert_eq!(master.verilog().join("\n"), expected);
}

#[test]
fn stream_wires() {
    let m = Module::new("w").stream_wire(Stream::new("s", 8));
    let expected = "\
module w
;
  logic [ 7:0] s_data;
  logic [ 7:0] s_valid;
  logic [ 7:0] s_ready;
endmodule";
    assert_eq!(m.verilog().join("\n"), expected);
}

#[test]
fn multiplexer_keeps_what_it_was_given() {
    let c = Comb::new()
        .input("a")
        .input("b")
        .output("y")
        .output("z")
        .case("a", vec!["1", "2"])
        .case("b", vec!["3", "4"])
        .default(vec!["5", "6"]);
    assert_eq!(c.inputs(), &vec!["a".to_string(), "b".to_string()]);
    assert_eq!(c.outputs(), &vec!["y".to_string(), "z".to_string()]);
    assert_eq!(c.len(), 2);
    assert_eq!(c.case(0), ("a", &vec!["1".to_string(), "2".to_string()]));
    assert_eq!(c.case(1), ("b", &vec!["3".to_string(), "4".to_string()]));
    assert_eq!(c.default(), &vec!["5".to_string(), "6".to_string()]);
}
