use ruverta::stmt::{Case, Stmt};

fn text(lines: Vec<String>) -> String {
    lines.join("\n")
}

#[test]
fn stmt_test_stmt() {
    let stmt = Stmt::begin()
        .add(
            Stmt::cond()
                .if_(
                    "a == b",
                    Stmt::begin()
                        .add(Stmt::assign("a", "1"))
                        .add(Stmt::assign("b", "1"))
                        .end(),
                )
                .if_("c == d", Stmt::assign("c", "c - 1"))
                .else_(Stmt::assign("e", "2")),
        )
        .end();
    let expected = "\
begin
  if (a == b)
    begin
      a = 1;
      b = 1;
    end
  else if (c == d)
    c = c - 1;
  else
    e = 2;
end";
    assert_eq!(text(stmt.blocking()), expected);
    println!("{}", stmt.blocking().join("\n"));
}

#[test]
fn lib_test_stmt() {
    let stmt = Stmt::begin()
        .add(
            Stmt::cond()
                .if_(
                    "a == b",
                    Stmt::begin()
                        .add(Stmt::assign("a", "1"))
                        .add(Stmt::assign("b", "1"))
                        .end(),
                )
                .if_("c == d", Stmt::assign("c", "c - 1"))
                .else_(Stmt::assign("e", "2")),
        )
        .end();
    let expected = "\
begin
  if (a == b)
    begin
      a <= 1;
      b <= 1;
    end
  else if (c == d)
    c <= c - 1;
  else
    e <= 2;
end";
    assert_eq!(text(stmt.nonblocking()), expected);
    println!("{}", stmt.nonblocking().join("\n"));
}

#[test]
fn empty_statement_is_one_semicolon() {
    assert_eq!(Stmt::empty().nonblocking(), vec![";".to_string()]);
    assert_eq!(Stmt::empty().blocking(), vec![";".to_string()]);
}

#[test]
fn assignment_takes_the_operator_of_the_process() {
    let s = Stmt::assign("q", "d");
    assert_eq!(s.nonblocking(), vec!["q <= d;".to_string()]);
    assert_eq!(s.blocking(), vec!["q = d;".to_string()]);
    assert_eq!(s.verilog(":="), vec!["q := d;".to_string()]);
}

#[test]
fn empty_block_is_begin_end() {
    assert_eq!(
        Stmt::begin().end().nonblocking(),
        vec!["begin".to_string(), "end".to_string()]
    );
}

#[test]
fn operator_reaches_nested_blocks() {
    let s = Stmt::begin()
        .assign("a", "0")
        .add(Stmt::begin().assign("b", "1").end())
        .end();
    assert_eq!(
        text(s.nonblocking()),
        "begin\n  a <= 0;\n  begin\n    b <= 1;\n  end\nend"
    );
    assert_eq!(
        text(s.blocking()),
        "begin\n  a = 0;\n  begin\n    b = 1;\n  end\nend"
    );
}

#[test]
fn block_if_elif_else_form_one_conditional() {
    let s = Stmt::begin()
        .if_("x", Stmt::assign("a", "1"))
        .elif("y", Stmt::assign("a", "2"))
        .elif("z", Stmt::assign("a", "3"))
        .else_(Stmt::assign("a", "4"))
        .end();
    let expected = "\
begin
  if (x)
    a <= 1;
  else if (y)
    a <= 2;
  else if (z)
    a <= 3;
  else
    a <= 4;
end";
    assert_eq!(text(s.nonblocking()), expected);
}

#[test]
fn two_ifs_in_a_block_are_two_conditionals() {
    let s = Stmt::begin()
        .if_("x", Stmt::assign("a", "1"))
        .if_("y", Stmt::assign("b", "1"))
        .end();
    assert_eq!(
        text(s.nonblocking()),
        "begin\n  if (x)\n    a <= 1;\n  if (y)\n    b <= 1;\nend"
    );
}

#[test]
fn elif_after_a_closed_conditional_opens_a_new_one() {
    let s = Stmt::begin()
        .if_("x", Stmt::assign("a", "1"))
        .else_(Stmt::assign("a", "2"))
        .elif("y", Stmt::assign("b", "1"))
        .end();
    let expected = "\
begin
  if (x)
    a <= 1;
  else
    a <= 2;
  if (y)
    b <= 1;
end";
    assert_eq!(text(s.nonblocking()), expected);
}

#[test]
fn elif_and_else_without_an_if() {
    let s = Stmt::begin().elif("y", Stmt::assign("b", "1")).end();
    assert_eq!(text(s.nonblocking()), "begin\n  if (y)\n    b <= 1;\nend");
    let s = Stmt::begin()
        .assign("a", "0")
        .else_(Stmt::assign("b", "1"))
        .end();
    assert_eq!(text(s.nonblocking()), "begin\n  a <= 0;\n  else\n    b <= 1;\nend");
}

#[test]
fn conditional_without_arms_renders_nothing() {
    assert_eq!(Stmt::cond().end().nonblocking(), Vec::<String>::new());
}

#[test]
fn select_with_arms_and_default() {
    let s = Stmt::Case(
        Case::new("sel")
            .case("0", Stmt::assign("y", "a"))
            .case("1", Stmt::begin().assign("y", "b").end())
            .default(Stmt::empty()),
    );
    let expected = "\
case (sel)
  0: 
  y = a;
  1: 
  begin
    y = b;
  end
  default: 
  ;
endcase";
    assert_eq!(text(s.blocking()), expected);
}

#[test]
fn select_with_default_only() {
    let s = Stmt::Case(Case::new("sel").default(Stmt::assign("y", "0")));
    assert_eq!(
        text(s.nonblocking()),
        "case (sel)\n  default: \n  y <= 0;\nendcase"
    );
}

#[test]
fn select_without_default() {
    let s = Stmt::Case(Case::new("hoge").case("0", Stmt::empty()).case("1", Stmt::empty()));
    assert_eq!(
        text(s.nonblocking()),
        "case (hoge)\n  0: \n  ;\n  1: \n  ;\nendcase"
    );
}

#[test]
fn select_without_arms_and_default_renders_nothing() {
    let s = Stmt::Case(Case::new("sel"));
    assert_eq!(s.nonblocking(), Vec::<String>::new());
    let b = Stmt::begin().case(Case::new("sel")).end();
    assert_eq!(text(b.nonblocking()), "begin\nend");
}

#[test]
fn a_later_default_replaces_an_earlier_one() {
    let s = Stmt::Case(
        Case::new("sel")
            .default(Stmt::assign("y", "0"))
            .default(Stmt::assign("y", "1")),
    );
    assert_eq!(
        text(s.nonblocking()),
        "case (sel)\n  default: \n  y <= 1;\nendcase"
    );
}

#[test]
fn rendering_twice_gives_the_same_lines() {
    let build = || {
        Stmt::begin()
            .if_("a", Stmt::assign("x", "1"))
            .else_(Stmt::assign("x", "0"))
            .case(Case::new("s").case("0", Stmt::empty()))
            .end()
    };
    let one = build();
    assert_eq!(one.nonblocking(), one.nonblocking());
    assert_eq!(one.nonblocking(), build().nonblocking());
}

#[test]
fn a_clone_renders_as_its_source() {
    let s = Stmt::begin()
        .if_("a", Stmt::begin().assign("x", "1").end())
        .elif("b", Stmt::assign("x", "2"))
        .else_(Stmt::empty())
        .case(
            Case::new("s")
                .case("0", Stmt::assign("y", "0"))
                .default(Stmt::begin().end()),
        )
        .end();
    let c = s.clone();
    assert_eq!(c.nonblocking(), s.nonblocking());
    assert_eq!(c.blocking(), s.blocking());
    drop(s);
    let expected = "\
begin
  if (a)
    begin
      x <= 1;
    end
  else if (b)
    x <= 2;
  else
    ;
  case (s)
    0: 
    y <= 0;
    default: 
    begin
    end
  endcase
end";
    assert_eq!(text(c.nonblocking()), expected);
}
