//! The statement tree: what a process does, and how it is written down.
//!
//! A statement is a pure value built bottom-up. Conditions, targets and
//! values are text that is copied through unchanged. The one thing that
//! rendering takes from the context is the assignment operator, which is
//! handed down to every nested statement.
use crate::text::{concat, indent, lines, push_indented, push_line};
use vstd::prelude::*;

verus! {

/// Model of an assignment.
pub struct AssignView {
    pub var: Seq<char>,
    pub val: Seq<char>,
}

/// Model of a conditional: guarded arms in order, and what is done when no
/// guard holds.
pub struct CondView {
    pub arms: Seq<(Seq<char>, StmtView)>,
    pub other: Option<Box<StmtView>>,
}

/// Model of a multi-way select on `var`.
pub struct CaseView {
    pub var: Seq<char>,
    pub arms: Seq<(Seq<char>, StmtView)>,
    pub default: Option<Box<StmtView>>,
}

/// Model of a statement.
pub enum StmtView {
    Empty,
    Block(Seq<StmtView>),
    Assign(AssignView),
    Cond(CondView),
    Case(CaseView),
}

/// The assignment of `val` to `var`.
pub open spec fn assignment(var: Seq<char>, val: Seq<char>) -> StmtView {
    StmtView::Assign(AssignView { var, val })
}

/// The conditional with the one arm `if (cond) stmt` and no `else`.
pub open spec fn only_if(cond: Seq<char>, stmt: StmtView) -> StmtView {
    StmtView::Cond(CondView { arms: seq![(cond, stmt)], other: None })
}

/// The block that holds the one statement `s`.
pub open spec fn block_of(s: StmtView) -> StmtView {
    StmtView::Block(seq![s])
}

/// The children of a block, each rendered one level in.
pub open spec fn render_body(body: Seq<StmtView>, op: Seq<char>) -> Seq<Seq<char>>
    decreases body,
{
    if body.len() == 0 {
        Seq::empty()
    } else {
        render_body(body.drop_last(), op) + indent(body.last().render(op))
    }
}

/// The guarded arms of a conditional: the first opens with `if`, each
/// later one with `else if`.
pub open spec fn render_branches(arms: Seq<(Seq<char>, StmtView)>, op: Seq<char>) -> Seq<
    Seq<char>,
>
    decreases arms,
{
    if arms.len() == 0 {
        Seq::empty()
    } else {
        render_branches(arms.drop_last(), op) + seq![
            (if arms.len() == 1 {
                "if ("@
            } else {
                "else if ("@
            }) + arms.last().0 + ")"@,
        ] + indent(arms.last().1.render(op))
    }
}

/// The arms of a select: a label line, then the body one level in.
pub open spec fn render_arms(arms: Seq<(Seq<char>, StmtView)>, op: Seq<char>) -> Seq<Seq<char>>
    decreases arms,
{
    if arms.len() == 0 {
        Seq::empty()
    } else {
        render_arms(arms.drop_last(), op) + seq!["  "@ + arms.last().0 + ": "@] + indent(
            arms.last().1.render(op),
        )
    }
}

impl StmtView {
    /// The lines that this statement is written as, with `op` as the
    /// assignment operator.
    pub open spec fn render(self, op: Seq<char>) -> Seq<Seq<char>>
        decreases self,
    {
        match self {
            StmtView::Empty => seq![";"@],
            StmtView::Block(body) => seq!["begin"@] + render_body(body, op) + seq!["end"@],
            StmtView::Assign(a) => seq![a.var + " "@ + op + " "@ + a.val + ";"@],
            StmtView::Cond(c) => render_branches(c.arms, op) + (match c.other {
                Some(s) => seq!["else"@] + indent(s.render(op)),
                None => Seq::empty(),
            }),
            StmtView::Case(c) => if c.arms.len() == 0 && c.default is None {
                Seq::empty()
            } else {
                seq!["case ("@ + c.var + ")"@] + render_arms(c.arms, op) + (match c.default {
                    Some(s) => seq!["  default: "@] + indent(s.render(op)),
                    None => Seq::empty(),
                }) + seq!["endcase"@]
            },
        }
    }
}

/// A statement of a process.
#[derive(Debug)]
pub enum Stmt {
    /// Does nothing.
    Empty,
    /// Statements in order, between `begin` and `end`.
    Block(Block),
    /// One assignment.
    Assign(Assign),
    /// Guarded arms, tried in order.
    Cond(Cond),
    /// Multi-way select on a signal.
    Case(Case),
}

/// A sequence of statements under construction.
#[derive(Debug)]
pub struct Block {
    body: Vec<Stmt>,
}

/// An assignment of the text `val` to the target `var`.
#[derive(Debug, Clone)]
pub struct Assign {
    var: String,
    val: String,
}

/// A conditional under construction.
#[derive(Debug)]
pub struct Cond {
    arms: Vec<(String, Stmt)>,
    other: Option<Box<Stmt>>,
}

/// A multi-way select under construction.
#[derive(Debug)]
pub struct Case {
    var: String,
    case: Vec<(String, Stmt)>,
    default: Option<Box<Stmt>>,
}

spec fn stmt_view(s: Stmt) -> StmtView
    decreases s,
{
    match s {
        Stmt::Empty => StmtView::Empty,
        Stmt::Block(b) => StmtView::Block(stmts_view(b.body@)),
        Stmt::Assign(a) => StmtView::Assign(AssignView { var: a.var@, val: a.val@ }),
        Stmt::Cond(c) => StmtView::Cond(
            CondView {
                arms: arms_view(c.arms@),
                other: match c.other {
                    Some(b) => Some(Box::new(stmt_view(*b))),
                    None => None,
                },
            },
        ),
        Stmt::Case(c) => StmtView::Case(
            CaseView {
                var: c.var@,
                arms: arms_view(c.case@),
                default: match c.default {
                    Some(b) => Some(Box::new(stmt_view(*b))),
                    None => None,
                },
            },
        ),
    }
}

spec fn stmts_view(ss: Seq<Stmt>) -> Seq<StmtView>
    decreases ss,
{
    if ss.len() == 0 {
        Seq::empty()
    } else {
        stmts_view(ss.drop_last()).push(stmt_view(ss.last()))
    }
}

spec fn arms_view(arms: Seq<(String, Stmt)>) -> Seq<(Seq<char>, StmtView)>
    decreases arms,
{
    if arms.len() == 0 {
        Seq::empty()
    } else {
        arms_view(arms.drop_last()).push((arms.last().0@, stmt_view(arms.last().1)))
    }
}

proof fn lemma_stmts_view(ss: Seq<Stmt>)
    ensures
        stmts_view(ss).len() == ss.len(),
        forall|i: int| 0 <= i < ss.len() ==> #[trigger] stmts_view(ss)[i] == stmt_view(ss[i]),
    decreases ss.len(),
{
    if ss.len() > 0 {
        lemma_stmts_view(ss.drop_last());
    }
}

proof fn lemma_stmts_view_push(ss: Seq<Stmt>, s: Stmt)
    ensures
        stmts_view(ss.push(s)) == stmts_view(ss).push(stmt_view(s)),
{
    assert(ss.push(s).drop_last() =~= ss);
}

proof fn lemma_arms_view(arms: Seq<(String, Stmt)>)
    ensures
        arms_view(arms).len() == arms.len(),
        forall|i: int|
            0 <= i < arms.len() ==> #[trigger] arms_view(arms)[i] == (
                arms[i].0@,
                stmt_view(arms[i].1),
            ),
    decreases arms.len(),
{
    if arms.len() > 0 {
        lemma_arms_view(arms.drop_last());
    }
}

proof fn lemma_arms_view_push(arms: Seq<(String, Stmt)>, arm: (String, Stmt))
    ensures
        arms_view(arms.push(arm)) == arms_view(arms).push((arm.0@, stmt_view(arm.1))),
{
    assert(arms.push(arm).drop_last() =~= arms);
}

impl View for Stmt {
    type V = StmtView;

    closed spec fn view(&self) -> StmtView {
        stmt_view(*self)
    }
}

impl View for Block {
    type V = Seq<StmtView>;

    closed spec fn view(&self) -> Seq<StmtView> {
        stmts_view(self.body@)
    }
}

impl View for Assign {
    type V = AssignView;

    closed spec fn view(&self) -> AssignView {
        AssignView { var: self.var@, val: self.val@ }
    }
}

impl View for Cond {
    type V = CondView;

    closed spec fn view(&self) -> CondView {
        CondView {
            arms: arms_view(self.arms@),
            other: match self.other {
                Some(b) => Some(Box::new(stmt_view(*b))),
                None => None,
            },
        }
    }
}

impl View for Case {
    type V = CaseView;

    closed spec fn view(&self) -> CaseView {
        CaseView {
            var: self.var@,
            arms: arms_view(self.case@),
            default: match self.default {
                Some(b) => Some(Box::new(stmt_view(*b))),
                None => None,
            },
        }
    }
}

/// Copies a statement with everything below it.
fn copy_stmt(s: &Stmt) -> (r: Stmt)
    ensures
        stmt_view(r) == stmt_view(*s),
    decreases s,
{
    match s {
        Stmt::Empty => Stmt::Empty,
        Stmt::Block(b) => Stmt::Block(Block { body: copy_stmts(&b.body) }),
        Stmt::Assign(a) => Stmt::Assign(Assign { var: a.var.clone(), val: a.val.clone() }),
        Stmt::Cond(c) => Stmt::Cond(
            Cond {
                arms: copy_arms(&c.arms),
                other: match &c.other {
                    Some(b) => Some(Box::new(copy_stmt(b))),
                    None => None,
                },
            },
        ),
        Stmt::Case(c) => Stmt::Case(
            Case {
                var: c.var.clone(),
                case: copy_arms(&c.case),
                default: match &c.default {
                    Some(b) => Some(Box::new(copy_stmt(b))),
                    None => None,
                },
            },
        ),
    }
}

/// Copies statements in order.
fn copy_stmts(v: &Vec<Stmt>) -> (r: Vec<Stmt>)
    ensures
        stmts_view(r@) == stmts_view(v@),
    decreases v,
{
    let mut out: Vec<Stmt> = Vec::new();
    let mut i: usize = 0;
    assert(v@.subrange(0, 0) =~= out@);
    while i < v.len()
        invariant
            i <= v.len(),
            stmts_view(out@) == stmts_view(v@.subrange(0, i as int)),
        decreases v.len() - i,
    {
        let s = copy_stmt(&v[i]);
        proof {
            lemma_stmts_view_push(out@, s);
            lemma_stmts_view_push(v@.subrange(0, i as int), v@[i as int]);
            assert(v@.subrange(0, i as int).push(v@[i as int]) =~= v@.subrange(0, i + 1));
        }
        out.push(s);
        i = i + 1;
    }
    assert(v@.subrange(0, i as int) =~= v@);
    out
}

/// Copies arms in order.
fn copy_arms(v: &Vec<(String, Stmt)>) -> (r: Vec<(String, Stmt)>)
    ensures
        arms_view(r@) == arms_view(v@),
    decreases v,
{
    let mut out: Vec<(String, Stmt)> = Vec::new();
    let mut i: usize = 0;
    assert(v@.subrange(0, 0) =~= out@);
    while i < v.len()
        invariant
            i <= v.len(),
            arms_view(out@) == arms_view(v@.subrange(0, i as int)),
        decreases v.len() - i,
    {
        let arm = (v[i].0.clone(), copy_stmt(&v[i].1));
        proof {
            lemma_arms_view_push(out@, arm);
            lemma_arms_view_push(v@.subrange(0, i as int), v@[i as int]);
            assert(v@.subrange(0, i as int).push(v@[i as int]) =~= v@.subrange(0, i + 1));
        }
        out.push(arm);
        i = i + 1;
    }
    assert(v@.subrange(0, i as int) =~= v@);
    out
}

impl Clone for Stmt {
    fn clone(&self) -> (r: Stmt)
        ensures
            r@ == self@,
    {
        copy_stmt(self)
    }
}

impl Clone for Block {
    fn clone(&self) -> (r: Block)
        ensures
            r@ == self@,
    {
        Block { body: copy_stmts(&self.body) }
    }
}

impl Clone for Cond {
    fn clone(&self) -> (r: Cond)
        ensures
            r@ == self@,
    {
        Cond {
            arms: copy_arms(&self.arms),
            other: match &self.other {
                Some(b) => Some(Box::new(copy_stmt(b))),
                None => None,
            },
        }
    }
}

impl Clone for Case {
    fn clone(&self) -> (r: Case)
        ensures
            r@ == self@,
    {
        Case {
            var: self.var.clone(),
            case: copy_arms(&self.case),
            default: match &self.default {
                Some(b) => Some(Box::new(copy_stmt(b))),
                None => None,
            },
        }
    }
}

/// `body` after an `else if` arm is added: the arm joins a conditional
/// that ends the body and has no `else` yet; otherwise it opens a new
/// conditional.
pub open spec fn with_elif(body: Seq<StmtView>, cond: Seq<char>, stmt: StmtView) -> Seq<
    StmtView,
> {
    if body.len() > 0 && body.last() is Cond && body.last()->Cond_0.other is None {
        body.drop_last().push(
            StmtView::Cond(
                CondView { arms: body.last()->Cond_0.arms.push((cond, stmt)), other: None },
            ),
        )
    } else {
        body.push(StmtView::Cond(CondView { arms: seq![(cond, stmt)], other: None }))
    }
}

/// `body` after an `else` is added: it closes a conditional that ends the
/// body and has no `else` yet; otherwise it stands alone.
pub open spec fn with_else(body: Seq<StmtView>, stmt: StmtView) -> Seq<StmtView> {
    if body.len() > 0 && body.last() is Cond && body.last()->Cond_0.other is None {
        body.drop_last().push(
            StmtView::Cond(
                CondView { arms: body.last()->Cond_0.arms, other: Some(Box::new(stmt)) },
            ),
        )
    } else {
        body.push(StmtView::Cond(CondView { arms: Seq::empty(), other: Some(Box::new(stmt)) }))
    }
}

impl Stmt {
    /// The statement that does nothing.
    pub fn empty() -> (r: Stmt)
        ensures
            r@ == StmtView::Empty,
    {
        Stmt::Empty
    }

    /// Opens a block.
    pub fn begin() -> (r: Block)
        ensures
            r@ == Seq::<StmtView>::empty(),
    {
        Block::begin()
    }

    /// Opens a conditional.
    pub fn cond() -> (r: Cond)
        ensures
            r@ == (CondView { arms: Seq::empty(), other: None }),
    {
        Cond { arms: Vec::new(), other: None }
    }

    /// The assignment of `val` to `var`.
    pub fn assign(var: &str, val: &str) -> (r: Stmt)
        ensures
            r@ == StmtView::Assign(AssignView { var: var@, val: val@ }),
    {
        Stmt::Assign(Assign::new(var, val))
    }

    /// Renders with the immediate assignment operator `=`, as a
    /// combinational process needs it.
    pub fn blocking(&self) -> (r: Vec<String>)
        ensures
            lines(r@) == self@.render("="@),
    {
        self.verilog("=")
    }

    /// Renders with the deferred assignment operator `<=`, as a clocked
    /// process needs it.
    pub fn nonblocking(&self) -> (r: Vec<String>)
        ensures
            lines(r@) == self@.render("<="@),
    {
        self.verilog("<=")
    }

    /// Renders with `assign_op` as the assignment operator of every
    /// assignment in the tree.
    pub fn verilog(&self, assign_op: &str) -> (r: Vec<String>)
        ensures
            lines(r@) == self@.render(assign_op@),
        decreases self,
    {
        match self {
            Stmt::Empty => {
                let mut out: Vec<String> = Vec::new();
                push_line(&mut out, String::from_str(";"));
                assert(lines(out@) =~= seq![";"@]);
                out
            },
            Stmt::Block(block) => block.verilog(assign_op),
            Stmt::Assign(assign) => {
                let mut out: Vec<String> = Vec::new();
                push_line(&mut out, assign.verilog(assign_op));
                assert(lines(out@) =~= self@.render(assign_op@));
                out
            },
            Stmt::Cond(cond) => cond.verilog(assign_op),
            Stmt::Case(case) => case.verilog(assign_op),
        }
    }
}

impl Block {
    /// The empty block.
    pub fn begin() -> (r: Block)
        ensures
            r@ == Seq::<StmtView>::empty(),
    {
        Block { body: Vec::new() }
    }

    /// Adds an assignment.
    pub fn assign(self, var: &str, val: &str) -> (r: Block)
        ensures
            r@ == self@.push(StmtView::Assign(AssignView { var: var@, val: val@ })),
    {
        self.add(Stmt::assign(var, val))
    }

    /// Adds a select.
    pub fn case(self, case: Case) -> (r: Block)
        ensures
            r@ == self@.push(StmtView::Case(case@)),
    {
        self.add(Stmt::Case(case))
    }

    /// Adds a conditional with the one arm `if (cond) stmt`.
    pub fn if_(self, cond: &str, stmt: Stmt) -> (r: Block)
        ensures
            r@ == self@.push(
                StmtView::Cond(CondView { arms: seq![(cond@, stmt@)], other: None }),
            ),
    {
        self.add(Stmt::cond().if_(cond, stmt).end())
    }

    /// Adds the arm `else if (cond) stmt` to the conditional that ends the
    /// block.
    pub fn elif(self, cond: &str, stmt: Stmt) -> (r: Block)
        ensures
            r@ == with_elif(self@, cond@, stmt@),
    {
        let mut block = self;
        let ghost before = block.body@;
        proof {
            lemma_stmts_view(before);
        }
        match block.body.pop() {
            Some(Stmt::Cond(c)) => {
                if c.other.is_none() {
                    block.add(Stmt::Cond(c.if_(cond, stmt)))
                } else {
                    let ghost last = Stmt::Cond(c);
                    let b = block.add(Stmt::Cond(c));
                    proof {
                        assert(before.drop_last().push(last) =~= before);
                    }
                    b.add(Stmt::cond().if_(cond, stmt).end())
                }
            },
            Some(last) => {
                let ghost last_copy = last;
                let b = block.add(last);
                proof {
                    assert(before.drop_last().push(last_copy) =~= before);
                }
                b.add(Stmt::cond().if_(cond, stmt).end())
            },
            None => block.add(Stmt::cond().if_(cond, stmt).end()),
        }
    }

    /// Adds `else stmt` to the conditional that ends the block.
    pub fn else_(self, stmt: Stmt) -> (r: Block)
        ensures
            r@ == with_else(self@, stmt@),
    {
        let mut block = self;
        let ghost before = block.body@;
        proof {
            lemma_stmts_view(before);
        }
        match block.body.pop() {
            Some(Stmt::Cond(c)) => {
                if c.other.is_none() {
                    block.add(c.else_(stmt))
                } else {
                    let ghost last = Stmt::Cond(c);
                    let b = block.add(Stmt::Cond(c));
                    proof {
                        assert(before.drop_last().push(last) =~= before);
                    }
                    b.add(Stmt::cond().else_(stmt))
                }
            },
            Some(last) => {
                let ghost last_copy = last;
                let b = block.add(last);
                proof {
                    assert(before.drop_last().push(last_copy) =~= before);
                }
                b.add(Stmt::cond().else_(stmt))
            },
            None => block.add(Stmt::cond().else_(stmt)),
        }
    }

    /// Adds any statement.
    pub fn add(self, stmt: Stmt) -> (r: Block)
        ensures
            r@ == self@.push(stmt@),
    {
        let mut block = self;
        proof {
            lemma_stmts_view_push(block.body@, stmt);
        }
        block.body.push(stmt);
        block
    }

    /// Closes the block.
    pub fn end(self) -> (r: Stmt)
        ensures
            r@ == StmtView::Block(self@),
    {
        Stmt::Block(self)
    }

    /// Renders the block between `begin` and `end`.
    pub fn verilog(&self, assign_op: &str) -> (r: Vec<String>)
        ensures
            lines(r@) == StmtView::Block(self@).render(assign_op@),
        decreases self,
    {
        let mut out: Vec<String> = Vec::new();
        push_line(&mut out, String::from_str("begin"));
        let mut i: usize = 0;
        while i < self.body.len()
            invariant
                i <= self.body.len(),
                lines(out@) == seq!["begin"@] + render_body(
                    stmts_view(self.body@.subrange(0, i as int)),
                    assign_op@,
                ),
            decreases self.body.len() - i,
        {
            let ls = self.body[i].verilog(assign_op);
            proof {
                let next = self.body@.subrange(0, i + 1);
                assert(next.drop_last() =~= self.body@.subrange(0, i as int));
                assert(stmts_view(next).drop_last() =~= stmts_view(next.drop_last()));
            }
            push_indented(&mut out, &ls);
            i = i + 1;
        }
        assert(self.body@.subrange(0, i as int) =~= self.body@);
        push_line(&mut out, String::from_str("end"));
        out
    }
}

impl Assign {
    /// The assignment of `val` to `var`.
    pub fn new(var: &str, val: &str) -> (r: Assign)
        ensures
            r@ == (AssignView { var: var@, val: val@ }),
    {
        Assign { var: String::from_str(var), val: String::from_str(val) }
    }

    /// The one line `var op val;`.
    pub fn verilog(&self, assign_op: &str) -> (r: String)
        ensures
            r@ == self@.var + " "@ + assign_op@ + " "@ + self@.val + ";"@,
    {
        let mut s = self.var.clone();
        s.append(" ");
        s.append(assign_op);
        s.append(" ");
        s.append(self.val.as_str());
        s.append(";");
        s
    }
}

impl Cond {
    /// Adds a guarded arm; the first is the `if`, each later one an
    /// `else if`.
    pub fn if_(self, cond: &str, stmt: Stmt) -> (r: Cond)
        ensures
            r@ == (CondView { arms: self@.arms.push((cond@, stmt@)), other: self@.other }),
    {
        let mut c = self;
        let arm = (String::from_str(cond), stmt);
        proof {
            lemma_arms_view_push(c.arms@, arm);
        }
        c.arms.push(arm);
        c
    }

    /// Sets what is done when no guard holds, and closes the conditional.
    pub fn else_(self, stmt: Stmt) -> (r: Stmt)
        ensures
            r@ == StmtView::Cond(CondView { arms: self@.arms, other: Some(Box::new(stmt@)) }),
    {
        let mut c = self;
        c.other = Some(Box::new(stmt));
        Stmt::Cond(c)
    }

    /// Closes the conditional as it stands.
    pub fn end(self) -> (r: Stmt)
        ensures
            r@ == StmtView::Cond(self@),
    {
        Stmt::Cond(self)
    }

    /// Renders the arms in order, then the `else`.
    pub fn verilog(&self, assign_op: &str) -> (r: Vec<String>)
        ensures
            lines(r@) == StmtView::Cond(self@).render(assign_op@),
        decreases self,
    {
        let mut out: Vec<String> = Vec::new();
        assert(lines(out@) =~= Seq::<Seq<char>>::empty());
        let mut i: usize = 0;
        while i < self.arms.len()
            invariant
                i <= self.arms.len(),
                lines(out@) == render_branches(
                    arms_view(self.arms@.subrange(0, i as int)),
                    assign_op@,
                ),
            decreases self.arms.len() - i,
        {
            let mut head = String::from_str(
                if i == 0 {
                    "if ("
                } else {
                    "else if ("
                },
            );
            head.append(self.arms[i].0.as_str());
            head.append(")");
            let ls = self.arms[i].1.verilog(assign_op);
            proof {
                let next = self.arms@.subrange(0, i + 1);
                assert(next.drop_last() =~= self.arms@.subrange(0, i as int));
                assert(arms_view(next).drop_last() =~= arms_view(next.drop_last()));
                lemma_arms_view(next);
            }
            let ghost prev = lines(out@);
            push_line(&mut out, head);
            push_indented(&mut out, &ls);
            assert(lines(out@) =~= prev + seq![head@] + indent(lines(ls@)));
            i = i + 1;
        }
        assert(self.arms@.subrange(0, i as int) =~= self.arms@);
        match &self.other {
            Some(stmt) => {
                let ls = stmt.verilog(assign_op);
                let ghost prev = lines(out@);
                push_line(&mut out, String::from_str("else"));
                push_indented(&mut out, &ls);
                assert(lines(out@) =~= prev + (seq!["else"@] + indent(lines(ls@))));
            },
            None => {
                assert(lines(out@) + Seq::<Seq<char>>::empty() =~= lines(out@));
            },
        }
        out
    }
}

impl Case {
    /// A select on `var`, without arms.
    pub fn new(var: &str) -> (r: Case)
        ensures
            r@ == (CaseView { var: var@, arms: Seq::empty(), default: None }),
    {
        Case { var: String::from_str(var), case: Vec::new(), default: None }
    }

    /// Adds the arm `cond: stmt`.
    pub fn case(self, cond: &str, stmt: Stmt) -> (r: Case)
        ensures
            r@ == (CaseView { arms: self@.arms.push((cond@, stmt@)), ..self@ }),
    {
        let mut c = self;
        let arm = (String::from_str(cond), stmt);
        proof {
            lemma_arms_view_push(c.case@, arm);
        }
        c.case.push(arm);
        c
    }

    /// Sets the default arm, replacing an earlier one.
    pub fn default(self, stmt: Stmt) -> (r: Case)
        ensures
            r@ == (CaseView { default: Some(Box::new(stmt@)), ..self@ }),
    {
        let mut c = self;
        c.default = Some(Box::new(stmt));
        c
    }

    /// Closes the select as it stands.
    pub fn end(self) -> (r: Stmt)
        ensures
            r@ == StmtView::Case(self@),
    {
        Stmt::Case(self)
    }

    /// Renders the select. One without arms and without a default selects
    /// nothing and renders to no line at all.
    pub fn verilog(&self, assign_op: &str) -> (r: Vec<String>)
        ensures
            lines(r@) == StmtView::Case(self@).render(assign_op@),
        decreases self,
    {
        let mut out: Vec<String> = Vec::new();
        proof {
            lemma_arms_view(self.case@);
        }
        if self.case.len() == 0 && self.default.is_none() {
            assert(lines(out@) =~= Seq::<Seq<char>>::empty());
            return out;
        }
        let mut head = String::from_str("case (");
        head.append(self.var.as_str());
        head.append(")");
        push_line(&mut out, head);
        let mut i: usize = 0;
        while i < self.case.len()
            invariant
                i <= self.case.len(),
                lines(out@) == seq![head@] + render_arms(
                    arms_view(self.case@.subrange(0, i as int)),
                    assign_op@,
                ),
            decreases self.case.len() - i,
        {
            let mut label = String::from_str("  ");
            label.append(self.case[i].0.as_str());
            label.append(": ");
            let ls = self.case[i].1.verilog(assign_op);
            proof {
                let next = self.case@.subrange(0, i + 1);
                assert(next.drop_last() =~= self.case@.subrange(0, i as int));
                assert(arms_view(next).drop_last() =~= arms_view(next.drop_last()));
                lemma_arms_view(next);
            }
            let ghost prev = lines(out@);
            push_line(&mut out, label);
            push_indented(&mut out, &ls);
            assert(lines(out@) =~= prev + seq![label@] + indent(lines(ls@)));
            i = i + 1;
        }
        assert(self.case@.subrange(0, i as int) =~= self.case@);
        let ghost arms = lines(out@);
        match &self.default {
            Some(stmt) => {
                let ls = stmt.verilog(assign_op);
                push_line(&mut out, String::from_str("  default: "));
                push_indented(&mut out, &ls);
                assert(lines(out@) =~= arms + (seq!["  default: "@] + indent(lines(ls@))));
            },
            None => {
                assert(lines(out@) + Seq::<Seq<char>>::empty() =~= lines(out@));
            },
        }
        push_line(&mut out, String::from_str("endcase"));
        out
    }
}

} // verus!
