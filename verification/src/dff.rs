//! Clocked processes with an active-low reset.
use crate::module::{EdgeView, ElementView, Module, ModuleView, Sens};
use crate::stmt::{block_of, CondView, Stmt, StmtView};
use crate::text::concat;
use vstd::prelude::*;

verus! {

/// The body of a process with reset: `init` while `rst` is low, `stmt`
/// otherwise.
pub open spec fn reset_guard(rst: Seq<char>, init: StmtView, stmt: StmtView) -> StmtView {
    block_of(
        StmtView::Cond(CondView { arms: seq![("!"@ + rst, init)], other: Some(Box::new(stmt)) }),
    )
}

/// The process that is clocked by the rising edge of `clk` and reset while
/// `rst` is low, at the next rising edge.
pub open spec fn sync_process(
    clk: Seq<char>,
    rst: Seq<char>,
    init: StmtView,
    stmt: StmtView,
) -> ElementView {
    ElementView::AlwaysFF { sens: seq![EdgeView::Posedge(clk)], stmt: reset_guard(rst, init, stmt) }
}

/// The process that is clocked by the rising edge of `clk` and reset as
/// soon as `rst` falls.
pub open spec fn async_process(
    clk: Seq<char>,
    rst: Seq<char>,
    init: StmtView,
    stmt: StmtView,
) -> ElementView {
    ElementView::AlwaysFF {
        sens: seq![EdgeView::Posedge(clk), EdgeView::Negedge(rst)],
        stmt: reset_guard(rst, init, stmt),
    }
}

/// Builds the body of a process with reset.
fn guarded(rst: &str, init: Stmt, stmt: Stmt) -> (r: Stmt)
    ensures
        r@ == reset_guard(rst@, init@, stmt@),
{
    let cond = concat("!", rst);
    let r = Stmt::begin().if_(cond.as_str(), init).else_(stmt).end();
    proof {
        let arm = StmtView::Cond(CondView { arms: seq![(cond@, init@)], other: None });
        let one = Seq::<StmtView>::empty().push(arm);
        assert(one.drop_last() =~= Seq::<StmtView>::empty());
        assert(r@->Block_0 =~= reset_guard(rst@, init@, stmt@)->Block_0);
    }
    r
}

impl Module {
    /// Adds a flip-flop process with asynchronous reset.
    pub fn async_ff(self, clk: &str, rst: &str, init: Stmt, stmt: Stmt) -> (r: Module)
        ensures
            r@ == (ModuleView {
                blocks: self@.blocks.push(async_process(clk@, rst@, init@, stmt@)),
                ..self@
            }),
    {
        let sens = Sens::new().posedge(clk).negedge(rst);
        assert(sens@ =~= seq![EdgeView::Posedge(clk@), EdgeView::Negedge(rst@)]);
        self.always_ff(sens, guarded(rst, init, stmt))
    }

    /// Adds a flip-flop process with synchronous reset.
    pub fn sync_ff(self, clk: &str, rst: &str, init: Stmt, stmt: Stmt) -> (r: Module)
        ensures
            r@ == (ModuleView {
                blocks: self@.blocks.push(sync_process(clk@, rst@, init@, stmt@)),
                ..self@
            }),
    {
        let sens = Sens::new().posedge(clk);
        assert(sens@ =~= seq![EdgeView::Posedge(clk@)]);
        self.always_ff(sens, guarded(rst, init, stmt))
    }
}

} // verus!
