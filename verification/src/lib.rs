//! Programmatic generation of synthesizable SystemVerilog text.
//!
//! A design is described as a tree of plain values: statements
//! ([`stmt`]), a module that owns ports, parameters, declarations and
//! processes ([`module`]), and register maps behind a bus protocol
//! ([`bus`]). Rendering is a pure function from such a tree to lines of
//! text; every contract in this crate states the rendered text, or the
//! tree that a builder returns, over the views of these values.
pub mod bus;
pub mod comb;
pub mod dff;
pub mod fifo;
pub mod fsm;
pub mod module;
pub mod regmap;
pub mod stmt;
pub mod stream;
pub mod text;
pub mod util;
