//! A bounded, two-state cellular automaton: Conway's Game of Life on a
//! rectangular grid without wraparound.
//!
//! Every executable function carries a contract over a mathematical model,
//! and Verus proves the body against it. The model of a generation is a
//! `Seq<Cell>` in row-major order; the step from one generation to the next
//! is a function of the previous generation alone.
//!
//! - [`cell`], [`rule`], [`error`]: a cell, the transition rule, and the
//!   failures of the grid store.
//! - [`neighbourhood`], [`generation`]: the model, and the laws that hold of
//!   it: an empty grid stays empty, a block stands still, zero steps change
//!   nothing.
//! - [`universe`]: the dense grid store, the neighbour count by indexed
//!   lookup, and the generation step.
//! - [`driver`]: runs of many generations, the halt policy and the report.
//! - [`partition`]: the rows of a generation dealt out to workers.
//! - [`population`], [`position_index`], [`systems`]: cells kept as records
//!   with a position each, counted through a rebuilt index.
//! - [`agreement`]: both ways of counting end in the same generation.
//! - [`control`], [`render`]: what the user's input decides, and a
//!   generation as text.
//! - [`random`]: the draws taken from the `rand` crate, on trust.

pub mod agreement;
pub mod cell;
pub mod control;
pub mod driver;
pub mod error;
pub mod generation;
pub mod neighbourhood;
pub mod partition;
pub mod population;
pub mod position_index;
pub mod random;
pub mod render;
pub mod rule;
pub mod systems;
pub mod universe;
