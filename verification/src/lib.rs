//! Cell-wise logical OR of two equally shaped raster grids.
//!
//! Samples are IEEE-754 binary64 values carried as their 64-bit patterns, so
//! that every comparison the combination makes is an integer comparison with
//! a stated meaning. A grid is combined row by row: the scheduler cuts the
//! row range into blocks, a worker turns each row of its block into a row
//! result, and the collector puts the results, in whatever order they
//! arrive, into the output grid.
//!
//! From the leaves up: [`sample`] says what a bit pattern means, [`grid`]
//! holds samples in rows and columns, [`rule`] combines two samples,
//! [`schedule`] plans the blocks, [`worker`] combines a row, [`collector`]
//! assembles the output and [`engine`] runs them all. Around these,
//! [`text`], [`args`] and [`tool`] read the argument list and hold the help
//! texts of the tool.

pub mod args;
pub mod collector;
pub mod engine;
pub mod grid;
pub mod rule;
pub mod sample;
pub mod schedule;
pub mod text;
pub mod tool;
pub mod worker;

pub use crate::engine::{combine, combine_with_workers, EngineError};
pub use crate::grid::Grid;
pub use crate::tool::Or;
