//! A Minesweeper game core: a rectangular grid of tiles, mine placement with
//! adjacency counts, guarded reveal and flag operations, a cascade that opens
//! connected regions without neighbouring mines, and the win and loss states.
//!
//! Every executable function carries a contract over the mathematical model
//! in [`grid`] and [`board`]; the properties that relate several operations
//! are proved in [`laws`].

pub mod tile;
pub mod grid;
pub mod generate;
pub mod board;
pub mod field;
pub mod cascade;
pub mod soundness;
pub mod play;
pub mod render;
pub mod laws;
