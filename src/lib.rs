//! Conway's Game of Life on a toroidal grid, with the rule, the neighbour
//! count, the text rendering of a generation and the pacing of a batch of
//! generations stated and proved.
pub mod cell;
pub mod universe;
pub mod batch;
