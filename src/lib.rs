//! Trigram statistics of a byte stream: a 256 x 256 x 256 occupancy grid built
//! from consecutive byte triples, the store that hands a consistent snapshot of
//! it to a renderer, and the selection-window state that decides what is binned.
pub mod binning;
pub mod tally;
pub mod grid;
pub mod window;
pub mod strip;
pub mod offline;
