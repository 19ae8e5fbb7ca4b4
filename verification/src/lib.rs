//! A doubling pseudorandom generator over 128-bit seeds, and the expansion of
//! one seed into a complete binary tree of seeds (a GGM tree) stored as a
//! flat array.

pub mod aes128;
pub mod one_to_two_prg;
pub mod seed;
pub mod tree_index;
