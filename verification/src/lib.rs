//! Leaf-level checks of a Merkle-Patricia trie proof.
//!
//! A proof is a table of rows, one per position from the root of the trie
//! down to a leaf, for the trie before an update (the S side) and after it
//! (the C side). The chips of this crate hold the rows of a leaf to the
//! conditions that make the leaf part of the trie: `leaf_key` for the key
//! row of a storage leaf, `leaf_value` for its value row, `drifted_leaf`
//! for the leaf that an update moved into a new branch. They rest on the
//! field of `field` and `algebra`, the accumulator of `rlc`, the tables of
//! `lookup` and the rows of `witness`. `nodes` describes the nodes of a
//! path for a reader, and `precompile` holds the precompiled contracts.

pub mod field;
pub mod algebra;
pub mod rlc;
pub mod lookup;
pub mod witness;
pub mod leaf_key;
pub mod leaf_value;
pub mod drifted_leaf;
pub mod nodes;
pub mod precompile;
