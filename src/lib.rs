//! A memoizing wrapper for a deterministic one-argument computation, with a
//! two-way index from inputs to results and back.

mod memo;
mod two_way_map;

pub use memo::{
    lemma_computes_once, lemma_failure_not_cached, lemma_other_input_unaffected, Bijection,
};
pub use two_way_map::{
    clones_exactly, lemma_later_input_wins, lemma_lookup_after_map, valid_key_types, TwoWayMap,
};
