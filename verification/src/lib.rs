//! A fixed-capacity, set-associative transposition table for game-tree search.

pub mod counters;
pub mod entry;
pub mod interleaving;
pub mod laws;
pub mod record;
pub mod registry;
pub mod seqlock;
pub mod snapshot;
pub mod stats;
pub mod table;
pub mod window;
