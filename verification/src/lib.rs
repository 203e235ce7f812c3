//! A verified editing and analysis engine for ProTracker-style music
//! modules: pruning unused patterns and samples with exact renumbering
//! of every embedded reference, merging the patterns and play order of
//! several modules, deriving the playback runtime's capability mask,
//! resolving raw pitch values to note names, inserting loop markers,
//! sample statistics, and the layout engine for the interchange text
//! format. The on-disk codecs, file handling and printing live outside
//! the engine.
pub mod inspect;
pub mod marker;
pub mod merge;
pub mod module;
pub mod notes;
pub mod pretty;
pub mod prune;
pub mod stats;
pub mod usage;
pub mod usecode;
