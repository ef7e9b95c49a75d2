//! Tracking of the recent tip of a blockchain: a bounded window of recent
//! blocks, detection of reorganizations at the tip, repair of the window
//! against the node's current answers, and the registry of subscribers that
//! are told about changes.
//!
//! Nothing in this library performs I/O. Every function takes what the chain
//! node answered as a plain value and returns what has to be asked or told
//! next.

pub mod block;
pub mod block_watcher;
pub mod blocks_observer;
pub mod chain;
pub mod cold_start;
pub mod detector;
pub mod reconciler;
pub mod retention;
pub mod window;
