//! A verified engine for a text-mode client of a line-oriented,
//! selector-based directory-listing protocol.
//!
//! The crate covers the protocol logic itself: the two-letter label codec
//! used to select listing entries, the closed set of item kinds, the
//! listing parser, the navigation session with its history stack, and the
//! command dispatcher.  Network transport, prompting and the handling of
//! fetched content are left to the surrounding program, which drives this
//! engine with plain values.

pub mod codec;
pub mod error;
pub mod item;
pub mod text;
pub mod parser;
pub mod session;
pub mod dispatch;
