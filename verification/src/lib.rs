//! Line-ending normalization for relayed process output.
//!
//! The library holds the verified core of a pass-through filter that rewrites
//! a byte stream so that every line feed is preceded by a carriage return,
//! leaving existing carriage-return–line-feed pairs untouched.  The pure
//! transform and its laws live in [`normalize`], the per-stream state machine
//! that drives a copy loop lives in [`forwarder`], and the command-line
//! planning and diagnostic formatting live in [`cli`].

pub mod cli;
pub mod forwarder;
pub mod normalize;
