//! Supervision of a companion "bridge" process: locating a runnable bridge
//! artifact across install layouts, deciding the order in which candidates are
//! tried, framing the line-oriented commands sent to the bridge, splitting its
//! output streams into discrete line events, and the single-slot handle that
//! holds at most one live process.
//!
//! Everything here is pure logic over plain values. The host performs the
//! actual operating-system work (existence checks, spawning, reads, writes)
//! and feeds the outcomes back in.

pub mod candidate;
pub mod errors;
pub mod locator;
pub mod resolver;
pub mod forwarder;
pub mod lines;
pub mod slot;
