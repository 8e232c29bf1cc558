//! Core of a serial-line telemetry monitor: the connection-lifecycle state
//! machine, the line-protocol parser, the ordered worker-to-consumer message
//! handoff, and the streaming time-series aggregator.  All I/O (the serial
//! transport, the presentation layer) lives outside this crate; the library
//! works on plain byte lines and hands back plain values.

pub mod bytes;
pub mod numeric;
pub mod parse;
pub mod messages;
pub mod config;
pub mod worker;
pub mod send;
pub mod channel;
pub mod series;

use vstd::prelude::*;

verus! {

} // verus!
