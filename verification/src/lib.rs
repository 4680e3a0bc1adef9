//! The decision core of a concurrent TCP port scanner.
//!
//! A scan probes every port of an inclusive range on one host and gathers
//! the ports that accept a connection. The crate holds what such a scanner
//! decides: how command-line words become a valid request (`arguments`,
//! `request`), which worker probes which port (`partition`), how a scan moves
//! from dispatch to its final outcome (`lifecycle`, `outcome`), and what is
//! shown at the end (`report`, `help`). `scan` runs a whole scan against any
//! probe function, one worker after the other.
//!
//! Connecting to the host and running the workers side by side belong to
//! the program around the crate: it walks each worker's share with
//! `partition::Worker` on a thread of its own and feeds what the workers
//! send into a `lifecycle::Scheduler`.

pub mod request;
pub mod partition;
pub mod outcome;
pub mod lifecycle;
pub mod scan;
pub mod text;
pub mod arguments;
pub mod report;
pub mod help;
