//! A concurrent TCP port scanner's verified core.
//!
//! The library covers the logic of a scanner that probes every port in
//! `1..=65535` against one target address with a fixed number of workers:
//! how the port range is divided among the workers (`partition`), what a
//! scan is configured with (`target`), and how the workers' reports are
//! gathered into one sorted result (`collect`). The network probes, the
//! threads and the command line live outside the library; they hand in and
//! take back plain values whose properties are stated and proved here.

pub mod collect;
pub mod partition;
pub mod target;
