//! Locating DEX payloads in the memory of a running process.
//!
//! The library holds the rules of a scan: the grammar of a process's region
//! table, the layout and validation of a DEX header, the bookkeeping of a
//! pass over the regions, and the check that a remote read was complete.
//! The caller performs the reads and writes and hands the outcomes in.

pub mod argparse;
pub mod dex;
pub mod dump;
pub mod memory;
pub mod text;
