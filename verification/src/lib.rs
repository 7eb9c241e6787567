//! Traces of the system calls of CKB scripts.
//!
//! A script runs in virtual machines that ask for data by system calls. A collector watches
//! the calls and keeps what is needed to replay the runs of the script one by one: the outcome
//! of every call, or the parts of the transaction that were read together with the outcomes of
//! the other calls, and where the program of each run comes from.
//!
//! The library touches no virtual machine and no file. It is told the registers of a virtual
//! machine, asks for the reads of memory that it needs, and says what it collected.
pub mod bytes;
pub mod codes;
pub mod data;
pub mod transaction;
pub mod traces;

pub mod machine;
pub mod readonly_machines;

pub mod keys;
pub mod vms;
pub mod generation;
pub mod partial_content;
pub mod locator;

pub mod collector;
pub mod syscall_collector;
pub mod tx_parts_collector;
pub mod locator_collector;

pub mod text;
pub mod byte32;
pub mod command_line;
pub mod samply;
pub mod outside;

pub mod laws;

pub use codes::{Source, SyscallCode};
pub use collector::{Collector, CollectorKind, CollectorResult};
pub use generation::GenerationTracker;
pub use keys::CollectorKey;
pub use locator::BinaryLocator;
pub use locator_collector::BinaryLocatorCollector;
pub use syscall_collector::SyscallBasedCollector;
pub use tx_parts_collector::TxPartsBasedCollector;
