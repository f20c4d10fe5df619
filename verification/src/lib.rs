//! System facts from text.
//!
//! The library turns the text of a handful of operating-system sources (the
//! processor and memory listings, the release descriptor, what a few commands
//! print) into a record of facts about the system, and the record into the
//! lines of a short report. It reads no file and starts no command: the
//! caller hands over the text. Every rule by which a fact is taken from its
//! source is a specification function over sequences of characters, and the
//! executable functions are proved to follow them.

pub mod collect;
pub mod facts;
pub mod info;
pub mod number;
pub mod pattern;
pub mod report;
mod scan;
pub mod text;

pub use collect::{collect, Sources};
pub use facts::{
    get_cpu_info, get_gpu_info, get_kernel_info, get_memory_usage, get_os, get_uptime,
    get_user_hostname, store_proc_info,
};
pub use info::{FactError, SystemInfo};
pub use report::{entries, heading, report, Entry};
