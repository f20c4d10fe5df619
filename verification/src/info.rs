//! The record of system facts, and the ways in which gathering one can fail.

use vstd::prelude::*;

verus! {

/// Why a fact could not be taken from its source.
#[derive(Clone, Copy, Debug, PartialEq, Eq, Structural)]
pub enum FactError {
    /// The source never shows the label that the fact stands under.
    NotFound,
    /// The source has another shape than expected: a line without its
    /// delimiter, a number that is none, a value without quotes.
    Parse,
    /// A pattern of the library was turned down by the pattern matcher.
    Pattern,
}

/// The facts about one system. Each is there or absent by itself.
#[derive(Clone, Debug, PartialEq, Eq)]
pub struct SystemInfo {
    /// Name of the operating system, then the machine architecture.
    pub os: Option<String>,
    /// Kernel release.
    pub kernel: Option<String>,
    /// Time since boot, in words.
    pub uptime: Option<String>,
    /// Model name of the processor.
    pub cpu_model: Option<String>,
    /// Number of cores, as the source writes it.
    pub cpu_cores: Option<String>,
    /// Clock frequency in hertz.
    pub cpu_frequency_hz: Option<u64>,
    /// Model of the graphics adapter.
    pub gpu: Option<String>,
    /// Memory in use, in kilobytes.
    pub memory_used_kb: Option<u64>,
    /// Memory in all, in kilobytes.
    pub memory_total_kb: Option<u64>,
    /// User and host, as `user@host`.
    pub user_hostname: Option<String>,
}

/// A `SystemInfo` as plain values.
pub struct Facts {
    pub os: Option<Seq<char>>,
    pub kernel: Option<Seq<char>>,
    pub uptime: Option<Seq<char>>,
    pub cpu_model: Option<Seq<char>>,
    pub cpu_cores: Option<Seq<char>>,
    pub cpu_frequency_hz: Option<u64>,
    pub gpu: Option<Seq<char>>,
    pub memory_used_kb: Option<u64>,
    pub memory_total_kb: Option<u64>,
    pub user_hostname: Option<Seq<char>>,
}

/// The characters of an optional string.
pub open spec fn text_of(value: Option<String>) -> Option<Seq<char>> {
    match value {
        Some(s) => Some(s@),
        None => None,
    }
}

/// The record in which every fact is absent.
pub open spec fn no_facts() -> Facts {
    Facts {
        os: None,
        kernel: None,
        uptime: None,
        cpu_model: None,
        cpu_cores: None,
        cpu_frequency_hz: None,
        gpu: None,
        memory_used_kb: None,
        memory_total_kb: None,
        user_hostname: None,
    }
}

impl View for SystemInfo {
    type V = Facts;

    open spec fn view(&self) -> Facts {
        Facts {
            os: text_of(self.os),
            kernel: text_of(self.kernel),
            uptime: text_of(self.uptime),
            cpu_model: text_of(self.cpu_model),
            cpu_cores: text_of(self.cpu_cores),
            cpu_frequency_hz: self.cpu_frequency_hz,
            gpu: text_of(self.gpu),
            memory_used_kb: self.memory_used_kb,
            memory_total_kb: self.memory_total_kb,
            user_hostname: text_of(self.user_hostname),
        }
    }
}

impl SystemInfo {
    /// A record without any fact.
    pub fn new() -> (info: SystemInfo)
        ensures
            info@ == no_facts(),
    {
        SystemInfo {
            os: None,
            kernel: None,
            uptime: None,
            cpu_model: None,
            cpu_cores: None,
            cpu_frequency_hz: None,
            gpu: None,
            memory_used_kb: None,
            memory_total_kb: None,
            user_hostname: None,
        }
    }
}

} // verus!
