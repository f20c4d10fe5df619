//! All the facts at once, from the texts of all the sources.

use crate::facts::{
    cpu_of, get_cpu_info, get_gpu_info, get_kernel_info, get_memory_usage, get_os, get_uptime,
    get_user_hostname, gpu_of, kernel_of, memory_of, os_of, uptime_of, user_hostname_of,
};
use crate::info::{FactError, Facts, SystemInfo};
use vstd::prelude::*;

verus! {

/// The text of every source, as it was read.
#[derive(Clone, Debug, PartialEq, Eq)]
pub struct Sources {
    /// The processor listing.
    pub cpu_listing: String,
    /// The frequency source: one integer, in kilohertz.
    pub cpu_frequency: String,
    /// What the bus-listing command printed.
    pub bus_listing: String,
    /// What the kernel command printed for the release.
    pub kernel_release: String,
    /// The release descriptor.
    pub os_descriptor: String,
    /// What the kernel command printed for the machine.
    pub machine: String,
    /// What the uptime command printed.
    pub uptime: String,
    /// The memory listing.
    pub memory_listing: String,
    /// What the user command printed.
    pub user: String,
    /// What the host command printed.
    pub host: String,
}

/// `Sources` as plain values.
pub struct SourceTexts {
    pub cpu_listing: Seq<char>,
    pub cpu_frequency: Seq<char>,
    pub bus_listing: Seq<char>,
    pub kernel_release: Seq<char>,
    pub os_descriptor: Seq<char>,
    pub machine: Seq<char>,
    pub uptime: Seq<char>,
    pub memory_listing: Seq<char>,
    pub user: Seq<char>,
    pub host: Seq<char>,
}

impl View for Sources {
    type V = SourceTexts;

    open spec fn view(&self) -> SourceTexts {
        SourceTexts {
            cpu_listing: self.cpu_listing@,
            cpu_frequency: self.cpu_frequency@,
            bus_listing: self.bus_listing@,
            kernel_release: self.kernel_release@,
            os_descriptor: self.os_descriptor@,
            machine: self.machine@,
            uptime: self.uptime@,
            memory_listing: self.memory_listing@,
            user: self.user@,
            host: self.host@,
        }
    }
}

/// The record that the sources give, or the first error among those of the
/// processor, the graphics adapter, the system's name, the uptime and the
/// memory, in this order.
pub open spec fn collected_of(sources: SourceTexts) -> Result<Facts, FactError> {
    match cpu_of(sources.cpu_listing, sources.cpu_frequency) {
        Err(e) => Err(e),
        Ok((model, cores, hz)) => match gpu_of(sources.bus_listing) {
            Err(e) => Err(e),
            Ok(gpu) => match os_of(sources.os_descriptor, sources.machine) {
                Err(e) => Err(e),
                Ok(os) => match uptime_of(sources.uptime) {
                    None => Err(FactError::Parse),
                    Some(uptime) => match memory_of(sources.memory_listing) {
                        Err(e) => Err(e),
                        Ok((used, total)) => Ok(
                            Facts {
                                os: Some(os),
                                kernel: Some(kernel_of(sources.kernel_release)),
                                uptime: Some(uptime),
                                cpu_model: model,
                                cpu_cores: cores,
                                cpu_frequency_hz: Some(hz),
                                gpu,
                                memory_used_kb: used,
                                memory_total_kb: total,
                                user_hostname: Some(user_hostname_of(sources.user, sources.host)),
                            },
                        ),
                    },
                },
            },
        },
    }
}

/// What `collect` hands out for `sources`: the record that `collected_of`
/// gives, or its error.
pub open spec fn handed_out(sources: SourceTexts, r: Result<SystemInfo, FactError>) -> bool {
    match collected_of(sources) {
        Ok(facts) => r matches Ok(info) && info@ == facts,
        Err(e) => r == Err::<SystemInfo, FactError>(e),
    }
}

/// Gathering again from sources that have not changed gives the same again:
/// two records that `collect` hands out for equal sources are equal, an error
/// is followed by the same error, and never a record by an error.
pub proof fn lemma_collect_repeats(
    sources: Sources,
    again: Sources,
    first: Result<SystemInfo, FactError>,
    second: Result<SystemInfo, FactError>,
)
    requires
        sources@ == again@,
        handed_out(sources@, first),
        handed_out(again@, second),
    ensures
        first is Ok <==> second is Ok,
        first matches Ok(a) ==> second matches Ok(b) && a@ == b@,
        first matches Err(a) ==> second == Err::<SystemInfo, FactError>(a),
{
}

/// Gathers every fact from `sources`, in this order: processor, graphics
/// adapter, kernel, system name, uptime, memory, user and host. The first
/// error ends the gathering and is handed out.
pub fn collect(sources: &Sources) -> (r: Result<SystemInfo, FactError>)
    ensures
        match collected_of(sources@) {
            Ok(facts) => r matches Ok(info) && info@ == facts,
            Err(e) => r == Err::<SystemInfo, FactError>(e),
        },
{
    let mut info = SystemInfo::new();
    match get_cpu_info(&mut info, sources.cpu_listing.as_str(), sources.cpu_frequency.as_str()) {
        Err(e) => {
            return Err(e);
        },
        Ok(()) => {},
    }
    match get_gpu_info(&mut info.gpu, sources.bus_listing.as_str()) {
        Err(e) => {
            return Err(e);
        },
        Ok(()) => {},
    }
    get_kernel_info(&mut info.kernel, sources.kernel_release.as_str());
    match get_os(&mut info.os, sources.os_descriptor.as_str(), sources.machine.as_str()) {
        Err(e) => {
            return Err(e);
        },
        Ok(()) => {},
    }
    match get_uptime(&mut info.uptime, sources.uptime.as_str()) {
        Err(e) => {
            return Err(e);
        },
        Ok(()) => {},
    }
    match get_memory_usage(&mut info, sources.memory_listing.as_str()) {
        Err(e) => {
            return Err(e);
        },
        Ok(()) => {},
    }
    get_user_hostname(&mut info.user_hostname, sources.user.as_str(), sources.host.as_str());
    Ok(info)
}

} // verus!
