//! The facts, each taken from the text of its source by a fixed rule.
//!
//! A source is handed over as it was read: the output of a command is trimmed
//! here, not by the caller.

use crate::info::{text_of, FactError, Facts, SystemInfo};
use crate::number::{parse_range, unsigned_of};
use crate::pattern::{first_capture, first_capture_of};
use crate::scan::{
    copy_range, field_range, find_containing, find_starting, to_chars, trim_range,
};
use crate::text::{
    first_containing, first_starting, index_of, is_space, lemma_first_containing_ignores_rest,
    lemma_index_of_unique, lemma_lines_after_feed, lemma_trimmed_twice, lines_of, occurs_at,
    second_field, trim, trimmed,
};
use vstd::prelude::*;

verus! {

/// The value that stands in `text` under `label`: of the first line in which
/// `label` stands, the second field that `:` divides it into, trimmed.
pub open spec fn labelled_of(text: Seq<char>, label: Seq<char>) -> Result<Seq<char>, FactError> {
    match first_containing(lines_of(text), label) {
        None => Err(FactError::NotFound),
        Some(line) => match second_field(line, ':') {
            None => Err(FactError::Parse),
            Some(field) => Ok(trimmed(field)),
        },
    }
}

/// A result in which a label that was not found counts as an absent value.
pub open spec fn absent_if_not_found<T>(r: Result<T, FactError>) -> Result<Option<T>, FactError> {
    match r {
        Ok(value) => Ok(Some(value)),
        Err(FactError::NotFound) => Ok(None),
        Err(e) => Err(e),
    }
}

/// The kernel release: what the command printed, trimmed.
pub open spec fn kernel_of(output: Seq<char>) -> Seq<char> {
    trimmed(output)
}

/// The time since boot: what the command printed, trimmed, without its first
/// three characters (`up `), trimmed again. There is none where fewer than
/// three characters were printed.
pub open spec fn uptime_of(output: Seq<char>) -> Option<Seq<char>> {
    let shown = trimmed(output);
    if shown.len() >= 3 {
        Some(trimmed(shown.skip(3)))
    } else {
        None
    }
}

/// User and host, each trimmed, with `@` between them.
pub open spec fn user_hostname_of(user: Seq<char>, host: Seq<char>) -> Seq<char> {
    trimmed(user) + seq!['@'] + trimmed(host)
}

/// A text of one line, made of a label, some padding, a colon and a value,
/// has under that label the value, trimmed: the label and the white space
/// round the value are taken off.
pub proof fn lemma_labelled_line(label: Seq<char>, padding: Seq<char>, value: Seq<char>)
    requires
        forall|i: int| 0 <= i < label.len() ==> label[i] != ':' && label[i] != '\n',
        forall|i: int| 0 <= i < padding.len() ==> padding[i] != ':' && padding[i] != '\n',
        forall|i: int| 0 <= i < value.len() ==> value[i] != ':' && value[i] != '\n',
    ensures
        labelled_of(label + padding + seq![':'] + value, label) == Ok::<Seq<char>, FactError>(
            trimmed(value),
        ),
{
    let line = label + padding + seq![':'] + value;
    let colon = (label.len() + padding.len()) as int;
    lemma_index_of_unique(line, '\n', line.len() as int);
    assert(line.subrange(0, label.len() as int) == label);
    assert(occurs_at(line, label, 0));
    assert(index_of(line, ':') == colon) by {
        lemma_index_of_unique(line, ':', colon);
    }
    let rest = line.skip(colon + 1);
    assert(rest == value);
    lemma_index_of_unique(value, ':', value.len() as int);
    assert(value.take(value.len() as int) == value);
}

/// Of several lines that show a label only the first counts: where a
/// listing that ends with a line feed shows `label`, text that follows the
/// listing changes nothing of the value under `label`.
pub proof fn lemma_first_label_wins(listing: Seq<char>, more: Seq<char>, label: Seq<char>)
    requires
        listing.len() > 0,
        listing.last() == '\n',
        labelled_of(listing, label) != Err::<Seq<char>, FactError>(FactError::NotFound),
    ensures
        labelled_of(listing + more, label) == labelled_of(listing, label),
{
    lemma_lines_after_feed(listing, more);
    lemma_first_containing_ignores_rest(lines_of(listing), lines_of(more), label);
}

/// A value that was found under a label has no white space at its ends.
pub proof fn lemma_labelled_is_trimmed(text: Seq<char>, label: Seq<char>)
    ensures
        labelled_of(text, label) matches Ok(value) ==> trimmed(value) == value,
{
    match first_containing(lines_of(text), label) {
        Some(line) => match second_field(line, ':') {
            Some(field) => {
                lemma_trimmed_twice(field);
            },
            None => {},
        },
        None => {},
    }
}

/// Output of the form `up `, then a duration that neither begins nor ends
/// with white space, shows that duration.
pub proof fn lemma_uptime_after_prefix(duration: Seq<char>)
    requires
        duration.len() > 0,
        !is_space(duration.first()),
        !is_space(duration.last()),
    ensures
        uptime_of(seq!['u', 'p', ' '] + duration) == Some(duration),
{
    assert((seq!['u', 'p', ' '] + duration).skip(3) == duration);
}

/// Puts the second field of `line`, trimmed, into `pointer`. A line without
/// `:` has no second field and leaves `pointer` as it is.
pub fn store_proc_info(pointer: &mut String, line: &String)
    ensures
        final(pointer)@ == match second_field(line@, ':') {
            Some(field) => trimmed(field),
            None => old(pointer)@,
        },
{
    let chars = to_chars(line.as_str());
    assert(chars@.subrange(0, chars@.len() as int) == chars@);
    match field_range(&chars, 0, chars.len(), ':') {
        Some((a, b)) => {
            let (c, d) = trim_range(&chars, a, b);
            *pointer = copy_range(line.as_str(), c, d);
        },
        None => {},
    }
}

/// The range of the value that stands in `chars` under `label`.
fn labelled_range(chars: &Vec<char>, label: &str) -> (r: Result<(usize, usize), FactError>)
    ensures
        match labelled_of(chars@, label@) {
            Ok(value) => r matches Ok((a, b)) && a <= b <= chars.len() && chars@.subrange(
                a as int,
                b as int,
            ) == value,
            Err(e) => r == Err::<(usize, usize), FactError>(e),
        },
{
    let marker = to_chars(label);
    assert(chars@.subrange(0, chars@.len() as int) == chars@);
    match find_containing(chars, 0, chars.len(), &marker) {
        None => Err(FactError::NotFound),
        Some((a, b)) => match field_range(chars, a, b, ':') {
            None => Err(FactError::Parse),
            Some((c, d)) => Ok(trim_range(chars, c, d)),
        },
    }
}

/// The value that stands in `text` under `label`.
pub fn labelled_value(text: &str, label: &str) -> (r: Result<String, FactError>)
    ensures
        match labelled_of(text@, label@) {
            Ok(value) => r matches Ok(s) && s@ == value,
            Err(e) => r == Err::<String, FactError>(e),
        },
{
    let chars = to_chars(text);
    match labelled_range(&chars, label) {
        Ok((a, b)) => Ok(copy_range(text, a, b)),
        Err(e) => Err(e),
    }
}

/// The value that stands in `text` under `label`, or nothing where no line
/// of `text` shows `label`.
pub fn optional_value(text: &str, label: &str) -> (r: Result<Option<String>, FactError>)
    ensures
        match absent_if_not_found(labelled_of(text@, label@)) {
            Ok(value) => r matches Ok(s) && text_of(s) == value,
            Err(e) => r == Err::<Option<String>, FactError>(e),
        },
{
    match labelled_value(text, label) {
        Ok(value) => Ok(Some(value)),
        Err(FactError::NotFound) => Ok(None),
        Err(e) => Err(e),
    }
}

/// Sets `kernel` to the kernel release that `release_output` shows.
pub fn get_kernel_info(kernel: &mut Option<String>, release_output: &str)
    ensures
        text_of(*final(kernel)) == Some(kernel_of(release_output@)),
{
    *kernel = Some(trim(release_output));
}

/// Sets `uptime` to the time since boot that `uptime_output` shows. Output
/// too short to hold one is a parse error and leaves `uptime` as it is.
pub fn get_uptime(uptime: &mut Option<String>, uptime_output: &str) -> (r: Result<(), FactError>)
    ensures
        match uptime_of(uptime_output@) {
            Some(shown) => r is Ok && text_of(*final(uptime)) == Some(shown),
            None => r == Err::<(), FactError>(FactError::Parse) && *final(uptime) == *old(uptime),
        },
{
    let chars = to_chars(uptime_output);
    assert(chars@.subrange(0, chars@.len() as int) == chars@);
    let (a, b) = trim_range(&chars, 0, chars.len());
    if b - a < 3 {
        return Err(FactError::Parse);
    }
    assert(chars@.subrange(a as int, b as int).skip(3) == chars@.subrange(a + 3, b as int));
    let (c, d) = trim_range(&chars, a + 3, b);
    *uptime = Some(copy_range(uptime_output, c, d));
    Ok(())
}

/// Sets `user_hostname` to the user and the host that the two outputs show.
pub fn get_user_hostname(user_hostname: &mut Option<String>, user_output: &str, host_output: &str)
    ensures
        text_of(*final(user_hostname)) == Some(user_hostname_of(user_output@, host_output@)),
{
    let mut joined = trim(user_output);
    let host = trim(host_output);
    proof {
        reveal_strlit("@");
    }
    joined.append("@");
    joined.append(host.as_str());
    *user_hostname = Some(joined);
}

/// The label of the processor's model in the processor listing.
pub const MODEL_LABEL: &'static str = "model name";

/// The label of the number of cores in the processor listing.
pub const CORES_LABEL: &'static str = "cpu cores";

/// The clock frequency in kilohertz: the one unsigned integer that the
/// frequency source holds, white space around it aside.
pub open spec fn frequency_khz_of(source: Seq<char>) -> Option<u32> {
    unsigned_of(trimmed(source))
}

/// A frequency in hertz, from kilohertz.
pub open spec fn hertz_of(khz: u32) -> u64 {
    (khz * 1000) as u64
}

/// A frequency in kilohertz, from hertz; what is over is left off.
pub open spec fn kilohertz_of(hz: u64) -> u64 {
    hz / 1000
}

/// Kilohertz turned into hertz and back are the same kilohertz.
pub proof fn lemma_kilohertz_of_hertz(khz: u32)
    ensures
        kilohertz_of(hertz_of(khz)) == khz,
{
}

/// What the processor listing and the frequency source say: the model, the
/// number of cores, and the frequency in hertz. Model and cores are absent
/// where the listing does not show their label. A labelled line without `:`
/// and a frequency that is no number are parse errors, looked for in this
/// order: model, cores, frequency.
pub open spec fn cpu_of(listing: Seq<char>, frequency: Seq<char>) -> Result<
    (Option<Seq<char>>, Option<Seq<char>>, u64),
    FactError,
> {
    match absent_if_not_found(labelled_of(listing, MODEL_LABEL@)) {
        Err(e) => Err(e),
        Ok(model) => match absent_if_not_found(labelled_of(listing, CORES_LABEL@)) {
            Err(e) => Err(e),
            Ok(cores) => match frequency_khz_of(frequency) {
                None => Err(FactError::Parse),
                Some(khz) => Ok((model, cores, hertz_of(khz))),
            },
        },
    }
}

/// A processor listing that does not show the label of the cores gives no
/// number of cores, and no error on that account: the other processor facts
/// are as they would be with the label shown.
pub proof fn lemma_missing_cores_are_absent(listing: Seq<char>, frequency: Seq<char>)
    requires
        first_containing(lines_of(listing), CORES_LABEL@) is None,
    ensures
        cpu_of(listing, frequency) matches Ok(facts) ==> facts.1 is None,
        cpu_of(listing, frequency) is Err ==> (absent_if_not_found(
            labelled_of(listing, MODEL_LABEL@),
        ) is Err || frequency_khz_of(frequency) is None),
{
}

/// The clock frequency in kilohertz that `source` holds.
pub fn frequency_khz(source: &str) -> (r: Result<u32, FactError>)
    ensures
        match frequency_khz_of(source@) {
            Some(khz) => r == Ok::<u32, FactError>(khz),
            None => r == Err::<u32, FactError>(FactError::Parse),
        },
{
    let chars = to_chars(source);
    assert(chars@.subrange(0, chars@.len() as int) == chars@);
    let (a, b) = trim_range(&chars, 0, chars.len());
    match parse_range(&chars, a, b) {
        Some(khz) => Ok(khz),
        None => Err(FactError::Parse),
    }
}

/// A frequency in hertz, from kilohertz.
pub fn khz_to_hz(khz: u32) -> (hz: u64)
    ensures
        hz == hertz_of(khz),
{
    let wide: u64 = khz as u64;
    wide * 1000
}

/// A frequency in kilohertz, from hertz.
pub fn hz_to_khz(hz: u64) -> (khz: u64)
    ensures
        khz == kilohertz_of(hz),
{
    hz / 1000
}

/// Fills the three processor facts of `info` from the processor listing and
/// the frequency source. On an error `info` stays as it is.
pub fn get_cpu_info(info: &mut SystemInfo, listing: &str, frequency: &str) -> (r: Result<
    (),
    FactError,
>)
    ensures
        match cpu_of(listing@, frequency@) {
            Ok((model, cores, hz)) => r is Ok && final(info)@ == (Facts {
                cpu_model: model,
                cpu_cores: cores,
                cpu_frequency_hz: Some(hz),
                ..old(info)@
            }),
            Err(e) => r == Err::<(), FactError>(e) && final(info)@ == old(info)@,
        },
{
    let chars = to_chars(listing);
    let model = match labelled_range(&chars, MODEL_LABEL) {
        Ok((a, b)) => Some(copy_range(listing, a, b)),
        Err(FactError::NotFound) => None,
        Err(e) => {
            return Err(e);
        },
    };
    let cores = match labelled_range(&chars, CORES_LABEL) {
        Ok((a, b)) => Some(copy_range(listing, a, b)),
        Err(FactError::NotFound) => None,
        Err(e) => {
            return Err(e);
        },
    };
    let khz = match frequency_khz(frequency) {
        Ok(khz) => khz,
        Err(e) => {
            return Err(e);
        },
    };
    info.cpu_model = model;
    info.cpu_cores = cores;
    info.cpu_frequency_hz = Some(khz_to_hz(khz));
    Ok(())
}

/// The label of the memory in all in the memory listing.
pub const TOTAL_LABEL: &'static str = "MemTotal";

/// The label of the memory that is free for use in the memory listing.
pub const AVAILABLE_LABEL: &'static str = "MemAvailable";

/// The number of kilobytes that a value of the memory listing writes: an
/// unsigned integer, then three characters for the unit (` kB`).
pub open spec fn kilobytes_of(value: Seq<char>) -> Option<u32> {
    if value.len() >= 3 {
        unsigned_of(value.take(value.len() - 3))
    } else {
        None
    }
}

/// The number of kilobytes that stands in the memory listing under `label`,
/// absent where the listing does not show `label`.
pub open spec fn kilobytes_under(listing: Seq<char>, label: Seq<char>) -> Result<
    Option<u32>,
    FactError,
> {
    match absent_if_not_found(labelled_of(listing, label)) {
        Err(e) => Err(e),
        Ok(None) => Ok(None),
        Ok(Some(value)) => match kilobytes_of(value) {
            None => Err(FactError::Parse),
            Some(kb) => Ok(Some(kb)),
        },
    }
}

/// Memory in use and memory in all, in kilobytes, as the memory listing has
/// them: the total stands under `MemTotal`, and what is in use is the total
/// less what stands under `MemAvailable`. More available than there is in
/// all is a parse error.
pub open spec fn memory_of(listing: Seq<char>) -> Result<(Option<u64>, Option<u64>), FactError> {
    match kilobytes_under(listing, TOTAL_LABEL@) {
        Err(e) => Err(e),
        Ok(total) => match kilobytes_under(listing, AVAILABLE_LABEL@) {
            Err(e) => Err(e),
            Ok(available) => match (total, available) {
                (Some(t), Some(a)) => if a <= t {
                    Ok((Some((t - a) as u64), Some(t as u64)))
                } else {
                    Err(FactError::Parse)
                },
                (Some(t), None) => Ok((None, Some(t as u64))),
                (None, _) => Ok((None, None)),
            },
        },
    }
}

/// The number of kilobytes that stands in `chars` under `label`.
fn kilobytes_in(chars: &Vec<char>, label: &str) -> (r: Result<Option<u32>, FactError>)
    ensures
        r == kilobytes_under(chars@, label@),
{
    match labelled_range(chars, label) {
        Err(FactError::NotFound) => Ok(None),
        Err(e) => Err(e),
        Ok((a, b)) => {
            if b - a < 3 {
                return Err(FactError::Parse);
            }
            assert(chars@.subrange(a as int, b as int).take(b - a - 3) == chars@.subrange(
                a as int,
                b - 3,
            ));
            match parse_range(chars, a, b - 3) {
                Some(kb) => Ok(Some(kb)),
                None => Err(FactError::Parse),
            }
        },
    }
}

/// Memory in use and memory in all, in kilobytes, from the memory listing.
pub fn memory_figures(listing: &str) -> (r: Result<(Option<u64>, Option<u64>), FactError>)
    ensures
        r == memory_of(listing@),
{
    let chars = to_chars(listing);
    let total = match kilobytes_in(&chars, TOTAL_LABEL) {
        Ok(total) => total,
        Err(e) => {
            return Err(e);
        },
    };
    let available = match kilobytes_in(&chars, AVAILABLE_LABEL) {
        Ok(available) => available,
        Err(e) => {
            return Err(e);
        },
    };
    match (total, available) {
        (Some(t), Some(a)) => {
            if a <= t {
                Ok((Some((t - a) as u64), Some(t as u64)))
            } else {
                Err(FactError::Parse)
            }
        },
        (Some(t), None) => Ok((None, Some(t as u64))),
        (None, _) => Ok((None, None)),
    }
}

/// Fills the two memory facts of `info` from the memory listing. On an
/// error `info` stays as it is.
pub fn get_memory_usage(info: &mut SystemInfo, listing: &str) -> (r: Result<(), FactError>)
    ensures
        match memory_of(listing@) {
            Ok((used, total)) => r is Ok && final(info)@ == (Facts {
                memory_used_kb: used,
                memory_total_kb: total,
                ..old(info)@
            }),
            Err(e) => r == Err::<(), FactError>(e) && final(info)@ == old(info)@,
        },
{
    match memory_figures(listing) {
        Ok((used, total)) => {
            info.memory_used_kb = used;
            info.memory_total_kb = total;
            Ok(())
        },
        Err(e) => Err(e),
    }
}

/// The words by which the bus listing marks a graphics adapter.
pub const ADAPTER_MARKER: &'static str = "VGA compatible controller";

/// The pattern of a bracket pair with something in it; group 1 is what
/// stands between the brackets.
pub const BRACKET_PATTERN: &'static str = "\\[([^\\]]+)\\]";

/// The line of the bus listing that names the graphics adapter: the first
/// in which the marker stands.
pub open spec fn adapter_line_of(listing: Seq<char>) -> Option<Seq<char>> {
    first_containing(lines_of(trimmed(listing)), ADAPTER_MARKER@)
}

/// The model of the graphics adapter: what the first bracket pair of the
/// adapter's line holds. It is absent where the listing names no adapter and
/// where the adapter's line has no bracket pair. A listing that names an
/// adapter gives `FactError::Pattern` where the bracket pattern is not
/// accepted; one that names none needs no pattern.
pub open spec fn gpu_of(listing: Seq<char>) -> Result<Option<Seq<char>>, FactError> {
    match adapter_line_of(listing) {
        None => Ok(None),
        Some(line) => first_capture_of(BRACKET_PATTERN@, line, 1),
    }
}

/// The line of the bus listing that names the graphics adapter.
fn adapter_line(listing: &str) -> (r: Option<String>)
    ensures
        text_of(r) == adapter_line_of(listing@),
{
    let chars = to_chars(listing);
    assert(chars@.subrange(0, chars@.len() as int) == chars@);
    let (a, b) = trim_range(&chars, 0, chars.len());
    let marker = to_chars(ADAPTER_MARKER);
    match find_containing(&chars, a, b, &marker) {
        Some((c, d)) => Some(copy_range(listing, c, d)),
        None => None,
    }
}

/// Sets `gpu` to the model of the graphics adapter that the bus listing
/// names, or to nothing where it names none or the adapter's line has no
/// bracket pair. On an error `gpu` stays as it is.
pub fn get_gpu_info(gpu: &mut Option<String>, listing: &str) -> (r: Result<(), FactError>)
    ensures
        match gpu_of(listing@) {
            Ok(model) => r is Ok && text_of(*final(gpu)) == model,
            Err(e) => r == Err::<(), FactError>(e) && *final(gpu) == *old(gpu),
        },
{
    match adapter_line(listing) {
        None => {
            *gpu = None;
            Ok(())
        },
        Some(line) => match first_capture(BRACKET_PATTERN, line.as_str(), 1) {
            Ok(found) => {
                *gpu = found;
                Ok(())
            },
            Err(e) => Err(e),
        },
    }
}

/// The key of the line of the release descriptor that names the system.
pub const NAME_KEY: &'static str = "PRETTY_NAME";

/// The pattern of a pair of double quotes; group 1 is what stands between
/// them, which may be nothing.
pub const QUOTE_PATTERN: &'static str = "\"([^\"]*)\"";

/// The line of the release descriptor that names the system: the first that
/// begins with the key.
pub open spec fn name_line_of(descriptor: Seq<char>) -> Option<Seq<char>> {
    first_starting(lines_of(trimmed(descriptor)), NAME_KEY@)
}

/// The name of the operating system with the architecture, from what was
/// found between the quotes of the name's line: the name, a space, and the
/// machine as the command printed it, trimmed. A line without a quoted text
/// is a parse error.
pub open spec fn named_os_of(found: Option<Seq<char>>, machine: Seq<char>) -> Result<
    Seq<char>,
    FactError,
> {
    match found {
        None => Err(FactError::Parse),
        Some(name) => Ok(name + seq![' '] + trimmed(machine)),
    }
}

/// The name of the operating system with the architecture. The name is what
/// the first pair of double quotes on the name's line holds. A descriptor
/// without the name's line gives `NotFound`; one with it gives
/// `FactError::Pattern` where the quote pattern is not accepted.
pub open spec fn os_of(descriptor: Seq<char>, machine: Seq<char>) -> Result<Seq<char>, FactError> {
    match name_line_of(descriptor) {
        None => Err(FactError::NotFound),
        Some(line) => match first_capture_of(QUOTE_PATTERN@, line, 1) {
            Err(e) => Err(e),
            Ok(found) => named_os_of(found, machine),
        },
    }
}

/// The line of the release descriptor that names the system.
fn name_line(descriptor: &str) -> (r: Option<String>)
    ensures
        text_of(r) == name_line_of(descriptor@),
{
    let chars = to_chars(descriptor);
    assert(chars@.subrange(0, chars@.len() as int) == chars@);
    let (a, b) = trim_range(&chars, 0, chars.len());
    let key = to_chars(NAME_KEY);
    match find_starting(&chars, a, b, &key) {
        Some((c, d)) => Some(copy_range(descriptor, c, d)),
        None => None,
    }
}

/// The name of the operating system with the architecture, from what was
/// found between the quotes of the name's line.
pub fn name_with_machine(found: Option<String>, machine_output: &str) -> (r: Result<
    String,
    FactError,
>)
    ensures
        match named_os_of(text_of(found), machine_output@) {
            Ok(name) => r matches Ok(s) && s@ == name,
            Err(e) => r == Err::<String, FactError>(e),
        },
{
    match found {
        None => Err(FactError::Parse),
        Some(name) => {
            let mut joined = name;
            let machine = trim(machine_output);
            proof {
                reveal_strlit(" ");
            }
            joined.append(" ");
            joined.append(machine.as_str());
            Ok(joined)
        },
    }
}

/// Sets `os` to the name of the operating system with the architecture. On
/// an error `os` stays as it is.
pub fn get_os(os: &mut Option<String>, descriptor: &str, machine_output: &str) -> (r: Result<
    (),
    FactError,
>)
    ensures
        match os_of(descriptor@, machine_output@) {
            Ok(name) => r is Ok && text_of(*final(os)) == Some(name),
            Err(e) => r == Err::<(), FactError>(e) && *final(os) == *old(os),
        },
{
    let line = match name_line(descriptor) {
        Some(line) => line,
        None => {
            return Err(FactError::NotFound);
        },
    };
    let found = match first_capture(QUOTE_PATTERN, line.as_str(), 1) {
        Ok(found) => found,
        Err(e) => {
            return Err(e);
        },
    };
    match name_with_machine(found, machine_output) {
        Ok(name) => {
            *os = Some(name);
            Ok(())
        },
        Err(e) => Err(e),
    }
}

} // verus!
