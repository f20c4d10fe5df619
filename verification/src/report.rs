//! The facts as text: one labelled line for each.
//!
//! The library holds no floating-point arithmetic. The clock frequency in
//! gigahertz is therefore written by the caller, from the frequency that the
//! record holds, and handed to the functions that show the processor.

use crate::info::{text_of, Facts, SystemInfo};
use crate::number::{decimal, decimal_of};
use vstd::prelude::*;

verus! {

/// What stands in place of an absent fact.
pub const ABSENT: &'static str = "N/A";

/// The line that parts the heading from the facts.
pub const RULE: &'static str = "---------------";

/// A fact as it is shown: itself, or the placeholder where it is absent.
pub open spec fn shown(value: Option<Seq<char>>) -> Seq<char> {
    match value {
        Some(text) => text,
        None => ABSENT@,
    }
}

/// A frequency as it is shown: the figure `gigahertz` that the caller wrote
/// for it, then the unit. Where the record holds no frequency the placeholder
/// is shown and `gigahertz` is left aside.
pub open spec fn frequency_text_of(hz: Option<u64>, gigahertz: Seq<char>) -> Seq<char> {
    match hz {
        Some(_) => gigahertz + "GHz"@,
        None => ABSENT@,
    }
}

/// The processor as it is shown: `model (cores) @ frequency`, each absent
/// part replaced by the placeholder, and the placeholder alone where all
/// three are absent.
pub open spec fn cpu_text_of(facts: Facts, gigahertz: Seq<char>) -> Seq<char> {
    if facts.cpu_model is None && facts.cpu_cores is None && facts.cpu_frequency_hz is None {
        ABSENT@
    } else {
        shown(facts.cpu_model) + " ("@ + shown(facts.cpu_cores) + ") @ "@ + frequency_text_of(
            facts.cpu_frequency_hz,
            gigahertz,
        )
    }
}

/// A number of kilobytes as it is shown: in whole megabytes of a thousand
/// kilobytes each, what is over left off.
pub open spec fn megabytes_text_of(kb: Option<u64>) -> Seq<char> {
    match kb {
        Some(kb) => decimal_of((kb / 1000) as nat) + " MB"@,
        None => ABSENT@,
    }
}

/// The memory as it is shown: `used / total`, and the placeholder alone
/// where both are absent.
pub open spec fn memory_text_of(facts: Facts) -> Seq<char> {
    if facts.memory_used_kb is None && facts.memory_total_kb is None {
        ABSENT@
    } else {
        megabytes_text_of(facts.memory_used_kb) + " / "@ + megabytes_text_of(
            facts.memory_total_kb,
        )
    }
}

/// The heading: user and host.
pub open spec fn heading_of(facts: Facts) -> Seq<char> {
    shown(facts.user_hostname)
}

/// The labelled facts in the order in which they are shown.
pub open spec fn entries_of(facts: Facts, gigahertz: Seq<char>) -> Seq<(Seq<char>, Seq<char>)> {
    seq![
        ("OS:"@, shown(facts.os)),
        ("Kernel:"@, shown(facts.kernel)),
        ("Uptime:"@, shown(facts.uptime)),
        ("CPU:"@, cpu_text_of(facts, gigahertz)),
        ("GPU:"@, shown(facts.gpu)),
        ("Memory:"@, memory_text_of(facts)),
    ]
}

/// One line of the report: the label, a space, the value.
pub open spec fn line_of(entry: (Seq<char>, Seq<char>)) -> Seq<char> {
    entry.0 + " "@ + entry.1
}

/// The whole report: the heading, the rule, and a line for each entry.
pub open spec fn report_of(facts: Facts, gigahertz: Seq<char>) -> Seq<Seq<char>> {
    seq![heading_of(facts), RULE@] + entries_of(facts, gigahertz).map_values(
        |entry: (Seq<char>, Seq<char>)| line_of(entry),
    )
}

/// A labelled fact.
#[derive(Clone, Debug, PartialEq, Eq)]
pub struct Entry {
    pub label: String,
    pub value: String,
}

impl View for Entry {
    type V = (Seq<char>, Seq<char>);

    open spec fn view(&self) -> (Seq<char>, Seq<char>) {
        (self.label@, self.value@)
    }
}

impl Entry {
    /// The entry as one line.
    pub fn line(&self) -> (s: String)
        ensures
            s@ == line_of(self@),
    {
        let mut s = self.label.clone();
        s.append(" ");
        s.append(self.value.as_str());
        s
    }
}

/// The text of a fact, or the placeholder.
fn show(value: &Option<String>) -> (s: String)
    ensures
        s@ == shown(text_of(*value)),
{
    match value {
        Some(text) => text.clone(),
        None => ABSENT.to_owned(),
    }
}

/// The frequency as it is shown: `gigahertz`, the figure that the caller
/// wrote for `hz`, with its unit, or the placeholder where there is no `hz`.
pub fn frequency_text(hz: Option<u64>, gigahertz: &str) -> (s: String)
    ensures
        s@ == frequency_text_of(hz, gigahertz@),
{
    match hz {
        Some(_) => {
            let mut s = gigahertz.to_owned();
            s.append("GHz");
            s
        },
        None => ABSENT.to_owned(),
    }
}

/// The processor as it is shown, with `gigahertz` for its frequency.
pub fn cpu_text(info: &SystemInfo, gigahertz: &str) -> (s: String)
    ensures
        s@ == cpu_text_of(info@, gigahertz@),
{
    if info.cpu_model.is_none() && info.cpu_cores.is_none() && info.cpu_frequency_hz.is_none() {
        return ABSENT.to_owned();
    }
    let mut s = show(&info.cpu_model);
    s.append(" (");
    s.append(show(&info.cpu_cores).as_str());
    s.append(") @ ");
    s.append(frequency_text(info.cpu_frequency_hz, gigahertz).as_str());
    s
}

/// A number of kilobytes in whole megabytes, or the placeholder.
pub fn megabytes_text(kb: Option<u64>) -> (s: String)
    ensures
        s@ == megabytes_text_of(kb),
{
    match kb {
        Some(kb) => {
            let mut s = decimal(kb / 1000);
            s.append(" MB");
            s
        },
        None => ABSENT.to_owned(),
    }
}

/// The memory as it is shown.
pub fn memory_text(info: &SystemInfo) -> (s: String)
    ensures
        s@ == memory_text_of(info@),
{
    if info.memory_used_kb.is_none() && info.memory_total_kb.is_none() {
        return ABSENT.to_owned();
    }
    let mut s = megabytes_text(info.memory_used_kb);
    s.append(" / ");
    s.append(megabytes_text(info.memory_total_kb).as_str());
    s
}

/// The heading of the report.
pub fn heading(info: &SystemInfo) -> (s: String)
    ensures
        s@ == heading_of(info@),
{
    show(&info.user_hostname)
}

/// An entry of `label` and `value`.
fn entry(label: &str, value: String) -> (e: Entry)
    ensures
        e@ == (label@, value@),
{
    Entry { label: label.to_owned(), value }
}

/// The labelled facts of `info` in the order in which they are shown, with
/// `gigahertz` for the frequency of the processor.
pub fn entries(info: &SystemInfo, gigahertz: &str) -> (list: Vec<Entry>)
    ensures
        list@.map_values(|e: Entry| e@) == entries_of(info@, gigahertz@),
{
    let mut list: Vec<Entry> = Vec::new();
    list.push(entry("OS:", show(&info.os)));
    list.push(entry("Kernel:", show(&info.kernel)));
    list.push(entry("Uptime:", show(&info.uptime)));
    list.push(entry("CPU:", cpu_text(info, gigahertz)));
    list.push(entry("GPU:", show(&info.gpu)));
    list.push(entry("Memory:", memory_text(info)));
    list
}

/// The whole report of `info`, line by line, with `gigahertz` for the
/// frequency of the processor.
pub fn report(info: &SystemInfo, gigahertz: &str) -> (lines: Vec<String>)
    ensures
        lines@.map_values(|s: String| s@) == report_of(info@, gigahertz@),
{
    let list = entries(info, gigahertz);
    let mut lines: Vec<String> = Vec::new();
    lines.push(heading(info));
    lines.push(RULE.to_owned());
    let mut i: usize = 0;
    assert(list@.len() == list@.map_values(|e: Entry| e@).len());
    while i < list.len()
        invariant
            i <= list.len() == 6,
            list@.map_values(|e: Entry| e@) == entries_of(info@, gigahertz@),
            lines@.len() == i + 2,
            lines@[0]@ == heading_of(info@),
            lines@[1]@ == RULE@,
            forall|j: int| 0 <= j < i ==> (#[trigger] lines@[j + 2])@ == line_of(list@[j]@),
        decreases list.len() - i,
    {
        lines.push(list[i].line());
        i = i + 1;
    }
    assert(lines@.map_values(|s: String| s@) =~= report_of(info@, gigahertz@)) by {
        let shown_lines = lines@.map_values(|s: String| s@);
        let wanted = report_of(info@, gigahertz@);
        let views = list@.map_values(|e: Entry| e@);
        assert forall|k: int| 0 <= k < shown_lines.len() implies shown_lines[k] == wanted[k] by {
            if k >= 2 {
                assert(lines@[(k - 2) + 2]@ == line_of(list@[k - 2]@));
            }
        }
    }
    lines
}

} // verus!
