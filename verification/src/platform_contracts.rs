//! The platform and resource summaries handed to the user interface.

use vstd::prelude::*;
use crate::platform::{detect_operating_system, os_name, probe_view, trim_char, trim_char_chars, TargetOs};
use crate::text::{chars_of, first_two_parts, has_prefix, second_part, split_lines, str_starts_with, text_lines};

verus! {

/// The operating system, processor architecture and version shown to the user.
pub struct PlatformInfo {
    pub os: String,
    pub arch: Option<String>,
    pub version: Option<String>,
}

/// A lightweight resource summary.
pub struct SystemResources {
    pub memory_total: Option<u64>,
    pub memory_available: Option<u64>,
    pub cpu_cores: Option<usize>,
}

/// The value of the first of `lines` that starts with `PRETTY_NAME=`: the text between
/// its first and second `=`, with surrounding `"` trimmed.
pub open spec fn pretty_name_in(lines: Seq<Seq<char>>) -> Option<Seq<char>>
    decreases lines.len(),
{
    if lines.len() == 0 {
        None
    } else if has_prefix(lines[0], "PRETTY_NAME="@) {
        Some(trim_char(second_part(lines[0], '='), '"'))
    } else {
        pretty_name_in(lines.drop_first())
    }
}

/// The distribution's pretty name in the text of `/etc/os-release` (see `pretty_name_in`).
pub fn os_release_pretty_name(content: &str) -> (r: Option<String>)
    ensures
        probe_view(r) == pretty_name_in(text_lines(content@)),
{
    let lines = split_lines(content);
    let ghost ls = lines@.map_values(|l: String| l@);
    let mut i: usize = 0;
    assert(ls.subrange(0, ls.len() as int) =~= ls);
    while i < lines.len()
        invariant
            i <= lines@.len(),
            ls == lines@.map_values(|l: String| l@),
            ls == text_lines(content@),
            pretty_name_in(ls.subrange(i as int, ls.len() as int)) == pretty_name_in(text_lines(content@)),
        decreases lines@.len() - i,
    {
        let ghost rest = ls.subrange(i as int, ls.len() as int);
        assert(rest[0] == lines@[i as int]@);
        if str_starts_with(lines[i].as_str(), "PRETTY_NAME=") {
            let (_, value) = first_two_parts(lines[i].as_str(), '=');
            let chars = chars_of(value.as_str());
            return Some(trim_char_chars(&chars, '"'));
        }
        assert(rest.drop_first() =~= ls.subrange(i + 1, ls.len() as int));
        i = i + 1;
    }
    None
}

/// The platform summary for the build's operating system: its short name, the
/// architecture, and the version that was read (if any).
pub fn platform_summary(os: TargetOs, arch: &str, version: Option<String>) -> (r: PlatformInfo)
    ensures
        r.os@ == os_name(os),
        r.arch matches Some(a) && a@ == arch@,
        r.version == version,
{
    PlatformInfo { os: detect_operating_system(os), arch: Some(String::from_str(arch)), version }
}

/// The number of logical processors available (`num_cpus::get`); the crate documents
/// that it is at least one.
#[verifier::external_body]
fn logical_cpu_count() -> (r: usize)
    ensures
        r >= 1,
{
    num_cpus::get()
}

/// The resource summary: the processor count, memory figures left unknown.
pub fn system_resources() -> (r: SystemResources)
    ensures
        r.memory_total is None,
        r.memory_available is None,
        r.cpu_cores matches Some(n) && n >= 1,
{
    SystemResources { memory_total: None, memory_available: None, cpu_cores: Some(logical_cpu_count()) }
}

} // verus!
