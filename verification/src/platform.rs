//! Platform description: the operating system the application was built for, its
//! display name, and facts read from the system's release files.

use vstd::prelude::*;
use crate::hf_cache::KeyedStore;
use crate::text::{
    chars_of, has_prefix, push_str, replace_all, split_lines, str_replace, str_starts_with, string_from_range,
    text_lines,
};

verus! {

/// The operating system targeted by the build.
#[derive(Debug, Clone, Copy, PartialEq, Eq, Structural)]
pub enum TargetOs {
    Windows,
    Linux,
    Other,
}

/// The short name of an operating system.
pub open spec fn os_name(os: TargetOs) -> Seq<char> {
    match os {
        TargetOs::Windows => "windows"@,
        TargetOs::Linux => "linux"@,
        TargetOs::Other => "unknown"@,
    }
}

/// The platform family of an operating system.
pub open spec fn os_family(os: TargetOs) -> Seq<char> {
    match os {
        TargetOs::Windows => "windows"@,
        TargetOs::Linux => "unix"@,
        TargetOs::Other => "unknown"@,
    }
}

/// The icon shown for an operating system.
pub open spec fn os_icon(os: TargetOs) -> Seq<char> {
    match os {
        TargetOs::Windows => "🪟"@,
        TargetOs::Linux => "🐧"@,
        TargetOs::Other => "💻"@,
    }
}

/// The operating system's short name: `windows`, `linux` or `unknown`.
pub fn detect_operating_system(os: TargetOs) -> (r: String)
    ensures
        r@ == os_name(os),
{
    match os {
        TargetOs::Windows => String::from_str("windows"),
        TargetOs::Linux => String::from_str("linux"),
        TargetOs::Other => String::from_str("unknown"),
    }
}

/// The platform family: `windows`, `unix` or `unknown`.
pub fn get_platform_family(os: TargetOs) -> (r: String)
    ensures
        r@ == os_family(os),
{
    match os {
        TargetOs::Windows => String::from_str("windows"),
        TargetOs::Linux => String::from_str("unix"),
        TargetOs::Other => String::from_str("unknown"),
    }
}

/// Whether the platform is Windows.
pub fn is_windows(os: TargetOs) -> (r: bool)
    ensures
        r == (os == TargetOs::Windows),
{
    os == TargetOs::Windows
}

/// Whether the platform is Linux.
pub fn is_linux(os: TargetOs) -> (r: bool)
    ensures
        r == (os == TargetOs::Linux),
{
    os == TargetOs::Linux
}

/// Law: the flags agree with the short name, which is one of three values.
pub proof fn law_os_flags_consistent(os: TargetOs)
    ensures
        (os_name(os) == "windows"@) == (os == TargetOs::Windows),
        (os_name(os) == "linux"@) == (os == TargetOs::Linux),
        os_name(os) == "windows"@ || os_name(os) == "linux"@ || os_name(os) == "unknown"@,
{
    reveal_strlit("windows");
    reveal_strlit("linux");
    reveal_strlit("unknown");
    assert("windows"@[0] != "linux"@[0]);
    assert("windows"@[0] != "unknown"@[0]);
    assert("linux"@[0] != "unknown"@[0]);
}

/// The display name: `Windows <version>` (or `Windows`), the Linux distribution's
/// name (or `Linux`), or `Unknown`. `probe` is the version or distribution read from
/// the system, when it could be read.
pub open spec fn display_name_of(os: TargetOs, probe: Option<Seq<char>>) -> Seq<char> {
    match os {
        TargetOs::Windows => match probe {
            Some(v) => "Windows "@ + v,
            None => "Windows"@,
        },
        TargetOs::Linux => match probe {
            Some(d) => d,
            None => "Linux"@,
        },
        TargetOs::Other => "Unknown"@,
    }
}

/// The text of an optional string.
pub open spec fn probe_view(o: Option<String>) -> Option<Seq<char>> {
    match o {
        Some(s) => Some(s@),
        None => None,
    }
}

/// A display name for the platform (see `display_name_of`).
pub fn get_platform_display_name(os: TargetOs, probe: Option<String>) -> (r: String)
    ensures
        r@ == display_name_of(os, probe_view(probe)),
{
    match os {
        TargetOs::Windows => match probe {
            Some(v) => {
                let mut r = String::from_str("Windows ");
                push_str(&mut r, v.as_str());
                r
            },
            None => String::from_str("Windows"),
        },
        TargetOs::Linux => match probe {
            Some(d) => d,
            None => String::from_str("Linux"),
        },
        TargetOs::Other => String::from_str("Unknown"),
    }
}

/// An icon for the platform.
pub fn get_platform_icon(os: TargetOs) -> (r: String)
    ensures
        r@ == os_icon(os),
{
    match os {
        TargetOs::Windows => String::from_str("🪟"),
        TargetOs::Linux => String::from_str("🐧"),
        TargetOs::Other => String::from_str("💻"),
    }
}

/// The Windows version label built from the registry's product name and release id.
pub fn windows_version_label(product_name: &str, release_id: &str) -> (r: String)
    ensures
        r@ == product_name@ + " (Build "@ + release_id@ + ")"@,
{
    let mut r = String::from_str(product_name);
    push_str(&mut r, " (Build ");
    push_str(&mut r, release_id);
    push_str(&mut r, ")");
    r
}

/// `s` without any leading or trailing `c`.
pub open spec fn trim_char(s: Seq<char>, c: char) -> Seq<char> {
    let start = leading_count(s, c);
    let end = s.len() - trailing_count(s.subrange(start as int, s.len() as int), c);
    s.subrange(start as int, end)
}

/// How many times `c` repeats at the start of `s`.
pub open spec fn leading_count(s: Seq<char>, c: char) -> nat
    decreases s.len(),
{
    if s.len() > 0 && s[0] == c {
        1 + leading_count(s.drop_first(), c)
    } else {
        0
    }
}

/// How many times `c` repeats at the end of `s`.
pub open spec fn trailing_count(s: Seq<char>, c: char) -> nat
    decreases s.len(),
{
    if s.len() > 0 && s.last() == c {
        1 + trailing_count(s.drop_last(), c)
    } else {
        0
    }
}

proof fn lemma_leading_count_exact(s: Seq<char>, c: char, n: nat)
    requires
        n <= s.len(),
        forall|k: int| 0 <= k < n ==> s[k] == c,
        n < s.len() ==> s[n as int] != c,
    ensures
        leading_count(s, c) == n,
    decreases n,
{
    if n > 0 {
        lemma_leading_count_exact(s.drop_first(), c, (n - 1) as nat);
    }
}

proof fn lemma_trailing_count_exact(s: Seq<char>, c: char, n: nat)
    requires
        n <= s.len(),
        forall|k: int| s.len() - n <= k < s.len() ==> s[k] == c,
        n < s.len() ==> s[s.len() - n - 1] != c,
    ensures
        trailing_count(s, c) == n,
    decreases n,
{
    if n > 0 {
        lemma_trailing_count_exact(s.drop_last(), c, (n - 1) as nat);
    }
}

/// `v` without any leading or trailing `c` (`str::trim_matches` with one character).
pub(crate) fn trim_char_chars(v: &Vec<char>, c: char) -> (r: String)
    ensures
        r@ == trim_char(v@, c),
{
    let n = v.len();
    let mut start: usize = 0;
    while start < n && v[start] == c
        invariant
            start <= n,
            n == v@.len(),
            forall|k: int| 0 <= k < start ==> v@[k] == c,
        decreases n - start,
    {
        start = start + 1;
    }
    proof {
        lemma_leading_count_exact(v@, c, start as nat);
    }
    let mut end: usize = n;
    while end > start && v[end - 1] == c
        invariant
            start <= end <= n,
            n == v@.len(),
            forall|k: int| end <= k < n ==> v@[k] == c,
        decreases end,
    {
        end = end - 1;
    }
    proof {
        let rest = v@.subrange(start as int, n as int);
        lemma_trailing_count_exact(rest, c, (n - end) as nat);
    }
    string_from_range(v, start, end)
}

/// The value of the first line of `content` that starts with `key`: the line with every
/// occurrence of `key` removed and surrounding `"` trimmed.
pub open spec fn release_value(content: Seq<char>, key: Seq<char>) -> Option<Seq<char>> {
    first_value(text_lines(content), key)
}

/// The value of the first of `lines` that starts with `key`.
pub open spec fn first_value(lines: Seq<Seq<char>>, key: Seq<char>) -> Option<Seq<char>>
    decreases lines.len(),
{
    if lines.len() == 0 {
        None
    } else if has_prefix(lines[0], key) {
        Some(trim_char(replace_all(lines[0], key, Seq::empty()), '"'))
    } else {
        first_value(lines.drop_first(), key)
    }
}

/// Reads a `KEY=value` entry of a release file such as `/etc/os-release`; `key` includes
/// the `=` and must not be empty.
pub fn parse_release_value(content: &str, key: &str) -> (r: Option<String>)
    requires
        key@.len() > 0,
    ensures
        probe_view(r) == release_value(content@, key@),
{
    let lines = split_lines(content);
    let ghost ls = lines@.map_values(|l: String| l@);
    let mut i: usize = 0;
    assert(ls.subrange(0, ls.len() as int) =~= ls);
    while i < lines.len()
        invariant
            i <= lines@.len(),
            key@.len() > 0,
            ls == lines@.map_values(|l: String| l@),
            ls == text_lines(content@),
            first_value(ls.subrange(i as int, ls.len() as int), key@) == release_value(content@, key@),
        decreases lines@.len() - i,
    {
        let ghost rest = ls.subrange(i as int, ls.len() as int);
        assert(rest[0] == lines@[i as int]@);
        if str_starts_with(lines[i].as_str(), key) {
            proof {
                reveal_strlit("");
                assert(""@ =~= Seq::<char>::empty());
            }
            let stripped = str_replace(lines[i].as_str(), key, "");
            let sv = chars_of(stripped.as_str());
            return Some(trim_char_chars(&sv, '"'));
        }
        assert(rest.drop_first() =~= ls.subrange(i + 1, ls.len() as int));
        i = i + 1;
    }
    None
}

/// Whether `p` occurs in `s` at position `i`.
pub open spec fn text_at(s: Seq<char>, p: Seq<char>, i: int) -> bool {
    0 <= i <= s.len() - p.len() && s.subrange(i, i + p.len()) == p
}

/// Whether `s` contains `p` somewhere.
pub open spec fn contains_text(s: Seq<char>, p: Seq<char>) -> bool {
    exists|i: int| #[trigger] text_at(s, p, i)
}

/// Whether `s` contains `p`.
pub(crate) fn str_contains(s: &str, p: &str) -> (r: bool)
    ensures
        r == contains_text(s@, p@),
{
    let v = chars_of(s);
    let pv = chars_of(p);
    let n = v.len();
    let m = pv.len();
    if m > n {
        assert forall|k: int| !#[trigger] text_at(s@, p@, k) by {}
        return false;
    }
    if m == 0 {
        assert(s@.subrange(0, 0) =~= p@);
        assert(text_at(s@, p@, 0));
        return true;
    }
    let mut i: usize = 0;
    while i < n - m + 1
        invariant
            0 < m <= n,
            n == v@.len(),
            m == pv@.len(),
            v@ == s@,
            pv@ == p@,
            forall|k: int| 0 <= k < i ==> !#[trigger] text_at(v@, pv@, k),
        decreases n - m + 1 - i,
    {
        assert(v@.subrange(i as int, v@.len() as int).subrange(0, pv@.len() as int) =~= v@.subrange(
            i as int,
            i + pv@.len(),
        ));
        if crate::text::occurs_at(&v, i, &pv) {
            assert(text_at(v@, pv@, i as int));
            return true;
        }
        i = i + 1;
    }
    assert forall|k: int| !#[trigger] text_at(v@, pv@, k) by {
        if 0 <= k && k >= i {
            assert(k + pv@.len() > v@.len());
        }
    }
    false
}

/// Whether a control-group line names a container runtime (Docker, LXC or Kubernetes).
pub open spec fn names_container(line: Seq<char>) -> bool {
    contains_text(line, "docker"@) || contains_text(line, "lxc"@) || contains_text(line, "kubepods"@)
}

/// Whether some line of a control-group listing names a container runtime.
pub open spec fn cgroup_in_container(content: Seq<char>) -> bool {
    exists|i: int| 0 <= i < text_lines(content).len() && #[trigger] names_container(text_lines(content)[i])
}

/// Whether the control groups of process 1 (`/proc/1/cgroup`) show a container
/// (Docker, LXC or Kubernetes); `None` when they could not be read.
pub fn is_running_in_container(cgroup: Option<&str>) -> (r: bool)
    ensures
        r == match cgroup {
            Some(c) => cgroup_in_container(c@),
            None => false,
        },
{
    match cgroup {
        None => false,
        Some(c) => {
            let lines = split_lines(c);
            let ghost ls = lines@.map_values(|l: String| l@);
            let mut i: usize = 0;
            while i < lines.len()
                invariant
                    i <= lines@.len(),
                    cgroup == Some(c),
                    ls == lines@.map_values(|l: String| l@),
                    ls == text_lines(c@),
                    forall|k: int| 0 <= k < i ==> !#[trigger] names_container(ls[k]),
                decreases lines@.len() - i,
            {
                let line = lines[i].as_str();
                assert(ls[i as int] == lines@[i as int]@);
                if str_contains(line, "docker") || str_contains(line, "lxc") || str_contains(line, "kubepods") {
                    assert(names_container(text_lines(c@)[i as int]));
                    return true;
                }
                i = i + 1;
            }
            false
        },
    }
}

/// The terminal shown: `TERM` when set and not empty; otherwise on Windows `Windows
/// Terminal` inside a session (`SESSIONNAME` not empty) or `Command Prompt`; elsewhere
/// `Unknown Terminal`.
pub open spec fn terminal_of(os: TargetOs, term: Option<Seq<char>>, session: Option<Seq<char>>) -> Seq<char> {
    if term is Some && term->0.len() > 0 {
        term->0
    } else if os == TargetOs::Windows {
        if session is Some && session->0.len() > 0 {
            "Windows Terminal"@
        } else {
            "Command Prompt"@
        }
    } else {
        "Unknown Terminal"@
    }
}

/// Terminal information for display (see `terminal_of`); `term` and `session` are the
/// `TERM` and `SESSIONNAME` environment variables.
pub fn get_terminal_info(os: TargetOs, term: Option<String>, session: Option<String>) -> (r: String)
    ensures
        r@ == terminal_of(os, probe_view(term), probe_view(session)),
{
    if let Some(t) = term {
        if t.as_str().unicode_len() > 0 {
            return t;
        }
    }
    if os == TargetOs::Windows {
        if let Some(s) = session {
            if s.as_str().unicode_len() > 0 {
                return String::from_str("Windows Terminal");
            }
        }
        String::from_str("Command Prompt")
    } else {
        String::from_str("Unknown Terminal")
    }
}

/// The user's shell: `COMSPEC` (else `cmd.exe`) on Windows, `SHELL` (else `unknown`)
/// elsewhere; `shell_var` is the variable read for the platform.
pub fn get_user_shell(os: TargetOs, shell_var: Option<String>) -> (r: String)
    ensures
        r@ == match shell_var {
            Some(s) => s@,
            None => if os == TargetOs::Windows {
                "cmd.exe"@
            } else {
                "unknown"@
            },
        },
{
    match shell_var {
        Some(s) => s,
        None => if os == TargetOs::Windows {
            String::from_str("cmd.exe")
        } else {
            String::from_str("unknown")
        },
    }
}

/// Detailed platform facts by name.
pub struct PlatformInfo {
    pub details: KeyedStore<String>,
}

/// The facts recorded about a platform: short name, family, display name, icon and
/// architecture, plus the version (Windows) or distribution (Linux) when it was read.
pub open spec fn platform_details(os: TargetOs, probe: Option<Seq<char>>, arch: Seq<char>) -> Map<
    Seq<char>,
    Seq<char>,
> {
    let base = Map::<Seq<char>, Seq<char>>::empty().insert("os"@, os_name(os)).insert(
        "family"@,
        os_family(os),
    ).insert("display_name"@, display_name_of(os, probe)).insert("icon"@, os_icon(os)).insert(
        "architecture"@,
        arch,
    );
    match (os, probe) {
        (TargetOs::Windows, Some(v)) => base.insert("version"@, v),
        (TargetOs::Linux, Some(d)) => base.insert("distribution"@, d),
        _ => base,
    }
}

/// The text of stored strings.
pub open spec fn text_map(m: Map<Seq<char>, String>) -> Map<Seq<char>, Seq<char>> {
    Map::new(|k: Seq<char>| m.contains_key(k), |k: Seq<char>| m[k]@)
}

impl PlatformInfo {
    /// The stored fact `key`.
    fn detail(&self, key: &str) -> (r: Option<&str>)
        ensures
            match r {
                Some(v) => text_map(self.details.view()).contains_key(key@) && v@ == text_map(
                    self.details.view(),
                )[key@],
                None => !text_map(self.details.view()).contains_key(key@),
            },
    {
        match self.details.get(key) {
            Some(v) => Some(v.as_str()),
            None => None,
        }
    }

    /// The operating system's short name.
    pub fn os(&self) -> (r: Option<&str>)
        ensures
            match r {
                Some(v) => text_map(self.details.view()).contains_key("os"@) && v@ == text_map(
                    self.details.view(),
                )["os"@],
                None => !text_map(self.details.view()).contains_key("os"@),
            },
    {
        self.detail("os")
    }

    /// The platform family.
    pub fn family(&self) -> (r: Option<&str>)
        ensures
            match r {
                Some(v) => text_map(self.details.view()).contains_key("family"@) && v@ == text_map(
                    self.details.view(),
                )["family"@],
                None => !text_map(self.details.view()).contains_key("family"@),
            },
    {
        self.detail("family")
    }

    /// The display name.
    pub fn display_name(&self) -> (r: Option<&str>)
        ensures
            match r {
                Some(v) => text_map(self.details.view()).contains_key("display_name"@) && v@ == text_map(
                    self.details.view(),
                )["display_name"@],
                None => !text_map(self.details.view()).contains_key("display_name"@),
            },
    {
        self.detail("display_name")
    }

    /// The platform icon.
    pub fn icon(&self) -> (r: Option<&str>)
        ensures
            match r {
                Some(v) => text_map(self.details.view()).contains_key("icon"@) && v@ == text_map(
                    self.details.view(),
                )["icon"@],
                None => !text_map(self.details.view()).contains_key("icon"@),
            },
    {
        self.detail("icon")
    }

    /// The processor architecture.
    pub fn architecture(&self) -> (r: Option<&str>)
        ensures
            match r {
                Some(v) => text_map(self.details.view()).contains_key("architecture"@) && v@ == text_map(
                    self.details.view(),
                )["architecture"@],
                None => !text_map(self.details.view()).contains_key("architecture"@),
            },
    {
        self.detail("architecture")
    }
}

/// Detailed platform information for the build's operating system, given the version
/// or distribution read from the system (if any) and the processor architecture.
pub fn get_platform_info_detailed(os: TargetOs, probe: Option<String>, arch: &str) -> (r: PlatformInfo)
    ensures
        text_map(r.details.view()) == platform_details(os, probe_view(probe), arch@),
{
    let ghost pv = probe_view(probe);
    let mut details: KeyedStore<String> = KeyedStore::new();
    let extra = match &probe {
        Some(p) => Some(p.clone()),
        None => None,
    };
    details.insert(String::from_str("os"), detect_operating_system(os));
    details.insert(String::from_str("family"), get_platform_family(os));
    details.insert(String::from_str("display_name"), get_platform_display_name(os, probe));
    details.insert(String::from_str("icon"), get_platform_icon(os));
    details.insert(String::from_str("architecture"), String::from_str(arch));
    match (os, extra) {
        (TargetOs::Windows, Some(v)) => {
            details.insert(String::from_str("version"), v);
        },
        (TargetOs::Linux, Some(d)) => {
            details.insert(String::from_str("distribution"), d);
        },
        _ => {},
    }
    let r = PlatformInfo { details };
    assert(text_map(r.details.view()) =~= platform_details(os, pv, arch@));
    r
}

} // verus!
