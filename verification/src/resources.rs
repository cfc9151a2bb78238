//! Human-readable figures for the system resources panel: byte sizes and uptimes.

use vstd::prelude::*;
use crate::text::{decimal, digit_char, digit_to_char, push_char, push_decimal, push_str};

verus! {

/// `1024` to the power `k`.
pub open spec fn pow1024(k: nat) -> nat
    decreases k,
{
    if k == 0 {
        1
    } else {
        1024 * pow1024((k - 1) as nat)
    }
}

/// The unit a byte count is shown in: starting from unit `k` (B, KB, MB, GB, TB, PB),
/// move up while the count is at least 1024 of the next unit, up to PB.
pub open spec fn unit_from(bytes: nat, k: nat) -> nat
    decreases 5 - k,
{
    if k < 5 && bytes >= pow1024(k + 1) {
        unit_from(bytes, k + 1)
    } else {
        k
    }
}

/// The unit index for `bytes` (0 for B up to 5 for PB).
pub open spec fn unit_index(bytes: nat) -> nat {
    unit_from(bytes, 0)
}

/// The name of unit `k`.
pub open spec fn unit_name(k: nat) -> Seq<char> {
    if k == 0 {
        "B"@
    } else if k == 1 {
        "KB"@
    } else if k == 2 {
        "MB"@
    } else if k == 3 {
        "GB"@
    } else if k == 4 {
        "TB"@
    } else {
        "PB"@
    }
}

/// `bytes / d` in tenths, rounded to the nearest tenth with ties to the even tenth.
pub open spec fn rounded_tenths(bytes: nat, d: nat) -> nat {
    let q = (bytes * 10) / d;
    let r = (bytes * 10) % d;
    if 2 * r > d || (2 * r == d && q % 2 == 1) {
        q + 1
    } else {
        q
    }
}

/// A byte count as text: whole bytes as `"<n> B"`, larger counts with one decimal in
/// the largest unit (up to PB) of which there is at least one, e.g. `"1.5 KB"`.
pub open spec fn bytes_text(bytes: nat) -> Seq<char> {
    let k = unit_index(bytes);
    if k == 0 {
        decimal(bytes) + " B"@
    } else {
        let t = rounded_tenths(bytes, pow1024(k));
        decimal(t / 10) + "."@ + seq![digit_char(t % 10)] + " "@ + unit_name(k)
    }
}

proof fn lemma_pow1024_values()
    ensures
        pow1024(0) == 1,
        pow1024(1) == 1024,
        pow1024(2) == 1048576,
        pow1024(3) == 1073741824,
        pow1024(4) == 1099511627776,
        pow1024(5) == 1125899906842624,
{
    reveal_with_fuel(pow1024, 6);
}

/// The name of unit `k` (at most 5).
fn unit_label(k: usize) -> (r: &'static str)
    requires
        k <= 5,
    ensures
        r@ == unit_name(k as nat),
{
    if k == 0 {
        "B"
    } else if k == 1 {
        "KB"
    } else if k == 2 {
        "MB"
    } else if k == 3 {
        "GB"
    } else if k == 4 {
        "TB"
    } else {
        "PB"
    }
}

/// Formats a byte count for display (see `bytes_text`).
pub fn format_bytes(bytes: u64) -> (r: String)
    ensures
        r@ == bytes_text(bytes as nat),
{
    proof {
        lemma_pow1024_values();
    }
    let b: u128 = bytes as u128;
    let mut k: usize = 0;
    let mut d: u128 = 1;
    while k < 5 && b >= d * 1024
        invariant
            k <= 5,
            d == pow1024(k as nat),
            b == bytes,
            unit_from(bytes as nat, 0) == unit_from(bytes as nat, k as nat),
            pow1024(0) == 1,
            pow1024(1) == 1024,
            pow1024(2) == 1048576,
            pow1024(3) == 1073741824,
            pow1024(4) == 1099511627776,
            pow1024(5) == 1125899906842624,
        decreases 5 - k,
    {
        d = d * 1024;
        k = k + 1;
    }
    assert(unit_index(bytes as nat) == k);
    if k == 0 {
        let mut r = String::new();
        push_decimal(&mut r, bytes);
        push_str(&mut r, " B");
        return r;
    }
    let q: u128 = (b * 10) / d;
    let rem: u128 = (b * 10) % d;
    let t: u128 = if 2 * rem > d || (2 * rem == d && q % 2 == 1) {
        q + 1
    } else {
        q
    };
    assert(t == rounded_tenths(bytes as nat, d as nat));
    let ghost bt: int = b * 10;
    assert(q * d <= bt) by (nonlinear_arith)
        requires
            q == bt / (d as int),
            d > 0,
    ;
    assert(q * 1024 <= q * d) by (nonlinear_arith)
        requires
            d >= 1024,
    ;
    assert(t < 0x1_0000_0000_0000_0000);
    let t64: u64 = t as u64;
    let mut r = String::new();
    push_decimal(&mut r, t64 / 10);
    push_str(&mut r, ".");
    let c = digit_to_char(t64 % 10);
    push_char(&mut r, c);
    push_str(&mut r, " ");
    push_str(&mut r, unit_label(k));
    assert(r@ =~= bytes_text(bytes as nat));
    r
}

/// An uptime as text: `"<d>d <h>h <m>m"` with whole days, `"<h>h <m>m"` with whole
/// hours, `"<m>m"` with whole minutes, otherwise `"<s>s"`.
pub open spec fn uptime_text(seconds: nat) -> Seq<char> {
    let days = seconds / 86400;
    let hours = (seconds % 86400) / 3600;
    let minutes = (seconds % 3600) / 60;
    if days > 0 {
        decimal(days) + "d "@ + decimal(hours) + "h "@ + decimal(minutes) + "m"@
    } else if hours > 0 {
        decimal(hours) + "h "@ + decimal(minutes) + "m"@
    } else if minutes > 0 {
        decimal(minutes) + "m"@
    } else {
        decimal(seconds) + "s"@
    }
}

/// Formats an uptime given in seconds (see `uptime_text`).
pub fn format_uptime(seconds: u64) -> (r: String)
    ensures
        r@ == uptime_text(seconds as nat),
{
    let days = seconds / 86400;
    let hours = (seconds % 86400) / 3600;
    let minutes = (seconds % 3600) / 60;
    let mut r = String::new();
    if days > 0 {
        push_decimal(&mut r, days);
        push_str(&mut r, "d ");
        push_decimal(&mut r, hours);
        push_str(&mut r, "h ");
        push_decimal(&mut r, minutes);
        push_str(&mut r, "m");
    } else if hours > 0 {
        push_decimal(&mut r, hours);
        push_str(&mut r, "h ");
        push_decimal(&mut r, minutes);
        push_str(&mut r, "m");
    } else if minutes > 0 {
        push_decimal(&mut r, minutes);
        push_str(&mut r, "m");
    } else {
        push_decimal(&mut r, seconds);
        push_str(&mut r, "s");
    }
    assert(r@ =~= uptime_text(seconds as nat));
    r
}

/// Facts about the running system.
pub struct SystemInfo {
    pub name: Option<String>,
    pub kernel_version: Option<String>,
    pub os_version: Option<String>,
    pub uptime: u64,
    pub uptime_formatted: String,
    pub hostname: Option<String>,
}

/// Assembles the system facts read from the machine, adding the formatted uptime.
pub fn get_system_info(
    name: Option<String>,
    kernel_version: Option<String>,
    os_version: Option<String>,
    uptime: u64,
    hostname: Option<String>,
) -> (r: SystemInfo)
    ensures
        r.name == name,
        r.kernel_version == kernel_version,
        r.os_version == os_version,
        r.uptime == uptime,
        r.uptime_formatted@ == uptime_text(uptime as nat),
        r.hostname == hostname,
{
    SystemInfo { name, kernel_version, os_version, uptime, uptime_formatted: format_uptime(uptime), hostname }
}

} // verus!
