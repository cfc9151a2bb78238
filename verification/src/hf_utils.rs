//! Naming helpers for downloaded GGUF model files: parameter counts and
//! quantization read from file names, and the model server's name for a file.

use vstd::prelude::*;
use crate::text::{push_str, replace_all, replace_char, str_eq, str_replace, str_replace_char};

verus! {

/// The text of optional capture groups.
pub open spec fn groups_view(v: Seq<Option<String>>) -> Seq<Option<Seq<char>>> {
    v.map_values(|g: Option<String>| match g {
        Some(s) => Some(s@),
        None => None,
    })
}

/// The regex crate's first match of `pattern` in `text`: `None` when the pattern does
/// not compile or does not match, otherwise the text of every capture group (group 0
/// being the whole match; `None` for a group that took no part in the match).
pub uninterp spec fn regex_first_captures(pattern: Seq<char>, text: Seq<char>) -> Option<Seq<Option<Seq<char>>>>;

/// Compiles `pattern` with `regex::Regex::new` and returns its first match in `text`
/// (`Regex::captures`), group by group. The result is named, not described: regular
/// expression matching is the regex crate's.
#[verifier::external_body]
fn regex_captures(pattern: &str, text: &str) -> (r: Option<Vec<Option<String>>>)
    ensures
        match r {
            Some(v) => regex_first_captures(pattern@, text@) == Some(groups_view(v@)),
            None => regex_first_captures(pattern@, text@).is_none(),
        },
{
    match regex::Regex::new(pattern) {
        Ok(re) => re.captures(text).map(|c| c.iter().map(|m| m.map(|m| m.as_str().to_string())).collect()),
        Err(_) => None,
    }
}

/// std's `str::to_lowercase` (Unicode lowercase mapping).
pub uninterp spec fn lowercase(s: Seq<char>) -> Seq<char>;

/// std's `str::to_uppercase` (Unicode uppercase mapping).
pub uninterp spec fn uppercase(s: Seq<char>) -> Seq<char>;

/// Lowercases `s` with `str::to_lowercase`; the result is the named mapping.
#[verifier::external_body]
fn to_lowercase(s: &str) -> (r: String)
    ensures
        r@ == lowercase(s@),
{
    s.to_lowercase()
}

/// Uppercases `s` with `str::to_uppercase`; the result is the named mapping.
#[verifier::external_body]
fn to_uppercase(s: &str) -> (r: String)
    ensures
        r@ == uppercase(s@),
{
    s.to_uppercase()
}

/// The text of capture group `k`, empty when absent.
pub open spec fn group_text(caps: Seq<Option<Seq<char>>>, k: int) -> Seq<char> {
    if 0 <= k < caps.len() {
        match caps[k] {
            Some(t) => t,
            None => Seq::empty(),
        }
    } else {
        Seq::empty()
    }
}

/// Parameter-count patterns, in the order they are tried: mixture-of-experts counts,
/// decimal billions, whole billions, millions.
pub const MOE_PATTERN: &'static str = "(\\d+)x(\\d+)b";
pub const DECIMAL_BILLIONS_PATTERN: &'static str = "(\\d+\\.\\d+)b";
pub const BILLIONS_PATTERN: &'static str = "(\\d+)b";
pub const MILLIONS_PATTERN: &'static str = "(\\d+)m";

/// The parameter count read from captures of the lowercased file name.
pub open spec fn parameter_count_from(
    moe: Option<Seq<Option<Seq<char>>>>,
    decimal: Option<Seq<Option<Seq<char>>>>,
    billions: Option<Seq<Option<Seq<char>>>>,
    millions: Option<Seq<Option<Seq<char>>>>,
) -> Option<Seq<char>> {
    if moe is Some {
        Some(group_text(moe->0, 1) + "x"@ + group_text(moe->0, 2) + "B"@)
    } else if decimal is Some {
        Some(group_text(decimal->0, 1) + "B"@)
    } else if billions is Some {
        Some(group_text(billions->0, 1) + "B"@)
    } else if millions is Some {
        Some(group_text(millions->0, 1) + "M"@)
    } else {
        None
    }
}

/// The parameter count of a model file name, such as `7B`, `1.1B`, `8x7B` or `125M`.
pub open spec fn parameter_count_of(filename: Seq<char>) -> Option<Seq<char>> {
    let lower = lowercase(filename);
    parameter_count_from(
        regex_first_captures(MOE_PATTERN@, lower),
        regex_first_captures(DECIMAL_BILLIONS_PATTERN@, lower),
        regex_first_captures(BILLIONS_PATTERN@, lower),
        regex_first_captures(MILLIONS_PATTERN@, lower),
    )
}

/// The text of capture group `k` as a string, empty when absent.
fn group_string(caps: &Vec<Option<String>>, k: usize) -> (r: String)
    ensures
        r@ == group_text(groups_view(caps@), k as int),
{
    if k < caps.len() {
        match &caps[k] {
            Some(t) => t.clone(),
            None => String::new(),
        }
    } else {
        String::new()
    }
}

/// Formats a parameter count from the captures of the four patterns.
pub fn parameter_count_from_captures(
    moe: Option<Vec<Option<String>>>,
    decimal: Option<Vec<Option<String>>>,
    billions: Option<Vec<Option<String>>>,
    millions: Option<Vec<Option<String>>>,
) -> (r: Option<String>)
    ensures
        opt_string_view(r) == parameter_count_from(
            opt_groups_view(moe),
            opt_groups_view(decimal),
            opt_groups_view(billions),
            opt_groups_view(millions),
        ),
{
    if let Some(c) = moe {
        let mut s = group_string(&c, 1);
        push_str(&mut s, "x");
        let g2 = group_string(&c, 2);
        push_str(&mut s, g2.as_str());
        push_str(&mut s, "B");
        return Some(s);
    }
    if let Some(c) = decimal {
        let mut s = group_string(&c, 1);
        push_str(&mut s, "B");
        return Some(s);
    }
    if let Some(c) = billions {
        let mut s = group_string(&c, 1);
        push_str(&mut s, "B");
        return Some(s);
    }
    if let Some(c) = millions {
        let mut s = group_string(&c, 1);
        push_str(&mut s, "M");
        return Some(s);
    }
    None
}

/// The text of an optional string.
pub open spec fn opt_string_view(o: Option<String>) -> Option<Seq<char>> {
    match o {
        Some(s) => Some(s@),
        None => None,
    }
}

/// The text of optional capture groups.
pub open spec fn opt_groups_view(o: Option<Vec<Option<String>>>) -> Option<Seq<Option<Seq<char>>>> {
    match o {
        Some(v) => Some(groups_view(v@)),
        None => None,
    }
}

/// Reads the parameter count from a model file name. Patterns are tried in order:
/// mixture-of-experts counts (`8x7b`), decimals (`1.1b`), whole billions (`7b`),
/// millions (`125m`), so `1.1b` is not reported as `1B`.
pub fn extract_parameter_count(filename: &str) -> (r: Option<String>)
    ensures
        opt_string_view(r) == parameter_count_of(filename@),
{
    let lower = to_lowercase(filename);
    let moe = regex_captures(MOE_PATTERN, lower.as_str());
    let decimal = regex_captures(DECIMAL_BILLIONS_PATTERN, lower.as_str());
    let billions = regex_captures(BILLIONS_PATTERN, lower.as_str());
    let millions = regex_captures(MILLIONS_PATTERN, lower.as_str());
    parameter_count_from_captures(moe, decimal, billions, millions)
}

/// The quantization patterns, in the order they are tried (each case-insensitively).
pub open spec fn quantization_patterns() -> Seq<Seq<char>> {
    seq![
        "IQ[1-4]_[A-Z]{1,2}\\b"@,
        "Q[2-8]_[0-9K_]*[0-9K]\\b"@,
        "Q[2-8]_[0-9]"@,
        "F[1-9][0-9]?"@,
        "q4_k_m"@,
        "q5_k_m"@,
        "q6_k"@,
        "q8_0"@,
        "q4_0"@,
        "q5_0"@,
        "q2_k"@,
        "q3_k"@,
        "f16"@,
        "f32"@,
    ]
}

/// Flag prefix making a pattern case-insensitive.
pub const CASE_INSENSITIVE: &'static str = "(?i)";

/// The quantization one pattern's match gives: the whole match, uppercased; `None`
/// when the pattern did not match.
pub open spec fn match_quantization(caps: Option<Seq<Option<Seq<char>>>>) -> Option<Seq<char>> {
    match caps {
        Some(c) => if c.len() > 0 && c[0] is Some {
            Some(uppercase(c[0]->0))
        } else {
            None
        },
        None => None,
    }
}

/// The uppercased first match of the quantization patterns tried from index `k` on.
pub open spec fn first_quantization_match(name: Seq<char>, k: nat) -> Option<Seq<char>>
    decreases 14 - k,
{
    if k >= 14 {
        None
    } else {
        match match_quantization(regex_first_captures(CASE_INSENSITIVE@ + quantization_patterns()[k as int], name)) {
            Some(q) => Some(q),
            None => first_quantization_match(name, k + 1),
        }
    }
}

/// The quantization one pattern's match gives (see `match_quantization`): the text
/// of the whole match (group 0) uppercased, or `None` when the pattern did not match.
pub fn quantization_from_match(caps: Option<Vec<Option<String>>>) -> (r: Option<String>)
    ensures
        opt_string_view(r) == match_quantization(opt_groups_view(caps)),
{
    match caps {
        Some(c) => {
            if c.len() > 0 {
                match &c[0] {
                    Some(m) => Some(to_uppercase(m.as_str())),
                    None => None,
                }
            } else {
                None
            }
        },
        None => None,
    }
}

/// The quantization of a model file name: the first pattern matching the name without
/// its `.gguf` extension, uppercased.
pub open spec fn quantization_of(filename: Seq<char>) -> Option<Seq<char>> {
    first_quantization_match(replace_all(filename, ".gguf"@, Seq::empty()), 0)
}

/// Reads the quantization (such as `Q4_K_M`, `IQ2_XS` or `F16`) from a model file name.
pub fn extract_quantization(filename: &str) -> (r: Option<String>)
    ensures
        opt_string_view(r) == quantization_of(filename@),
{
    proof {
        reveal_strlit(".gguf");
        reveal_strlit("");
        assert(""@ =~= Seq::<char>::empty());
    }
    let name = str_replace(filename, ".gguf", "");
    let patterns: [&'static str; 14] = [
        "IQ[1-4]_[A-Z]{1,2}\\b",
        "Q[2-8]_[0-9K_]*[0-9K]\\b",
        "Q[2-8]_[0-9]",
        "F[1-9][0-9]?",
        "q4_k_m",
        "q5_k_m",
        "q6_k",
        "q8_0",
        "q4_0",
        "q5_0",
        "q2_k",
        "q3_k",
        "f16",
        "f32",
    ];
    assert(patterns@.map_values(|p: &str| p@) =~= quantization_patterns());
    let mut k: usize = 0;
    while k < 14
        invariant
            k <= 14,
            patterns@.map_values(|p: &str| p@) == quantization_patterns(),
            first_quantization_match(name@, k as nat) == quantization_of(filename@),
        decreases 14 - k,
    {
        let mut pattern = String::from_str(CASE_INSENSITIVE);
        push_str(&mut pattern, patterns[k]);
        assert(patterns[k as int]@ == quantization_patterns()[k as int]);
        let caps = regex_captures(pattern.as_str(), name.as_str());
        let found = quantization_from_match(caps);
        if found.is_some() {
            return found;
        }
        k = k + 1;
    }
    None
}

/// The model server's name for a downloaded file: the repository id with `/` replaced
/// by `_`, followed by `_` and the quantization unless it is absent, empty or `default`.
pub open spec fn model_name_of(model_id: Seq<char>, quantization: Option<Seq<char>>) -> Seq<char> {
    let base = replace_char(model_id, '/', '_');
    match quantization {
        Some(q) => if q.len() > 0 && q != "default"@ {
            base + "_"@ + q
        } else {
            base
        },
        None => base,
    }
}

/// Canonical model-server name for a downloaded GGUF file.
///
/// A missing or `default` quantization means no suffix, so a file without a
/// recognized quantization is registered as `author_model`.
pub fn ollama_model_name(model_id: &str, quantization: Option<&str>) -> (r: String)
    ensures
        r@ == model_name_of(
            model_id@,
            match quantization {
                Some(q) => Some(q@),
                None => None,
            },
        ),
{
    let mut base = str_replace_char(model_id, '/', '_');
    match quantization {
        Some(q) => {
            if q.unicode_len() > 0 && !str_eq(q, "default") {
                push_str(&mut base, "_");
                push_str(&mut base, q);
            }
            base
        },
        None => base,
    }
}

/// The names under which the model server may have registered a downloaded file:
/// the canonical name and the same name tagged `:latest`.
pub open spec fn registered_names_of(model_id: Seq<char>, filename: Seq<char>) -> Seq<Seq<char>> {
    let name = model_name_of(model_id, quantization_of(filename));
    seq![name, name + ":latest"@]
}

/// Model-server names that correspond to a downloaded GGUF file.
pub fn ollama_model_names(model_id: &str, filename: &str) -> (r: Vec<String>)
    ensures
        r@.map_values(|s: String| s@) == registered_names_of(model_id@, filename@),
{
    let q = extract_quantization(filename);
    let name = match &q {
        Some(s) => ollama_model_name(model_id, Some(s.as_str())),
        None => ollama_model_name(model_id, None),
    };
    let mut tagged = name.clone();
    push_str(&mut tagged, ":latest");
    let mut r = Vec::new();
    r.push(name);
    r.push(tagged);
    assert(r@.map_values(|s: String| s@) =~= registered_names_of(model_id@, filename@));
    r
}

/// The folder holding a model's files: the repository id with `/` replaced by `_`.
pub fn model_folder_name(model_id: &str) -> (r: String)
    ensures
        r@ == replace_char(model_id@, '/', '_'),
{
    str_replace_char(model_id, '/', '_')
}

} // verus!
