//! Reading the GGUF files of a repository listing.

use vstd::prelude::*;
use crate::hf_types::{GGUFFileInfo, GGUFFileView};
use crate::hf_utils::{
    extract_parameter_count, extract_quantization, opt_string_view, parameter_count_of, quantization_of,
};
use crate::text::{has_suffix, push_str, str_ends_with};

verus! {

/// One file entry (a "sibling") of a repository listing, with the values read from
/// each key that the listing may use.
#[derive(Debug, Clone)]
pub struct SiblingFile {
    /// `rfilename`, when it is a string.
    pub rfilename: Option<String>,
    /// `filename`, when it is a string.
    pub filename: Option<String>,
    /// `size`, when it is an unsigned integer.
    pub size: Option<u64>,
    /// `file_size`, when it is an unsigned integer.
    pub file_size: Option<u64>,
    /// `file.size`, when it is an unsigned integer.
    pub nested_size: Option<u64>,
    /// `model_id`, when it is a string.
    pub model_id: Option<String>,
}

/// The text content of a sibling entry.
pub struct SiblingView {
    pub rfilename: Option<Seq<char>>,
    pub filename: Option<Seq<char>>,
    pub size: Option<u64>,
    pub file_size: Option<u64>,
    pub nested_size: Option<u64>,
    pub model_id: Option<Seq<char>>,
}

impl View for SiblingFile {
    type V = SiblingView;

    open spec fn view(&self) -> SiblingView {
        SiblingView {
            rfilename: opt_string_view(self.rfilename),
            filename: opt_string_view(self.filename),
            size: self.size,
            file_size: self.file_size,
            nested_size: self.nested_size,
            model_id: opt_string_view(self.model_id),
        }
    }
}

/// The views of a list of siblings.
pub open spec fn sibling_views(s: Seq<SiblingFile>) -> Seq<SiblingView> {
    s.map_values(|f: SiblingFile| f@)
}

/// The file name of an entry: `rfilename`, else `filename`, else empty.
pub open spec fn entry_name(f: SiblingView) -> Seq<char> {
    match f.rfilename {
        Some(n) => n,
        None => match f.filename {
            Some(n) => n,
            None => Seq::empty(),
        },
    }
}

/// The size of an entry: `size`, else `file_size`, else `file.size`, else zero.
pub open spec fn entry_size(f: SiblingView) -> u64 {
    match f.size {
        Some(s) => s,
        None => match f.file_size {
            Some(s) => s,
            None => match f.nested_size {
                Some(s) => s,
                None => 0,
            },
        },
    }
}

/// The download address of a file of a repository; without a repository id the
/// address has no repository part.
pub open spec fn download_url(model_id: Seq<char>, filename: Seq<char>) -> Seq<char> {
    if model_id.len() > 0 {
        "https://huggingface.co/"@ + model_id + "/resolve/main/"@ + filename
    } else {
        "https://huggingface.co/resolve/main/"@ + filename
    }
}

/// The GGUF file described by an entry.
pub open spec fn gguf_entry(f: SiblingView) -> GGUFFileView {
    let name = entry_name(f);
    let model_id = match f.model_id {
        Some(m) => m,
        None => Seq::empty(),
    };
    GGUFFileView {
        filename: name,
        size: entry_size(f),
        url: download_url(model_id, name),
        parameter_count: parameter_count_of(name),
        quantization: quantization_of(name),
    }
}

/// The GGUF files among the entries, in listing order.
pub open spec fn gguf_entries(s: Seq<SiblingView>) -> Seq<GGUFFileView>
    decreases s.len(),
{
    if s.len() == 0 {
        Seq::empty()
    } else if has_suffix(entry_name(s.last()), ".gguf"@) {
        gguf_entries(s.drop_last()).push(gguf_entry(s.last()))
    } else {
        gguf_entries(s.drop_last())
    }
}

/// `x` inserted into `sorted` after every entry at least as large.
pub open spec fn insert_by_size(x: GGUFFileView, sorted: Seq<GGUFFileView>) -> Seq<GGUFFileView>
    decreases sorted.len(),
{
    if sorted.len() == 0 {
        seq![x]
    } else if sorted.last().size >= x.size {
        sorted.push(x)
    } else {
        insert_by_size(x, sorted.drop_last()).push(sorted.last())
    }
}

/// Stable sort by size, largest first: entries of equal size keep their order.
pub open spec fn sorted_by_size(s: Seq<GGUFFileView>) -> Seq<GGUFFileView>
    decreases s.len(),
{
    if s.len() == 0 {
        Seq::empty()
    } else {
        insert_by_size(s.last(), sorted_by_size(s.drop_last()))
    }
}

/// The views of a list of GGUF files.
pub open spec fn gguf_views(s: Seq<GGUFFileInfo>) -> Seq<GGUFFileView> {
    s.map_values(|f: GGUFFileInfo| f@)
}

/// Inserting at the first position after the entries at least as large.
proof fn lemma_insert_position(x: GGUFFileView, s: Seq<GGUFFileView>, j: int)
    requires
        0 <= j <= s.len(),
        forall|k: int| j <= k < s.len() ==> s[k].size < x.size,
        j == 0 || s[j - 1].size >= x.size,
    ensures
        insert_by_size(x, s) == s.take(j).push(x) + s.subrange(j, s.len() as int),
    decreases s.len(),
{
    if s.len() == 0 {
        assert(s.take(j).push(x) + s.subrange(j, s.len() as int) =~= seq![x]);
    } else if j == s.len() {
        assert(s.take(j).push(x) + s.subrange(j, s.len() as int) =~= s.push(x));
    } else {
        let d = s.drop_last();
        lemma_insert_position(x, d, j);
        assert(s.take(j).push(x) + s.subrange(j, s.len() as int) =~= (d.take(j).push(x) + d.subrange(
            j,
            d.len() as int,
        )).push(s.last()));
    }
}

/// Inserts `x` into a list sorted by size, largest first, after the entries at least
/// as large.
fn insert_sorted(v: &mut Vec<GGUFFileInfo>, x: GGUFFileInfo)
    ensures
        gguf_views(final(v)@) == insert_by_size(x@, gguf_views(old(v)@)),
{
    let ghost s = gguf_views(v@);
    let mut j = v.len();
    while j > 0 && v[j - 1].size < x.size
        invariant
            j <= v@.len(),
            s == gguf_views(v@),
            forall|k: int| j <= k < v@.len() ==> v@[k].size < x.size,
        decreases j,
    {
        j = j - 1;
    }
    proof {
        lemma_insert_position(x@, s, j as int);
    }
    v.insert(j, x);
    assert(gguf_views(v@) =~= s.take(j as int).push(x@) + s.subrange(j as int, s.len() as int));
}

/// Sorts by size, largest first, keeping the order of entries of equal size.
pub fn sort_by_size_desc(v: Vec<GGUFFileInfo>) -> (r: Vec<GGUFFileInfo>)
    ensures
        gguf_views(r@) == sorted_by_size(gguf_views(v@)),
{
    let ghost s = gguf_views(v@);
    let mut v = v;
    let mut rev: Vec<GGUFFileInfo> = Vec::new();
    while v.len() > 0
        invariant
            s == gguf_views(v@) + gguf_views(rev@).reverse(),
        decreases v.len(),
    {
        let x = v.pop().unwrap();
        rev.push(x);
        assert(gguf_views(v@) + gguf_views(rev@).reverse() =~= s);
    }
    assert(gguf_views(rev@).reverse() =~= s);
    let mut r: Vec<GGUFFileInfo> = Vec::new();
    let ghost mut done: int = 0;
    while rev.len() > 0
        invariant
            0 <= done <= s.len(),
            gguf_views(rev@).reverse() == s.subrange(done, s.len() as int),
            gguf_views(r@) == sorted_by_size(s.take(done)),
        decreases rev.len(),
    {
        let ghost before = gguf_views(rev@);
        let x = rev.pop().unwrap();
        proof {
            assert(before.reverse().len() == before.len());
            assert(before.len() == s.len() - done);
            assert(before.reverse()[0] == before[before.len() - 1]);
            assert(s.subrange(done, s.len() as int)[0] == s[done]);
            assert(x@ == s[done]);
            assert(s.take(done + 1).drop_last() =~= s.take(done));
            assert(s.take(done + 1).last() == s[done]);
        }
        insert_sorted(&mut r, x);
        proof {
            assert(before.drop_last() =~= gguf_views(rev@));
            assert(before.reverse().drop_first() =~= gguf_views(rev@).reverse());
            assert(s.subrange(done, s.len() as int).drop_first() =~= s.subrange(done + 1, s.len() as int));
            done = done + 1;
        }
    }
    assert(s.take(done) =~= s);
    r
}

/// The entry name of a sibling, as a string.
fn sibling_name(f: &SiblingFile) -> (r: String)
    ensures
        r@ == entry_name(f@),
{
    match &f.rfilename {
        Some(n) => n.clone(),
        None => match &f.filename {
            Some(n) => n.clone(),
            None => String::new(),
        },
    }
}

/// The GGUF file described by a sibling entry.
fn gguf_file_of(f: &SiblingFile) -> (r: GGUFFileInfo)
    ensures
        r@ == gguf_entry(f@),
{
    let filename = sibling_name(f);
    let size = match f.size {
        Some(s) => s,
        None => match f.file_size {
            Some(s) => s,
            None => match f.nested_size {
                Some(s) => s,
                None => 0,
            },
        },
    };
    let model_id = match &f.model_id {
        Some(m) => m.clone(),
        None => String::new(),
    };
    let mut url = String::from_str("https://huggingface.co/");
    if model_id.as_str().unicode_len() > 0 {
        push_str(&mut url, model_id.as_str());
        push_str(&mut url, "/resolve/main/");
    } else {
        push_str(&mut url, "resolve/main/");
        proof {
            reveal_strlit("https://huggingface.co/");
            reveal_strlit("resolve/main/");
            reveal_strlit("https://huggingface.co/resolve/main/");
            assert("https://huggingface.co/"@ + "resolve/main/"@ =~= "https://huggingface.co/resolve/main/"@);
        }
    }
    push_str(&mut url, filename.as_str());
    let parameter_count = extract_parameter_count(filename.as_str());
    let quantization = extract_quantization(filename.as_str());
    GGUFFileInfo { filename, size, url, parameter_count, quantization }
}

/// The GGUF files of a listing's entries, largest first (a missing listing has none).
pub fn extract_gguf_files(siblings: Option<&Vec<SiblingFile>>) -> (r: Vec<GGUFFileInfo>)
    ensures
        gguf_views(r@) == match siblings {
            Some(s) => sorted_by_size(gguf_entries(sibling_views(s@))),
            None => Seq::empty(),
        },
{
    let mut files: Vec<GGUFFileInfo> = Vec::new();
    match siblings {
        Some(s) => {
            let ghost sv = sibling_views(s@);
            let n = s.len();
            let mut i: usize = 0;
            while i < n
                invariant
                    i <= n,
                    n == s@.len(),
                    sv == sibling_views(s@),
                    gguf_views(files@) == gguf_entries(sv.take(i as int)),
                decreases n - i,
            {
                proof {
                    assert(sv.take(i + 1).drop_last() =~= sv.take(i as int));
                    assert(sv.take(i + 1).last() == s@[i as int]@);
                }
                let name = sibling_name(&s[i]);
                if str_ends_with(name.as_str(), ".gguf") {
                    let f = gguf_file_of(&s[i]);
                    files.push(f);
                }
                i = i + 1;
                assert(gguf_views(files@) =~= gguf_entries(sv.take(i as int)));
            }
            assert(sv.take(n as int) =~= sv);
        },
        None => {},
    }
    let r = sort_by_size_desc(files);
    proof {
        if siblings.is_none() {
            assert(gguf_views(Seq::<GGUFFileInfo>::empty()) =~= Seq::<GGUFFileView>::empty());
        }
    }
    r
}

/// The result of `insert_by_size` is sorted when its input is.
proof fn lemma_insert_keeps_sorted(x: GGUFFileView, s: Seq<GGUFFileView>)
    requires
        forall|i: int, j: int| 0 <= i < j < s.len() ==> s[i].size >= s[j].size,
    ensures
        insert_by_size(x, s).len() == s.len() + 1,
        forall|i: int, j: int|
            0 <= i < j < insert_by_size(x, s).len() ==> insert_by_size(x, s)[i].size >= insert_by_size(
                x,
                s,
            )[j].size,
        forall|i: int| 0 <= i < insert_by_size(x, s).len() ==> insert_by_size(x, s)[i] == x || s.contains(insert_by_size(x, s)[i]),
    decreases s.len(),
{
    if s.len() > 0 && s.last().size < x.size {
        let d = s.drop_last();
        lemma_insert_keeps_sorted(x, d);
        let t = insert_by_size(x, d);
        assert forall|i: int| 0 <= i < t.len() implies t[i].size >= s.last().size by {
            if t[i] != x {
                let k = choose|k: int| 0 <= k < d.len() && d[k] == t[i];
                assert(d[k] == s[k]);
            }
        }
        assert forall|i: int| 0 <= i < insert_by_size(x, s).len() implies insert_by_size(x, s)[i] == x
            || s.contains(insert_by_size(x, s)[i]) by {
            if i < t.len() {
                if t[i] != x {
                    let k = choose|k: int| 0 <= k < d.len() && d[k] == t[i];
                    assert(s[k] == d[k]);
                }
            } else {
                assert(s[s.len() - 1] == s.last());
            }
        }
    } else if s.len() > 0 {
        assert forall|i: int| 0 <= i < insert_by_size(x, s).len() implies insert_by_size(x, s)[i] == x
            || s.contains(insert_by_size(x, s)[i]) by {
            if i < s.len() {
                assert(s[i] == insert_by_size(x, s)[i]);
            }
        }
    }
}

/// Law: the files are listed largest first.
pub proof fn law_sorted_largest_first(s: Seq<GGUFFileView>)
    ensures
        sorted_by_size(s).len() == s.len(),
        forall|i: int, j: int|
            0 <= i < j < sorted_by_size(s).len() ==> sorted_by_size(s)[i].size >= sorted_by_size(s)[j].size,
    decreases s.len(),
{
    if s.len() > 0 {
        law_sorted_largest_first(s.drop_last());
        lemma_insert_keeps_sorted(s.last(), sorted_by_size(s.drop_last()));
    }
}

/// Law: every listed file is a GGUF file of the listing, with the name the listing gives it.
pub proof fn law_only_gguf_files(s: Seq<SiblingView>)
    ensures
        forall|i: int|
            0 <= i < gguf_entries(s).len() ==> has_suffix(#[trigger] gguf_entries(s)[i].filename, ".gguf"@),
    decreases s.len(),
{
    if s.len() > 0 {
        law_only_gguf_files(s.drop_last());
        let p = gguf_entries(s.drop_last());
        assert forall|i: int| 0 <= i < gguf_entries(s).len() implies has_suffix(
            #[trigger] gguf_entries(s)[i].filename,
            ".gguf"@,
        ) by {
            if i < p.len() {
                assert(gguf_entries(s)[i] == p[i]);
            }
        }
    }
}

} // verus!
