//! Models downloaded to the application's data directory: reading one model folder
//! into a record, ordering the records, choosing files to delete, and the names a
//! model file is registered under.

use vstd::prelude::*;
use crate::hf_utils::{
    extract_parameter_count, extract_quantization, model_name_of, ollama_model_name, opt_string_view,
    parameter_count_of, quantization_of,
};
use crate::download::download_quantization_of;
use crate::ollama_models::{chat_model_matches, find_chat_model};
use crate::text::{
    chars_of, decimal, first_part, first_two_parts, has_suffix, push_decimal, push_str, second_part, str_eq,
    str_ends_with,
};

verus! {

/// A downloaded model file.
pub struct InstalledModelFile {
    pub filename: String,
    pub size: u64,
    pub path: String,
    pub parameter_count: Option<String>,
    pub quantization: Option<String>,
    pub has_modelfile: bool,
    /// The Modelfile that registers this file with the model server.
    pub modelfile_name: Option<String>,
}

/// A downloaded model: its folder's files and facts.
pub struct InstalledModel {
    pub model_id: String,
    pub author: String,
    pub name: String,
    pub files: Vec<InstalledModelFile>,
    pub total_size: u64,
    pub downloaded_at: String,
    pub has_modelfile: bool,
}

/// An entry of a model folder as read from disk.
pub struct FolderEntry {
    pub filename: String,
    pub path: String,
    pub is_file: bool,
    /// The file's size, when it could be read.
    pub size: Option<u64>,
}

/// `n unit` or `n units`.
pub open spec fn count_text(n: nat, unit: Seq<char>) -> Seq<char> {
    decimal(n) + " "@ + unit + (if n > 1 {
        "s"@
    } else {
        Seq::empty()
    }) + " ago"@
}

/// How long ago a folder changed, from the seconds elapsed since (`None` when that
/// could not be read): whole days, else hours, else minutes, else `Just now`.
pub open spec fn age_text(elapsed: Option<u64>) -> Seq<char> {
    match elapsed {
        None => "Unknown"@,
        Some(secs) => {
            let days = secs / 86400;
            let hours = secs / 3600;
            let mins = secs / 60;
            if days > 0 {
                count_text(days as nat, "day"@)
            } else if hours > 0 {
                count_text(hours as nat, "hour"@)
            } else if mins > 0 {
                count_text(mins as nat, "minute"@)
            } else {
                "Just now"@
            }
        },
    }
}

fn push_count(s: &mut String, n: u64, unit: &str)
    ensures
        final(s)@ == old(s)@ + count_text(n as nat, unit@),
{
    push_decimal(s, n);
    push_str(s, " ");
    push_str(s, unit);
    if n > 1 {
        push_str(s, "s");
    }
    push_str(s, " ago");
    proof {
        reveal_strlit("");
        assert(""@ =~= Seq::<char>::empty());
    }
    assert(final(s)@ =~= old(s)@ + count_text(n as nat, unit@));
}

/// How long ago a folder changed (see `age_text`).
pub fn downloaded_age(elapsed: Option<u64>) -> (r: String)
    ensures
        r@ == age_text(elapsed),
{
    match elapsed {
        None => String::from_str("Unknown"),
        Some(secs) => {
            let mut r = String::new();
            if secs / 86400 > 0 {
                push_count(&mut r, secs / 86400, "day");
            } else if secs / 3600 > 0 {
                push_count(&mut r, secs / 3600, "hour");
            } else if secs / 60 > 0 {
                push_count(&mut r, secs / 60, "minute");
            } else {
                return String::from_str("Just now");
            }
            assert(r@ =~= age_text(elapsed));
            r
        },
    }
}

/// Whether a folder entry is a model file: a file whose name ends in `.gguf` (the
/// Modelfile never is).
pub open spec fn is_model_entry(e: FolderEntry) -> bool {
    e.is_file && e.filename@ != "Modelfile"@ && has_suffix(e.filename@, ".gguf"@)
}

/// The model files among folder entries, in folder order.
pub open spec fn model_entries(s: Seq<FolderEntry>) -> Seq<FolderEntry>
    decreases s.len(),
{
    if s.len() == 0 {
        Seq::empty()
    } else if is_model_entry(s.last()) {
        model_entries(s.drop_last()).push(s.last())
    } else {
        model_entries(s.drop_last())
    }
}

/// The total of the sizes of entries (a size that could not be read counts as 0).
pub open spec fn sizes_total(s: Seq<FolderEntry>) -> nat
    decreases s.len(),
{
    if s.len() == 0 {
        0
    } else {
        sizes_total(s.drop_last()) + match s.last().size {
            Some(n) => n as nat,
            None => 0nat,
        }
    }
}

/// Whether `f` describes the model file entry `e` of a folder that has a Modelfile
/// (`modelfile`) or not.
pub open spec fn describes(f: InstalledModelFile, e: FolderEntry, modelfile: bool) -> bool {
    &&& f.filename@ == e.filename@
    &&& f.size == match e.size {
        Some(n) => n,
        None => 0u64,
    }
    &&& f.path@ == e.path@
    &&& opt_string_view(f.parameter_count) == parameter_count_of(e.filename@)
    &&& opt_string_view(f.quantization) == quantization_of(e.filename@)
    &&& f.has_modelfile == modelfile
    &&& opt_string_view(f.modelfile_name) == (if modelfile {
        Some("Modelfile"@)
    } else {
        None
    })
}

/// Reads a model folder named `<author>_<name>` into a record: its model files (see
/// `is_model_entry`) with their total size, how long ago it changed, and whether it
/// holds a Modelfile. A folder without model files gives `None`.
pub fn scan_model_directory(dir_name: &str, entries: &Vec<FolderEntry>, modelfile_exists: bool, elapsed: Option<u64>) -> (r:
    Option<InstalledModel>)
    requires
        sizes_total(model_entries(entries@)) <= u64::MAX,
    ensures
        match r {
            None => model_entries(entries@).len() == 0,
            Some(m) => {
                &&& model_entries(entries@).len() > 0
                &&& m.author@ == first_part(dir_name@, '_')
                &&& m.name@ == second_part(dir_name@, '_')
                &&& m.model_id@ == first_part(dir_name@, '_') + "/"@ + second_part(dir_name@, '_')
                &&& m.files@.len() == model_entries(entries@).len()
                &&& forall|k: int|
                    0 <= k < m.files@.len() ==> describes(#[trigger] m.files@[k], model_entries(entries@)[k], modelfile_exists)
                &&& m.total_size == sizes_total(model_entries(entries@))
                &&& m.downloaded_at@ == age_text(elapsed)
                &&& m.has_modelfile == modelfile_exists
            },
        },
{
    let (author, name) = first_two_parts(dir_name, '_');
    let mut model_id = String::from_str(author.as_str());
    push_str(&mut model_id, "/");
    push_str(&mut model_id, name.as_str());
    let downloaded_at = downloaded_age(elapsed);
    let mut files: Vec<InstalledModelFile> = Vec::new();
    let mut total_size: u64 = 0;
    let mut i: usize = 0;
    while i < entries.len()
        invariant
            i <= entries@.len(),
            sizes_total(model_entries(entries@)) <= u64::MAX,
            files@.len() == model_entries(entries@.take(i as int)).len(),
            forall|k: int|
                0 <= k < files@.len() ==> describes(#[trigger] files@[k], model_entries(entries@.take(i as int))[k], modelfile_exists),
            total_size == sizes_total(model_entries(entries@.take(i as int))),
        decreases entries@.len() - i,
    {
        let e = &entries[i];
        proof {
            assert(entries@.take(i + 1).drop_last() =~= entries@.take(i as int));
            assert(entries@.take(i + 1).last() == entries@[i as int]);
        }
        let keep = e.is_file && !str_eq(e.filename.as_str(), "Modelfile") && str_ends_with(e.filename.as_str(), ".gguf");
        proof {
            lemma_sizes_total_prefix(entries@, (i + 1) as nat);
            let me = model_entries(entries@.take(i as int));
            if keep {
                assert(model_entries(entries@.take(i + 1)) == me.push(*e));
                assert(me.push(*e).drop_last() =~= me);
            } else {
                assert(model_entries(entries@.take(i + 1)) == me);
            }
        }
        if keep {
            let size = match e.size {
                Some(n) => n,
                None => 0,
            };
            total_size = total_size + size;
            let f = InstalledModelFile {
                filename: e.filename.clone(),
                size,
                path: e.path.clone(),
                parameter_count: extract_parameter_count(e.filename.as_str()),
                quantization: extract_quantization(e.filename.as_str()),
                has_modelfile: modelfile_exists,
                modelfile_name: if modelfile_exists {
                    Some(String::from_str("Modelfile"))
                } else {
                    None
                },
            };
            let ghost prev = files@;
            files.push(f);
            proof {
                assert(files@ == prev.push(f));
                assert forall|k: int|
                    0 <= k < files@.len() implies describes(#[trigger] files@[k], model_entries(entries@.take(i + 1))[k], modelfile_exists) by {
                    if k < prev.len() {
                        assert(files@[k] == prev[k]);
                    }
                }
            }
        }
        i = i + 1;
    }
    assert(entries@.take(entries@.len() as int) =~= entries@);
    if files.len() == 0 {
        return None;
    }
    Some(
        InstalledModel {
            model_id,
            author,
            name,
            files,
            total_size,
            downloaded_at,
            has_modelfile: modelfile_exists,
        },
    )
}

proof fn lemma_sizes_total_prefix(s: Seq<FolderEntry>, k: nat)
    requires
        k <= s.len(),
    ensures
        sizes_total(model_entries(s.take(k as int))) <= sizes_total(model_entries(s)),
    decreases s.len() - k,
{
    if k < s.len() {
        lemma_sizes_total_prefix(s, k + 1);
        let t = s.take(k + 1 as int);
        assert(t.drop_last() =~= s.take(k as int));
        if is_model_entry(t.last()) {
            assert(model_entries(t).drop_last() =~= model_entries(s.take(k as int)));
        }
    } else {
        assert(s.take(k as int) =~= s);
    }
}

/// Whether text `a` comes before `b` in character order, as `String`'s ordering
/// compares them.
pub open spec fn text_before(a: Seq<char>, b: Seq<char>) -> bool
    decreases a.len(),
{
    if a.len() == 0 {
        b.len() > 0
    } else if b.len() == 0 {
        false
    } else if a[0] != b[0] {
        a[0] < b[0]
    } else {
        text_before(a.drop_first(), b.drop_first())
    }
}

proof fn lemma_text_before_irreflexive(a: Seq<char>)
    ensures
        !text_before(a, a),
    decreases a.len(),
{
    if a.len() > 0 {
        lemma_text_before_irreflexive(a.drop_first());
    }
}

proof fn lemma_text_before_transitive(a: Seq<char>, b: Seq<char>, c: Seq<char>)
    requires
        text_before(a, b),
        text_before(b, c),
    ensures
        text_before(a, c),
    decreases a.len(),
{
    if a.len() > 0 && a[0] == b[0] && b[0] == c[0] {
        lemma_text_before_transitive(a.drop_first(), b.drop_first(), c.drop_first());
    }
}

proof fn lemma_text_before_total(a: Seq<char>, b: Seq<char>)
    requires
        a != b,
    ensures
        text_before(a, b) || text_before(b, a),
    decreases a.len(),
{
    if a.len() == 0 {
        assert(b.len() > 0) by {
            if b.len() == 0 {
                assert(a =~= b);
            }
        }
    } else if b.len() > 0 && a[0] == b[0] {
        assert(a.drop_first() != b.drop_first()) by {
            if a.drop_first() == b.drop_first() {
                assert(a =~= seq![a[0]] + a.drop_first());
                assert(b =~= seq![b[0]] + b.drop_first());
            }
        }
        lemma_text_before_total(a.drop_first(), b.drop_first());
    }
}

/// Whether `a` comes before `b`.
fn str_before(a: &Vec<char>, b: &Vec<char>) -> (r: bool)
    ensures
        r == text_before(a@, b@),
{
    let mut i: usize = 0;
    assert(a@.subrange(0, a@.len() as int) =~= a@);
    assert(b@.subrange(0, b@.len() as int) =~= b@);
    while i < a.len() && i < b.len() && a[i] == b[i]
        invariant
            i <= a@.len(),
            i <= b@.len(),
            forall|k: int| 0 <= k < i ==> a@[k] == b@[k],
            text_before(a@, b@) == text_before(a@.subrange(i as int, a@.len() as int), b@.subrange(i as int, b@.len() as int)),
        decreases a@.len() - i,
    {
        proof {
            let sa = a@.subrange(i as int, a@.len() as int);
            let sb = b@.subrange(i as int, b@.len() as int);
            assert(sa.drop_first() =~= a@.subrange(i + 1, a@.len() as int));
            assert(sb.drop_first() =~= b@.subrange(i + 1, b@.len() as int));
        }
        i = i + 1;
    }
    if i == a.len() {
        i < b.len()
    } else if i == b.len() {
        false
    } else {
        a[i] < b[i]
    }
}

/// `x` placed into a list ordered by descending `downloaded_at` text, after every
/// model whose text does not come before its own.
pub open spec fn insert_by_text(x: InstalledModel, sorted: Seq<InstalledModel>) -> Seq<InstalledModel>
    decreases sorted.len(),
{
    if sorted.len() == 0 {
        seq![x]
    } else if !text_before(sorted.last().downloaded_at@, x.downloaded_at@) {
        sorted.push(x)
    } else {
        insert_by_text(x, sorted.drop_last()).push(sorted.last())
    }
}

/// Models ordered by their `downloaded_at` text in descending text order (so
/// `"5 days ago"` comes before `"1 hour ago"`), models with equal texts keeping their
/// order: a stable sort.
pub open spec fn by_downloaded_at(s: Seq<InstalledModel>) -> Seq<InstalledModel>
    decreases s.len(),
{
    if s.len() == 0 {
        Seq::empty()
    } else {
        insert_by_text(s.last(), by_downloaded_at(s.drop_last()))
    }
}

/// Whether no model's `downloaded_at` text comes after that of a model before it.
pub open spec fn descending_by_text(s: Seq<InstalledModel>) -> bool {
    forall|i: int, j: int|
        0 <= i < j < s.len() ==> !text_before(#[trigger] s[i].downloaded_at@, #[trigger] s[j].downloaded_at@)
}

proof fn lemma_insert_by_text_ordered(x: InstalledModel, s: Seq<InstalledModel>)
    requires
        descending_by_text(s),
    ensures
        descending_by_text(insert_by_text(x, s)),
        insert_by_text(x, s).len() == s.len() + 1,
        forall|k: int| 0 <= k < s.len() + 1 ==> #[trigger] insert_by_text(x, s)[k] == x || s.contains(insert_by_text(x, s)[k]),
    decreases s.len(),
{
    if s.len() == 0 {
    } else if !text_before(s.last().downloaded_at@, x.downloaded_at@) {
        let r = s.push(x);
        let l = s.last().downloaded_at@;
        assert forall|i: int, j: int| 0 <= i < j < r.len() implies !text_before(
            #[trigger] r[i].downloaded_at@,
            #[trigger] r[j].downloaded_at@,
        ) by {
            if j == s.len() as int && i < s.len() - 1 {
                let t = s[i].downloaded_at@;
                assert(r[i] == s[i]);
                assert(!text_before(t, s[s.len() - 1].downloaded_at@));
                if text_before(t, x.downloaded_at@) {
                    if t == l {
                    } else {
                        lemma_text_before_total(t, l);
                        lemma_text_before_transitive(l, t, x.downloaded_at@);
                    }
                }
            }
        }
        assert forall|k: int| 0 <= k < s.len() + 1 implies #[trigger] r[k] == x || s.contains(r[k]) by {
            if k < s.len() {
                assert(s[k] == r[k]);
            }
        }
    } else {
        let d = s.drop_last();
        let l = s.last();
        assert(descending_by_text(d)) by {
            assert forall|i: int, j: int| 0 <= i < j < d.len() implies !text_before(
                #[trigger] d[i].downloaded_at@,
                #[trigger] d[j].downloaded_at@,
            ) by {
                assert(d[i] == s[i] && d[j] == s[j]);
            }
        }
        lemma_insert_by_text_ordered(x, d);
        let q = insert_by_text(x, d);
        let r = q.push(l);
        assert forall|i: int, j: int| 0 <= i < j < r.len() implies !text_before(
            #[trigger] r[i].downloaded_at@,
            #[trigger] r[j].downloaded_at@,
        ) by {
            if j == q.len() as int {
                assert(q[i] == x || d.contains(q[i]));
                if q[i] == x {
                    if text_before(x.downloaded_at@, l.downloaded_at@) {
                        lemma_text_before_transitive(x.downloaded_at@, l.downloaded_at@, x.downloaded_at@);
                        lemma_text_before_irreflexive(x.downloaded_at@);
                    }
                } else {
                    let m = choose|m: int| 0 <= m < d.len() && d[m] == q[i];
                    assert(s[m] == d[m]);
                    assert(!text_before(s[m].downloaded_at@, s[s.len() - 1].downloaded_at@));
                }
            } else {
                assert(r[i] == q[i] && r[j] == q[j]);
            }
        }
        assert forall|k: int| 0 <= k < s.len() + 1 implies #[trigger] r[k] == x || s.contains(r[k]) by {
            if k < q.len() {
                assert(r[k] == q[k]);
                if q[k] != x {
                    let m = choose|m: int| 0 <= m < d.len() && d[m] == q[k];
                    assert(s[m] == d[m]);
                }
            } else {
                assert(s[s.len() - 1] == l);
            }
        }
    }
}

proof fn lemma_by_downloaded_at_ordered(s: Seq<InstalledModel>)
    ensures
        descending_by_text(by_downloaded_at(s)),
    decreases s.len(),
{
    if s.len() > 0 {
        lemma_by_downloaded_at_ordered(s.drop_last());
        lemma_insert_by_text_ordered(s.last(), by_downloaded_at(s.drop_last()));
    }
}

proof fn lemma_insert_by_text_multiset(x: InstalledModel, s: Seq<InstalledModel>)
    ensures
        insert_by_text(x, s).to_multiset() =~= s.to_multiset().insert(x),
    decreases s.len(),
{
    broadcast use vstd::seq_lib::group_to_multiset_ensures;
    broadcast use vstd::multiset::group_multiset_axioms;

    if s.len() == 0 {
        assert(seq![x] =~= Seq::<InstalledModel>::empty().push(x));
    } else if !text_before(s.last().downloaded_at@, x.downloaded_at@) {
    } else {
        let d = s.drop_last();
        lemma_insert_by_text_multiset(x, d);
        assert(s =~= d.push(s.last()));
    }
}

proof fn lemma_by_downloaded_at_multiset(s: Seq<InstalledModel>)
    ensures
        by_downloaded_at(s).to_multiset() =~= s.to_multiset(),
    decreases s.len(),
{
    broadcast use vstd::seq_lib::group_to_multiset_ensures;
    broadcast use vstd::multiset::group_multiset_axioms;

    if s.len() > 0 {
        let d = s.drop_last();
        lemma_by_downloaded_at_multiset(d);
        lemma_insert_by_text_multiset(s.last(), by_downloaded_at(d));
        assert(s =~= d.push(s.last()));
    }
}

/// Sorting installed models by their `downloaded_at` text gives a list in descending
/// text order that holds exactly the models given, each as often.
pub proof fn law_sorted_models_descend_by_text(models: Seq<InstalledModel>)
    ensures
        descending_by_text(by_downloaded_at(models)),
        by_downloaded_at(models).to_multiset() == models.to_multiset(),
{
    lemma_by_downloaded_at_ordered(models);
    lemma_by_downloaded_at_multiset(models);
}

proof fn lemma_insert_by_text_position(x: InstalledModel, s: Seq<InstalledModel>, j: int)
    requires
        0 <= j <= s.len(),
        forall|k: int| j <= k < s.len() ==> text_before(#[trigger] s[k].downloaded_at@, x.downloaded_at@),
        j == 0 || !text_before(s[j - 1].downloaded_at@, x.downloaded_at@),
    ensures
        insert_by_text(x, s) == s.take(j).push(x) + s.subrange(j, s.len() as int),
    decreases s.len(),
{
    if s.len() == 0 {
        assert(s.take(j).push(x) + s.subrange(j, s.len() as int) =~= seq![x]);
    } else if j == s.len() {
        assert(s.take(j).push(x) + s.subrange(j, s.len() as int) =~= s.push(x));
    } else {
        let d = s.drop_last();
        lemma_insert_by_text_position(x, d, j);
        assert(s.take(j).push(x) + s.subrange(j, s.len() as int) =~= (d.take(j).push(x) + d.subrange(
            j,
            d.len() as int,
        )).push(s.last()));
    }
}

fn insert_by_age_text(v: &mut Vec<InstalledModel>, keys: &mut Vec<Vec<char>>, x: InstalledModel)
    requires
        old(keys)@.len() == old(v)@.len(),
        forall|k: int| 0 <= k < old(v)@.len() ==> (#[trigger] old(keys)@[k])@ == old(v)@[k].downloaded_at@,
    ensures
        final(v)@ == insert_by_text(x, old(v)@),
        final(keys)@.len() == final(v)@.len(),
        forall|k: int| 0 <= k < final(v)@.len() ==> (#[trigger] final(keys)@[k])@ == final(v)@[k].downloaded_at@,
{
    let ghost s = v@;
    let xk = chars_of(x.downloaded_at.as_str());
    let mut j = v.len();
    while j > 0 && str_before(&keys[j - 1], &xk)
        invariant
            j <= v@.len(),
            s == v@,
            keys@.len() == v@.len(),
            xk@ == x.downloaded_at@,
            forall|k: int| 0 <= k < v@.len() ==> (#[trigger] keys@[k])@ == v@[k].downloaded_at@,
            forall|k: int| j <= k < v@.len() ==> text_before(#[trigger] v@[k].downloaded_at@, x.downloaded_at@),
        decreases j,
    {
        j = j - 1;
    }
    proof {
        lemma_insert_by_text_position(x, s, j as int);
    }
    v.insert(j, x);
    keys.insert(j, xk);
    assert(v@ =~= s.take(j as int).push(x) + s.subrange(j as int, s.len() as int));
    assert forall|k: int| 0 <= k < v@.len() implies (#[trigger] keys@[k])@ == v@[k].downloaded_at@ by {
        if k > j as int {
            assert(v@[k] == s[k - 1]);
        }
    }
}

/// Orders installed models by their `downloaded_at` text, greatest text first, as a
/// stable sort (see `by_downloaded_at`).
pub fn sort_by_downloaded_at(models: Vec<InstalledModel>) -> (r: Vec<InstalledModel>)
    ensures
        r@ == by_downloaded_at(models@),
{
    let ghost s = models@;
    let mut v = models;
    let mut r: Vec<InstalledModel> = Vec::new();
    let mut keys: Vec<Vec<char>> = Vec::new();
    let ghost mut done: int = 0;
    while v.len() > 0
        invariant
            0 <= done <= s.len(),
            v@ == s.subrange(done, s.len() as int),
            r@ == by_downloaded_at(s.take(done)),
            keys@.len() == r@.len(),
            forall|k: int| 0 <= k < r@.len() ==> (#[trigger] keys@[k])@ == r@[k].downloaded_at@,
        decreases v.len(),
    {
        let x = v.remove(0);
        proof {
            assert(s.take(done + 1).drop_last() =~= s.take(done));
            assert(s.take(done + 1).last() == s[done]);
        }
        insert_by_age_text(&mut r, &mut keys, x);
        proof {
            assert(v@ =~= s.subrange(done + 1, s.len() as int));
            done = done + 1;
        }
    }
    assert(s.take(done) =~= s);
    r
}

/// The model files of a folder, by name (files ending in `.gguf`), in folder order.
pub open spec fn gguf_names_of(names: Seq<Seq<char>>) -> Seq<Seq<char>>
    decreases names.len(),
{
    if names.len() == 0 {
        Seq::empty()
    } else if has_suffix(names.last(), ".gguf"@) {
        gguf_names_of(names.drop_last()).push(names.last())
    } else {
        gguf_names_of(names.drop_last())
    }
}

/// The names among `names` that end in `.gguf`, whose server models are removed with
/// the folder.
pub fn gguf_file_names(names: &Vec<String>) -> (r: Vec<String>)
    ensures
        r@.map_values(|n: String| n@) == gguf_names_of(names@.map_values(|n: String| n@)),
{
    let ghost all = names@.map_values(|n: String| n@);
    let mut r: Vec<String> = Vec::new();
    let mut i: usize = 0;
    while i < names.len()
        invariant
            i <= names@.len(),
            all == names@.map_values(|n: String| n@),
            r@.map_values(|n: String| n@) == gguf_names_of(all.take(i as int)),
        decreases names@.len() - i,
    {
        proof {
            assert(all.take(i + 1).drop_last() =~= all.take(i as int));
            assert(all.take(i + 1).last() == names@[i as int]@);
        }
        if str_ends_with(names[i].as_str(), ".gguf") {
            let ghost prev = r@;
            let n = names[i].clone();
            r.push(n);
            assert(r@.map_values(|n: String| n@) =~= prev.map_values(|n: String| n@).push(n@));
        }
        i = i + 1;
    }
    assert(all.take(names@.len() as int) =~= all);
    r
}

/// Whether a single file may be deleted: it must exist, and the Modelfile is never
/// deleted on its own.
pub fn check_file_deletion(filename: &str, exists: bool) -> (r: Result<(), String>)
    ensures
        !exists ==> (r matches Err(e) && e@ == "File not found: "@ + filename@),
        exists && filename@ == "Modelfile"@ ==> (r matches Err(e) && e@
            == "Cannot delete Modelfile directly. Delete the GGUF file instead."@),
        exists && filename@ != "Modelfile"@ ==> r is Ok,
{
    if !exists {
        let mut e = String::from_str("File not found: ");
        push_str(&mut e, filename);
        return Err(e);
    }
    if str_eq(filename, "Modelfile") {
        return Err(String::from_str("Cannot delete Modelfile directly. Delete the GGUF file instead."));
    }
    Ok(())
}

/// Whether a folder entry is a file of the given quantization (never the Modelfile).
pub open spec fn has_quantization(e: FolderEntry, quantization: Seq<char>) -> bool {
    e.is_file && e.filename@ != "Modelfile"@ && quantization_of(e.filename@) == Some(quantization)
}

/// The files of a quantization, in folder order.
pub open spec fn quantization_files(s: Seq<FolderEntry>, q: Seq<char>) -> Seq<Seq<char>>
    decreases s.len(),
{
    if s.len() == 0 {
        Seq::empty()
    } else if has_quantization(s.last(), q) {
        quantization_files(s.drop_last(), q).push(s.last().filename@)
    } else {
        quantization_files(s.drop_last(), q)
    }
}

/// `idx` lists, in increasing order, the positions of the entries of `s` that are
/// files of quantization `q`, every such position once, and `names` holds their file
/// names in that order.
pub open spec fn picks_matching_entries(idx: Seq<int>, s: Seq<FolderEntry>, q: Seq<char>, names: Seq<Seq<char>>) -> bool {
    &&& idx.len() == names.len()
    &&& forall|k: int|
        0 <= k < idx.len() ==> 0 <= #[trigger] idx[k] < s.len() && has_quantization(s[idx[k]], q) && names[k]
            == s[idx[k]].filename@
    &&& forall|k1: int, k2: int| 0 <= k1 < k2 < idx.len() ==> #[trigger] idx[k1] < #[trigger] idx[k2]
    &&& forall|i: int| 0 <= i < s.len() && has_quantization(#[trigger] s[i], q) ==> exists|k: int|
        0 <= k < idx.len() && idx[k] == i
}

/// The positions of the entries that `quantization_files` keeps, in order.
proof fn quantization_file_positions(s: Seq<FolderEntry>, q: Seq<char>) -> (idx: Seq<int>)
    ensures
        idx.len() == quantization_files(s, q).len(),
        forall|k: int|
            0 <= k < idx.len() ==> 0 <= #[trigger] idx[k] < s.len() && has_quantization(s[idx[k]], q)
                && quantization_files(s, q)[k] == s[idx[k]].filename@,
        forall|k1: int, k2: int| 0 <= k1 < k2 < idx.len() ==> #[trigger] idx[k1] < #[trigger] idx[k2],
        forall|i: int| 0 <= i < s.len() && has_quantization(#[trigger] s[i], q) ==> exists|k: int|
            0 <= k < idx.len() && idx[k] == i,
    decreases s.len(),
{
    if s.len() == 0 {
        Seq::empty()
    } else {
        let d = s.drop_last();
        let p = quantization_file_positions(d, q);
        let last = s.len() - 1;
        let idx = if has_quantization(s.last(), q) { p.push(last) } else { p };
        assert forall|k: int| 0 <= k < idx.len() implies 0 <= #[trigger] idx[k] < s.len() && has_quantization(
            s[idx[k]],
            q,
        ) && quantization_files(s, q)[k] == s[idx[k]].filename@ by {
            if k < p.len() {
                assert(idx[k] == p[k]);
                assert(d[p[k]] == s[p[k]]);
            }
        }
        assert forall|i: int| 0 <= i < s.len() && has_quantization(#[trigger] s[i], q) implies exists|k: int|
            0 <= k < idx.len() && idx[k] == i by {
            if i < last {
                assert(d[i] == s[i]);
                let k = choose|k: int| 0 <= k < p.len() && p[k] == i;
                assert(idx[k] == p[k]);
            } else {
                assert(idx[p.len() as int] == last);
            }
        }
        idx
    }
}

/// Law: the files chosen for a quantization are exactly the folder's files of that
/// quantization, in folder order: every such file is chosen, each chosen name is the
/// name of such a file, and the chosen files come from distinct entries in increasing
/// order (so none is chosen twice or left out).
pub proof fn law_quantization_files_are_the_matching_files(s: Seq<FolderEntry>, q: Seq<char>)
    ensures
        forall|i: int|
            0 <= i < s.len() && has_quantization(#[trigger] s[i], q) ==> quantization_files(s, q).contains(
                s[i].filename@,
            ),
        exists|idx: Seq<int>| #[trigger] picks_matching_entries(idx, s, q, quantization_files(s, q)),
{
    let idx = quantization_file_positions(s, q);
    let r = quantization_files(s, q);
    assert(picks_matching_entries(idx, s, q, r));
    assert forall|i: int| 0 <= i < s.len() && has_quantization(#[trigger] s[i], q) implies r.contains(
        s[i].filename@,
    ) by {
        let k = choose|k: int| 0 <= k < idx.len() && idx[k] == i;
        assert(r[k] == s[idx[k]].filename@);
    }
}

/// The files to delete to remove one quantization of a model, or the message that it
/// has none.
pub fn files_with_quantization(entries: &Vec<FolderEntry>, quantization: &str) -> (r: Result<Vec<String>, String>)
    ensures
        match r {
            Ok(v) => v@.len() > 0 && v@.map_values(|n: String| n@) == quantization_files(entries@, quantization@),
            Err(e) => quantization_files(entries@, quantization@).len() == 0 && e@
                == "No files found with quantization: "@ + quantization@,
        },
{
    let mut r: Vec<String> = Vec::new();
    let mut i: usize = 0;
    while i < entries.len()
        invariant
            i <= entries@.len(),
            r@.map_values(|n: String| n@) == quantization_files(entries@.take(i as int), quantization@),
        decreases entries@.len() - i,
    {
        proof {
            assert(entries@.take(i + 1).drop_last() =~= entries@.take(i as int));
            assert(entries@.take(i + 1).last() == entries@[i as int]);
        }
        let e = &entries[i];
        if e.is_file && !str_eq(e.filename.as_str(), "Modelfile") {
            let q = extract_quantization(e.filename.as_str());
            let matches = match &q {
                Some(found) => str_eq(found.as_str(), quantization),
                None => false,
            };
            if matches {
                let ghost prev = r@;
                let n = e.filename.clone();
                r.push(n);
                assert(r@.map_values(|n: String| n@) =~= prev.map_values(|n: String| n@).push(n@));
            }
        }
        i = i + 1;
    }
    assert(entries@.take(entries@.len() as int) =~= entries@);
    if r.len() == 0 {
        let mut e = String::from_str("No files found with quantization: ");
        push_str(&mut e, quantization);
        Err(e)
    } else {
        Ok(r)
    }
}

/// A request to register a model from a Modelfile.
pub struct ModelImportRequest {
    pub model_name: String,
    pub modelfile_path: String,
}

/// The Modelfile written for a downloaded file, with the name it registers and its
/// quantization.
pub struct ModelFileResponse {
    pub modelfile_path: String,
    pub ollama_model_name: String,
    pub quantization: String,
}

/// The reply to a request for a Modelfile, once written to `modelfile_path`: the
/// quantization read from the file name (`default` when it has none) and the model
/// server name it registers, the same canonical name a finished download registers.
pub fn modelfile_response(model_id: &str, filename: &str, modelfile_path: &str) -> (r: ModelFileResponse)
    ensures
        r.modelfile_path@ == modelfile_path@,
        r.quantization@ == download_quantization_of(filename@),
        r.ollama_model_name@ == model_name_of(model_id@, quantization_of(filename@)),
{
    let q = extract_quantization(filename);
    let name = match &q {
        Some(s) => ollama_model_name(model_id, Some(s.as_str())),
        None => ollama_model_name(model_id, None),
    };
    let quantization = match q {
        Some(s) => s,
        None => String::from_str("default"),
    };
    ModelFileResponse { modelfile_path: String::from_str(modelfile_path), ollama_model_name: name, quantization }
}

/// The Modelfile that registers a downloaded file: it names the file, relative to the
/// Modelfile's folder.
pub fn modelfile_text(gguf_filename: &str) -> (r: String)
    ensures
        r@ == "FROM ./"@ + gguf_filename@ + "\n"@,
{
    let mut r = String::from_str("FROM ./");
    push_str(&mut r, gguf_filename);
    push_str(&mut r, "\n");
    r
}

/// A downloaded file as offered for chatting.
pub struct ChatModelEntry {
    /// `<model_id>:<filename>`.
    pub value: String,
    /// `<name> (<quantization>)`.
    pub label: String,
    pub model_id: String,
    pub author: String,
    pub name: String,
    /// The file's quantization, or `default`.
    pub quantization: String,
    pub parameter_count: Option<String>,
    pub filename: String,
    pub path: String,
    pub has_modelfile: bool,
    pub size: u64,
    /// The registered server name to chat with, or empty when none matches.
    pub ollama_model_name: String,
    pub is_registered: bool,
}

/// The quantization a file is offered under: its own, or `default`.
pub open spec fn offered_quantization(f: InstalledModelFile) -> Seq<char> {
    match f.quantization {
        Some(q) => q@,
        None => "default"@,
    }
}

/// The entry offering `file` of `model` for chatting, with the first registered server
/// name that answers for the file's canonical name (see `chat_model_matches`).
pub fn chat_model_entry(model: &InstalledModel, file: &InstalledModelFile, registered: &Vec<String>) -> (r: ChatModelEntry)
    ensures
        r.value@ == model.model_id@ + ":"@ + file.filename@,
        r.label@ == model.name@ + " ("@ + offered_quantization(*file) + ")"@,
        r.model_id@ == model.model_id@,
        r.author@ == model.author@,
        r.name@ == model.name@,
        r.quantization@ == offered_quantization(*file),
        opt_string_view(r.parameter_count) == opt_string_view(file.parameter_count),
        r.filename@ == file.filename@,
        r.path@ == file.path@,
        r.has_modelfile == file.has_modelfile,
        r.size == file.size,
        ({
            let wanted = model_name_of(model.model_id@, Some(offered_quantization(*file)));
            &&& r.is_registered == exists|i: int|
                0 <= i < registered@.len() && #[trigger] chat_model_matches(registered@[i]@, wanted)
            &&& r.is_registered ==> exists|i: int|
                0 <= i < registered@.len() && registered@[i]@ == r.ollama_model_name@ && chat_model_matches(
                    registered@[i]@,
                    wanted,
                ) && forall|j: int| 0 <= j < i ==> !#[trigger] chat_model_matches(registered@[j]@, wanted)
            &&& !r.is_registered ==> r.ollama_model_name@ == Seq::<char>::empty()
        }),
{
    let quantization = match &file.quantization {
        Some(q) => q.clone(),
        None => String::from_str("default"),
    };
    let wanted = ollama_model_name(model.model_id.as_str(), Some(quantization.as_str()));
    let found = find_chat_model(registered, wanted.as_str());
    proof {
        assert(quantization@ == offered_quantization(*file));
        assert(wanted@ == model_name_of(model.model_id@, Some(offered_quantization(*file))));
        if found is Some {
            let n = found->0;
            let i = choose|i: int|
                0 <= i < registered@.len() && registered@[i]@ == n@ && chat_model_matches(n@, wanted@) && forall|j: int|
                    0 <= j < i ==> !#[trigger] chat_model_matches(registered@[j]@, wanted@);
            assert(chat_model_matches(registered@[i]@, wanted@));
        }
    }
    let mut value = model.model_id.clone();
    push_str(&mut value, ":");
    push_str(&mut value, file.filename.as_str());
    let mut label = model.name.clone();
    push_str(&mut label, " (");
    push_str(&mut label, quantization.as_str());
    push_str(&mut label, ")");
    let is_registered = found.is_some();
    let ollama_model_name = match found {
        Some(n) => n,
        None => String::new(),
    };
    ChatModelEntry {
        value,
        label,
        model_id: model.model_id.clone(),
        author: model.author.clone(),
        name: model.name.clone(),
        quantization,
        parameter_count: match &file.parameter_count {
            Some(p) => Some(p.clone()),
            None => None,
        },
        filename: file.filename.clone(),
        path: file.path.clone(),
        has_modelfile: file.has_modelfile,
        size: file.size,
        ollama_model_name,
        is_registered,
    }
}

} // verus!
