//! Downloading a model file: where its pieces are kept, how it is split into ranges
//! fetched in parallel, when a previous download is resumed or already complete, how
//! failed pieces are reported, and how registering the model with the server is
//! retried.
//!
//! The application performs the requests and file operations; each decision it takes
//! from their results is made here.

use vstd::prelude::*;
use crate::hf_utils::{extract_quantization, model_folder_name, opt_string_view, quantization_of};
use crate::text::{
    decimal, has_prefix, has_suffix, lemma_decimal_digits, lemma_decimal_injective, push_decimal, push_str,
    replace_char,
};

verus! {

/// How many ranges a large file is split into.
pub const PARALLEL_CHUNKS: usize = 8;

/// Below twice this size (10 MiB) a file is split into fewer ranges.
pub const MIN_CHUNK_SIZE: u64 = 10485760;

/// A name that `Path::join` appends to a base path rather than substituting for it, on
/// Unix and on Windows alike: not empty, not starting with a separator, without a
/// drive prefix.
pub open spec fn plain_relative(name: Seq<char>) -> bool {
    &&& name.len() > 0
    &&& name[0] != '/'
    &&& name[0] != '\\'
    &&& !(name.len() >= 2 && name[1] == ':')
}

/// A base path that `Path::join` keeps as it is: one that does not start with `\`
/// (which would allow a verbatim prefix, whose joined paths are normalised).
pub open spec fn plain_base(base: Seq<char>) -> bool {
    base.len() == 0 || base[0] != '\\'
}

/// The separators that `Path::join` may put between `base` and a plain relative
/// name: none after an empty base or one ending in `/`; one `/` or `\\` (the
/// platform's own) after any other base, except that a base ending in `\\` or a bare
/// drive such as `C:` may also get none (both are Windows forms).
pub open spec fn separator_for(base: Seq<char>, sep: Seq<char>) -> bool {
    if base.len() == 0 || base.last() == '/' {
        sep == Seq::<char>::empty()
    } else if base.last() == '\\' || (base.len() == 2 && base[1] == ':') {
        sep == Seq::<char>::empty() || sep == seq!['/'] || sep == seq!['\\']
    } else {
        sep == seq!['/'] || sep == seq!['\\']
    }
}

/// `p` is `base` joined with `name`: for a plain relative name and a plain base,
/// `base`, then a separator allowed by `separator_for`, then `name`.
pub open spec fn path_joined(p: Seq<char>, base: Seq<char>, name: Seq<char>) -> bool {
    plain_relative(name) && plain_base(base) ==> exists|sep: Seq<char>|
        #[trigger] separator_for(base, sep) && p == base + sep + name
}

/// Whether `c` separates path components on some platform (`/` everywhere, `\\` on
/// Windows).
pub open spec fn is_path_separator(c: char) -> bool {
    c == '/' || c == '\\'
}

/// The text after the last separator of `s` (all of `s` when it has none).
pub open spec fn last_component(s: Seq<char>) -> Seq<char>
    decreases s.len(),
{
    if s.len() == 0 {
        s
    } else if is_path_separator(s.last()) {
        Seq::empty()
    } else {
        last_component(s.drop_last()).push(s.last())
    }
}

/// `base` joined with `name` by `std::path::Path::join`, as text. By the
/// documentation of `Path::join` and `PathBuf::push`, a relative name is adjoined to
/// the base after the platform's separator (`/` on Unix, `\\` on Windows, where `/` is
/// a separator too), which is not doubled when the base already ends with one; an
/// empty base gives the name itself. Which of the two separators is used depends on
/// the platform and is left open. Whatever the name and the base, the name's last
/// component ends the result: an absolute name replaces the base, a Windows name with
/// a root or a drive replaces all or all but the drive of it, and under a verbatim
/// base only `.` and `..` components are dropped; so this is said of every last
/// component but `.` and `..`. The rest of the result for names and bases outside
/// `plain_relative` and `plain_base` is left unsaid.
#[verifier::external_body]
fn join_path(base: &str, name: &str) -> (r: String)
    ensures
        path_joined(r@, base@, name@),
        last_component(name@) != "."@ && last_component(name@) != ".."@ ==> has_suffix(r@, last_component(name@)),
{
    std::path::Path::new(base).join(name).to_string_lossy().into_owned()
}

/// The name of piece `i` of a download: `<filename>.part.<i>`.
pub open spec fn chunk_file_name(filename: Seq<char>, i: nat) -> Seq<char> {
    filename + ".part."@ + decimal(i)
}

/// `p` is the path of piece `i` of `filename` in `model_dir`: `model_dir` joined with
/// the piece's name, ending, whatever the names, with the last component of that name.
pub open spec fn piece_path(p: Seq<char>, model_dir: Seq<char>, filename: Seq<char>, i: nat) -> bool {
    &&& path_joined(p, model_dir, chunk_file_name(filename, i))
    &&& has_suffix(p, last_component(chunk_file_name(filename, i)))
}

/// All paths of one model download.
pub struct ModelPaths {
    pub model_dir: String,
    pub file_path: String,
    pub part_path: String,
}

impl ModelPaths {
    /// The paths for `filename` of repository `model_id` under the application's data
    /// directory: `<app_dir>/models/<model_id with / as _>/` holds `<filename>` and the
    /// legacy `<filename>.part`.
    pub fn new(app_dir: &str, model_id: &str, filename: &str) -> (r: ModelPaths)
        ensures
            exists|models_dir: Seq<char>|
                {
                    &&& path_joined(models_dir, app_dir@, "models"@)
                    &&& path_joined(r.model_dir@, models_dir, replace_char(model_id@, '/', '_'))
                },
            path_joined(r.file_path@, r.model_dir@, filename@),
            path_joined(r.part_path@, r.model_dir@, filename@ + ".part"@),
    {
        let models_dir = join_path(app_dir, "models");
        let folder = model_folder_name(model_id);
        let model_dir = join_path(models_dir.as_str(), folder.as_str());
        let file_path = join_path(model_dir.as_str(), filename);
        let mut part_name = String::from_str(filename);
        push_str(&mut part_name, ".part");
        let part_path = join_path(model_dir.as_str(), part_name.as_str());
        assert(path_joined(models_dir@, app_dir@, "models"@));
        ModelPaths { model_dir, file_path, part_path }
    }

    /// The path of piece `chunk_index` of `filename`: `<model_dir>/<filename>.part.<i>`.
    pub fn chunk_path(&self, filename: &str, chunk_index: usize) -> (r: String)
        ensures
            piece_path(r@, self.model_dir@, filename@, chunk_index as nat),
    {
        let mut name = String::from_str(filename);
        push_str(&mut name, ".part.");
        push_decimal(&mut name, chunk_index as u64);
        proof {
            assert(name@ =~= chunk_file_name(filename@, chunk_index as nat));
            if plain_relative(filename@) {
                lemma_chunk_name_plain(filename@, chunk_index as nat);
            }
            lemma_piece_last_component(filename@, chunk_index as nat);
        }
        join_path(self.model_dir.as_str(), name.as_str())
    }
}

proof fn lemma_chunk_name_plain(filename: Seq<char>, i: nat)
    requires
        plain_relative(filename),
    ensures
        plain_relative(chunk_file_name(filename, i)),
        chunk_file_name(filename, i)[0] == filename[0],
{
    let n = chunk_file_name(filename, i);
    assert(n[0] == filename[0]);
    assert(filename.len() >= 2 ==> n[1] == filename[1]);
    assert(filename.len() == 1 ==> n[1] == '.') by {
        reveal_strlit(".part.");
    }
}

proof fn lemma_last_component_append(a: Seq<char>, b: Seq<char>)
    requires
        forall|k: int| 0 <= k < b.len() ==> !is_path_separator(#[trigger] b[k]),
    ensures
        last_component(a + b) == last_component(a) + b,
    decreases b.len(),
{
    if b.len() == 0 {
        assert(a + b =~= a);
        assert(last_component(a) + b =~= last_component(a));
    } else {
        assert((a + b).drop_last() =~= a + b.drop_last());
        assert((a + b).last() == b.last());
        assert(!is_path_separator(b[b.len() - 1]));
        lemma_last_component_append(a, b.drop_last());
        assert(last_component(a) + b =~= (last_component(a) + b.drop_last()).push(b.last()));
    }
}

/// The last component of a piece's name: that of the file name, then `.part.` and the
/// piece number; never `.` or `..`.
proof fn lemma_piece_last_component(filename: Seq<char>, i: nat)
    ensures
        last_component(chunk_file_name(filename, i)) == last_component(filename) + ".part."@ + decimal(i),
        last_component(chunk_file_name(filename, i)) != "."@,
        last_component(chunk_file_name(filename, i)) != ".."@,
{
    lemma_decimal_digits(i);
    assert(".part."@ =~= seq!['.', 'p', 'a', 'r', 't', '.']) by {
        reveal_strlit(".part.");
    }
    assert("."@ =~= seq!['.']) by {
        reveal_strlit(".");
    }
    assert(".."@ =~= seq!['.', '.']) by {
        reveal_strlit("..");
    }
    let tail = ".part."@ + decimal(i);
    assert forall|k: int| 0 <= k < tail.len() implies !is_path_separator(#[trigger] tail[k]) by {
        if k >= 6 {
            assert(tail[k] == decimal(i)[k - 6]);
        }
    }
    assert(chunk_file_name(filename, i) =~= filename + tail);
    lemma_last_component_append(filename, tail);
    assert(last_component(filename) + ".part."@ + decimal(i) =~= last_component(filename) + tail);
    let lc = last_component(filename) + tail;
    assert(lc.last() == decimal(i)[decimal(i).len() - 1]);
}

/// Two different pieces of one file are kept at different paths, whatever the file
/// name and the model folder.
pub proof fn law_piece_paths_differ(
    model_dir: Seq<char>,
    filename: Seq<char>,
    i: nat,
    j: nat,
    p: Seq<char>,
    q: Seq<char>,
)
    requires
        piece_path(p, model_dir, filename, i),
        piece_path(q, model_dir, filename, j),
        i != j,
    ensures
        p != q,
{
    lemma_piece_last_component(filename, i);
    lemma_piece_last_component(filename, j);
    lemma_decimal_digits(i);
    lemma_decimal_digits(j);
    assert(".part."@ =~= seq!['.', 'p', 'a', 'r', 't', '.']) by {
        reveal_strlit(".part.");
    }
    let t = last_component(filename) + ".part."@;
    let di = decimal(i);
    let dj = decimal(j);
    let ti = t + di;
    let tj = t + dj;
    assert(last_component(chunk_file_name(filename, i)) =~= ti);
    assert(last_component(chunk_file_name(filename, j)) =~= tj);
    if p == q {
        let n = p.len() as int;
        assert(p.subrange(n - ti.len(), n) == ti);
        assert(q.subrange(n - tj.len(), n) == tj);
        assert(t.len() >= 1 && t[t.len() - 1] == '.');
        if di.len() == dj.len() {
            assert(ti == tj);
            assert(di =~= ti.subrange(t.len() as int, ti.len() as int));
            assert(dj =~= tj.subrange(t.len() as int, tj.len() as int));
            lemma_decimal_injective(i, j);
        } else if di.len() < dj.len() {
            let k = n - di.len() - 1;
            assert(p[k] == ti[ti.len() - di.len() - 1]);
            assert(ti[ti.len() - di.len() - 1] == t[t.len() - 1]);
            assert(q[k] == tj[tj.len() - di.len() - 1]);
            assert(tj[tj.len() - di.len() - 1] == dj[dj.len() - di.len() - 1]);
        } else {
            let k = n - dj.len() - 1;
            assert(q[k] == tj[tj.len() - dj.len() - 1]);
            assert(tj[tj.len() - dj.len() - 1] == t[t.len() - 1]);
            assert(p[k] == ti[ti.len() - dj.len() - 1]);
            assert(ti[ti.len() - dj.len() - 1] == di[di.len() - dj.len() - 1]);
        }
    }
}

/// A piece of a download lies directly in the model's folder: its path is the folder,
/// one separator, and the piece's name, which holds no separator (for a file name
/// without one, and a folder path that does not itself end in a separator or stand
/// for a bare drive).
pub proof fn law_piece_path_in_model_folder(model_dir: Seq<char>, filename: Seq<char>, i: nat, p: Seq<char>)
    requires
        plain_relative(filename),
        forall|k: int| 0 <= k < filename.len() ==> #[trigger] filename[k] != '/' && filename[k] != '\\',
        plain_base(model_dir),
        model_dir.len() > 0,
        model_dir.last() != '/' && model_dir.last() != '\\',
        !(model_dir.len() == 2 && model_dir[1] == ':'),
        piece_path(p, model_dir, filename, i),
    ensures
        p.len() == model_dir.len() + 1 + chunk_file_name(filename, i).len(),
        p.take(model_dir.len() as int) == model_dir,
        p[model_dir.len() as int] == '/' || p[model_dir.len() as int] == '\\',
        p.skip(model_dir.len() + 1int) == chunk_file_name(filename, i),
        forall|k: int|
            0 <= k < chunk_file_name(filename, i).len() ==> #[trigger] chunk_file_name(filename, i)[k] != '/'
                && chunk_file_name(filename, i)[k] != '\\',
{
    lemma_chunk_name_plain(filename, i);
    lemma_decimal_digits(i);
    let n = chunk_file_name(filename, i);
    let sep = choose|sep: Seq<char>| #[trigger] separator_for(model_dir, sep) && p == model_dir + sep + n;
    let b = model_dir.len() as int;
    assert(p.take(b) =~= model_dir);
    assert(p.skip(b + 1) =~= n);
    assert(".part."@ =~= seq!['.', 'p', 'a', 'r', 't', '.']) by {
        reveal_strlit(".part.");
    }
    assert forall|k: int| 0 <= k < n.len() implies #[trigger] n[k] != '/' && n[k] != '\\' by {
        if k < filename.len() {
            assert(n[k] == filename[k]);
        } else if k < filename.len() + 6 {
            assert(n[k] == ".part."@[k - filename.len()]);
        } else {
            assert(n[k] == decimal(i)[k - filename.len() - 6]);
        }
    }
}

/// The address a repository file is downloaded from.
pub fn file_download_url(model_id: &str, filename: &str) -> (r: String)
    ensures
        r@ == "https://huggingface.co/"@ + model_id@ + "/resolve/main/"@ + filename@,
{
    let mut r = String::from_str("https://huggingface.co/");
    push_str(&mut r, model_id);
    push_str(&mut r, "/resolve/main/");
    push_str(&mut r, filename);
    r
}

/// How many ranges a file of `total` bytes is fetched in: below 20 MiB one range per
/// started 10 MiB (at most eight), otherwise eight.
pub open spec fn chunk_count(total: nat) -> nat {
    if total < 2 * MIN_CHUNK_SIZE {
        let n = total / (MIN_CHUNK_SIZE as nat) + 1;
        if n < PARALLEL_CHUNKS {
            n
        } else {
            PARALLEL_CHUNKS as nat
        }
    } else {
        PARALLEL_CHUNKS as nat
    }
}

/// The size of every range but the last, which takes the rest.
pub open spec fn chunk_size(total: nat) -> nat {
    total / chunk_count(total)
}

/// The first and last byte of range `i`.
pub open spec fn chunk_range(total: nat, i: nat) -> (nat, nat) {
    let cs = chunk_size(total);
    let n = chunk_count(total);
    (i * cs, if i == n - 1 {
        (total - 1) as nat
    } else {
        ((i + 1) * cs - 1) as nat
    })
}

proof fn lemma_chunk_count(total: nat)
    ensures
        1 <= chunk_count(total) <= PARALLEL_CHUNKS,
        chunk_count(total) >= 2 ==> chunk_size(total) >= 1,
        chunk_count(total) * chunk_size(total) <= total,
{
    let n = chunk_count(total);
    let cs = chunk_size(total);
    assert(n * cs <= total) by (nonlinear_arith)
        requires
            n >= 1,
            cs == total / n,
    ;
    if n >= 2 {
        if total < 2 * MIN_CHUNK_SIZE {
            assert(total / (MIN_CHUNK_SIZE as nat) >= 1);
            assert(total >= MIN_CHUNK_SIZE);
            assert(n == 2);
        }
        assert(total >= n);
        assert(cs >= 1) by (nonlinear_arith)
            requires
                n >= 1,
                total >= n,
                cs == total / n,
        ;
    }
}

/// Law: the ranges of a non-empty file cover it exactly, in order and without overlap.
pub proof fn law_chunks_partition(total: nat)
    requires
        total > 0,
    ensures
        chunk_range(total, 0).0 == 0,
        chunk_range(total, (chunk_count(total) - 1) as nat).1 == total - 1,
        forall|i: nat| i < chunk_count(total) ==> #[trigger] chunk_range(total, i).0 <= chunk_range(total, i).1,
        forall|i: nat|
            i + 1 < chunk_count(total) ==> #[trigger] chunk_range(total, i).1 + 1 == chunk_range(total, i + 1).0,
{
    lemma_chunk_count(total);
    let n = chunk_count(total);
    let cs = chunk_size(total);
    assert forall|i: nat| i < n implies #[trigger] chunk_range(total, i).0 <= chunk_range(total, i).1 by {
        if i == n - 1 {
            assert(i * cs + cs <= n * cs) by (nonlinear_arith)
                requires
                    i + 1 == n,
            ;
            if n >= 2 {
                assert(i * cs <= total - 1);
            } else {
                assert(i == 0);
            }
        } else {
            assert((i + 1) * cs == i * cs + cs) by (nonlinear_arith);
        }
    }
    assert forall|i: nat| i + 1 < n implies #[trigger] chunk_range(total, i).1 + 1 == chunk_range(total, i + 1).0 by {
        assert((i + 1) * cs >= 1) by (nonlinear_arith)
            requires
                cs >= 1,
        ;
    }
}

/// The number of ranges and the size of each but the last.
pub fn chunk_plan(total: u64) -> (r: (usize, u64))
    ensures
        r.0 == chunk_count(total as nat),
        r.1 == chunk_size(total as nat),
{
    let n: usize = if total < 2 * MIN_CHUNK_SIZE {
        let k = total / MIN_CHUNK_SIZE + 1;
        if k < PARALLEL_CHUNKS as u64 {
            k as usize
        } else {
            PARALLEL_CHUNKS
        }
    } else {
        PARALLEL_CHUNKS
    };
    proof {
        lemma_chunk_count(total as nat);
    }
    (n, total / n as u64)
}

/// The byte ranges of a non-empty file, first to last (see `chunk_range`).
pub fn chunk_ranges(total: u64) -> (r: Vec<(u64, u64)>)
    requires
        total > 0,
    ensures
        r@.len() == chunk_count(total as nat),
        forall|i: int|
            0 <= i < r@.len() ==> (#[trigger] r@[i]).0 == chunk_range(total as nat, i as nat).0 && r@[i].1
                == chunk_range(total as nat, i as nat).1,
{
    let (n, cs) = chunk_plan(total);
    proof {
        lemma_chunk_count(total as nat);
        law_chunks_partition(total as nat);
    }
    let mut r: Vec<(u64, u64)> = Vec::new();
    let mut i: usize = 0;
    while i < n
        invariant
            i <= n,
            n == chunk_count(total as nat),
            cs == chunk_size(total as nat),
            1 <= n <= PARALLEL_CHUNKS,
            n * cs <= total,
            n >= 2 ==> cs >= 1,
            total > 0,
            r@.len() == i,
            forall|j: int|
                0 <= j < i ==> (#[trigger] r@[j]).0 == chunk_range(total as nat, j as nat).0 && r@[j].1
                    == chunk_range(total as nat, j as nat).1,
        decreases n - i,
    {
        assert((i as nat) * (cs as nat) <= (n as nat) * (cs as nat)) by (nonlinear_arith)
            requires
                i <= n,
        ;
        assert(((i + 1) as nat) * (cs as nat) <= (n as nat) * (cs as nat)) by (nonlinear_arith)
            requires
                i + 1 <= n,
        ;
        let start = i as u64 * cs;
        let end = if i == n - 1 {
            total - 1
        } else {
            assert(((i + 1) as nat) * (cs as nat) >= 1) by (nonlinear_arith)
                requires
                    cs >= 1,
            ;
            (i as u64 + 1) * cs - 1
        };
        r.push((start, end));
        i = i + 1;
    }
    r
}

/// Whether a previous download is resumed, and whether a leftover single-file `.part`
/// download is removed first.
pub struct ResumeDecision {
    pub resume: bool,
    pub remove_legacy_part: bool,
}

/// Whether a piece on disk of `size` bytes holds its whole range.
pub open spec fn piece_complete(size: Option<u64>, range: (nat, nat)) -> bool {
    size matches Some(s) && s == range.1 - range.0 + 1
}

/// Whether every piece of a non-empty file is on disk in full, so only joining them is
/// left; `sizes` holds the size of each piece file, `None` where it is missing.
pub fn all_chunks_complete(sizes: &Vec<Option<u64>>, total: u64) -> (r: bool)
    requires
        total > 0,
    ensures
        r == (sizes@.len() == chunk_count(total as nat) && forall|i: int|
            0 <= i < sizes@.len() ==> piece_complete(#[trigger] sizes@[i], chunk_range(total as nat, i as nat))),
{
    let ranges = chunk_ranges(total);
    proof {
        law_chunks_partition(total as nat);
    }
    if sizes.len() != ranges.len() {
        return false;
    }
    let mut i: usize = 0;
    while i < sizes.len()
        invariant
            i <= sizes@.len(),
            sizes@.len() == ranges@.len(),
            ranges@.len() == chunk_count(total as nat),
            forall|j: int|
                0 <= j < ranges@.len() ==> (#[trigger] ranges@[j]).0 == chunk_range(total as nat, j as nat).0
                    && ranges@[j].1 == chunk_range(total as nat, j as nat).1,
            forall|j: nat| j < chunk_count(total as nat) ==> #[trigger] chunk_range(total as nat, j).0 <= chunk_range(total as nat, j).1,
            forall|j: int| 0 <= j < i ==> piece_complete(#[trigger] sizes@[j], chunk_range(total as nat, j as nat)),
        decreases sizes@.len() - i,
    {
        let (start, end) = ranges[i];
        assert(chunk_range(total as nat, i as nat).0 <= chunk_range(total as nat, i as nat).1);
        let ok = match sizes[i] {
            Some(s) => s as u128 == end as u128 - start as u128 + 1,
            None => false,
        };
        if !ok {
            return false;
        }
        i = i + 1;
    }
    true
}

/// The quantization a downloaded file is registered under: the one in its name, or
/// `default`.
pub open spec fn download_quantization_of(filename: Seq<char>) -> Seq<char> {
    match quantization_of(filename) {
        Some(q) => q,
        None => "default"@,
    }
}

/// The quantization a downloaded file is registered under (see
/// `download_quantization_of`).
pub fn download_quantization(filename: &str) -> (r: String)
    ensures
        r@ == download_quantization_of(filename@),
{
    match extract_quantization(filename) {
        Some(q) => q,
        None => String::from_str("default"),
    }
}

/// Whether the joined file has the expected size: `None` when its size could not be
/// read.
pub open spec fn final_size_for(actual: Option<u64>, total: u64) -> Result<(), Seq<char>> {
    match actual {
        None => Err("Failed to verify final file"@),
        Some(n) => if n == total {
            Ok(())
        } else {
            Err("Final file size mismatch: "@ + decimal(n as nat) + "/"@ + decimal(total as nat) + " bytes"@)
        },
    }
}

/// Checks the size of the joined file (see `final_size_for`).
pub fn final_size_check(actual: Option<u64>, total: u64) -> (r: Result<(), String>)
    ensures
        match r {
            Ok(()) => final_size_for(actual, total) == Ok::<(), Seq<char>>(()),
            Err(e) => final_size_for(actual, total) == Err::<(), Seq<char>>(e@),
        },
{
    match actual {
        None => Err(String::from_str("Failed to verify final file")),
        Some(n) => if n == total {
            Ok(())
        } else {
            let mut e = String::from_str("Final file size mismatch: ");
            push_decimal(&mut e, n);
            push_str(&mut e, "/");
            push_decimal(&mut e, total);
            push_str(&mut e, " bytes");
            Err(e)
        },
    }
}

/// How fetching one piece ended.
pub enum ChunkOutcome {
    Done,
    /// The fetch reported this error.
    Failed(String),
    /// The task running the fetch failed.
    Crashed(String),
}

/// The report line for piece `i`, if it did not complete.
pub open spec fn chunk_error_text(i: nat, o: ChunkOutcome) -> Option<Seq<char>> {
    match o {
        ChunkOutcome::Done => None,
        ChunkOutcome::Failed(e) => Some("Chunk "@ + decimal(i) + ": "@ + e@),
        ChunkOutcome::Crashed(e) => Some("Chunk "@ + decimal(i) + " task error: "@ + e@),
    }
}

/// The report lines of the first `k` pieces, in piece order.
pub open spec fn chunk_errors_upto(outcomes: Seq<ChunkOutcome>, k: nat) -> Seq<Seq<char>>
    decreases k,
{
    if k == 0 {
        Seq::empty()
    } else {
        let prev = chunk_errors_upto(outcomes, (k - 1) as nat);
        match chunk_error_text((k - 1) as nat, outcomes[k - 1]) {
            Some(t) => prev.push(t),
            None => prev,
        }
    }
}

proof fn lemma_chunk_errors_len(outcomes: Seq<ChunkOutcome>, k: nat)
    ensures
        chunk_errors_upto(outcomes, k).len() <= k,
    decreases k,
{
    if k > 0 {
        lemma_chunk_errors_len(outcomes, (k - 1) as nat);
    }
}

/// `parts` joined with `sep` between consecutive parts.
pub open spec fn joined(parts: Seq<Seq<char>>, sep: Seq<char>) -> Seq<char>
    decreases parts.len(),
{
    if parts.len() == 0 {
        Seq::empty()
    } else if parts.len() == 1 {
        parts[0]
    } else {
        joined(parts.drop_last(), sep) + sep + parts.last()
    }
}

/// The result of fetching all pieces: success when every piece completed, otherwise the
/// report lines of the failed pieces joined with `; `.
pub fn chunk_errors(outcomes: &Vec<ChunkOutcome>) -> (r: Result<(), String>)
    requires
        outcomes@.len() <= usize::MAX,
    ensures
        match r {
            Ok(()) => chunk_errors_upto(outcomes@, outcomes@.len()).len() == 0,
            Err(e) => chunk_errors_upto(outcomes@, outcomes@.len()).len() > 0 && e@ == joined(
                chunk_errors_upto(outcomes@, outcomes@.len()),
                "; "@,
            ),
        },
{
    let mut msg = String::new();
    let mut count: usize = 0;
    let mut i: usize = 0;
    while i < outcomes.len()
        invariant
            i <= outcomes@.len(),
            count == chunk_errors_upto(outcomes@, i as nat).len(),
            msg@ == joined(chunk_errors_upto(outcomes@, i as nat), "; "@),
        decreases outcomes@.len() - i,
    {
        let ghost before = chunk_errors_upto(outcomes@, i as nat);
        proof {
            lemma_chunk_errors_len(outcomes@, i as nat);
        }
        let text: Option<String> = match &outcomes[i] {
            ChunkOutcome::Done => None,
            ChunkOutcome::Failed(e) => {
                let mut t = String::from_str("Chunk ");
                push_decimal(&mut t, i as u64);
                push_str(&mut t, ": ");
                push_str(&mut t, e.as_str());
                Some(t)
            },
            ChunkOutcome::Crashed(e) => {
                let mut t = String::from_str("Chunk ");
                push_decimal(&mut t, i as u64);
                push_str(&mut t, " task error: ");
                push_str(&mut t, e.as_str());
                Some(t)
            },
        };
        assert(opt_string_view(text) == chunk_error_text(i as nat, outcomes@[i as int]));
        match text {
            Some(t) => {
                if count > 0 {
                    push_str(&mut msg, "; ");
                }
                push_str(&mut msg, t.as_str());
                proof {
                    let after = before.push(t@);
                    assert(after.drop_last() =~= before);
                    if before.len() == 0 {
                        assert(msg@ =~= t@);
                    }
                }
                count = count + 1;
            },
            None => {},
        }
        assert(chunk_errors_upto(outcomes@, (i + 1) as nat) == (match chunk_error_text(
            i as nat,
            outcomes@[i as int],
        ) {
            Some(t) => before.push(t),
            None => before,
        }));
        i = i + 1;
    }
    if count == 0 {
        Ok(())
    } else {
        Err(msg)
    }
}

/// Registering a downloaded model with the server is tried this many times.
pub const OLLAMA_CREATE_ATTEMPTS: usize = 3;

/// The attempts to register a downloaded model with the server.
pub struct CreationRetry {
    attempt: usize,
    last_error: String,
}

/// Before a retry: how long to wait and the progress message to show.
pub struct RetryPause {
    pub wait_seconds: u64,
    pub message: String,
}

/// `2` to the power `k`.
pub open spec fn pow2(k: nat) -> nat
    decreases k,
{
    if k == 0 {
        1
    } else {
        2 * pow2((k - 1) as nat)
    }
}

impl CreationRetry {
    #[verifier::type_invariant]
    spec fn within_budget(self) -> bool {
        self.attempt <= OLLAMA_CREATE_ATTEMPTS
    }

    /// The attempts made so far.
    pub closed spec fn attempt(self) -> nat {
        self.attempt as nat
    }

    /// The error of the last failed attempt (empty before any failure).
    pub closed spec fn last_error(self) -> Seq<char> {
        self.last_error@
    }

    /// No attempt made yet.
    pub fn new() -> (r: CreationRetry)
        ensures
            r.attempt() == 0,
            r.last_error() == Seq::<char>::empty(),
    {
        CreationRetry { attempt: 0, last_error: String::new() }
    }

    /// Whether another attempt may be made.
    pub fn has_attempts_left(&self) -> (r: bool)
        ensures
            r == (self.attempt() < OLLAMA_CREATE_ATTEMPTS),
    {
        self.attempt < OLLAMA_CREATE_ATTEMPTS
    }

    /// Starts the next attempt. Every attempt after the first waits `2^(n-1)` seconds
    /// (n being its number) after showing `Retrying Ollama model creation (attempt
    /// n/3)...`.
    pub fn begin_attempt(&mut self) -> (r: Option<RetryPause>)
        requires
            old(self).attempt() < OLLAMA_CREATE_ATTEMPTS,
        ensures
            final(self).attempt() == old(self).attempt() + 1,
            final(self).last_error() == old(self).last_error(),
            match r {
                None => final(self).attempt() == 1,
                Some(p) => final(self).attempt() > 1 && p.wait_seconds == pow2((final(self).attempt() - 1) as nat)
                    && p.message@ == "Retrying Ollama model creation (attempt "@ + decimal(final(self).attempt())
                    + "/3)..."@,
            },
    {
        proof {
            use_type_invariant(&*self);
            reveal_with_fuel(pow2, 3);
        }
        self.attempt = self.attempt + 1;
        if self.attempt == 1 {
            return None;
        }
        let wait_seconds: u64 = if self.attempt == 2 {
            2
        } else {
            4
        };
        let mut message = String::from_str("Retrying Ollama model creation (attempt ");
        push_decimal(&mut message, self.attempt as u64);
        push_str(&mut message, "/3)...");
        Some(RetryPause { wait_seconds, message })
    }

    /// Records the error of the attempt that just failed.
    pub fn on_failure(&mut self, error: String)
        ensures
            final(self).attempt() == old(self).attempt(),
            final(self).last_error() == error@,
    {
        proof {
            use_type_invariant(&*self);
        }
        self.last_error = error;
    }

    /// The error of the last failed attempt (empty before any).
    pub fn last_error_message(&self) -> (r: String)
        ensures
            r@ == self.last_error(),
    {
        String::from_str(self.last_error.as_str())
    }

    /// The status and message shown once every attempt failed: the server is not
    /// running, or creation failed with the last error.
    pub fn failure_report(&self, server_running: bool) -> (r: (String, String))
        ensures
            !server_running ==> r.0@ == "ollama_not_running"@ && r.1@
                == "Ollama is not running. Model file downloaded but cannot create Ollama model. Please start Ollama and try importing manually."@,
            server_running ==> r.0@ == "ollama_creation_failed"@ && r.1@ == "Failed to create Ollama model after 3 attempts: "@
                + self.last_error() + ". Please try importing manually."@,
    {
        if !server_running {
            (
                String::from_str("ollama_not_running"),
                String::from_str(
                    "Ollama is not running. Model file downloaded but cannot create Ollama model. Please start Ollama and try importing manually.",
                ),
            )
        } else {
            let mut m = String::from_str("Failed to create Ollama model after 3 attempts: ");
            push_str(&mut m, self.last_error.as_str());
            push_str(&mut m, ". Please try importing manually.");
            (String::from_str("ollama_creation_failed"), m)
        }
    }
}

/// The message shown when the server registered the model.
pub fn creation_success_message(model_name: &str) -> (r: String)
    ensures
        r@ == "Ollama model '"@ + model_name@ + "' created successfully"@,
{
    let mut r = String::from_str("Ollama model '");
    push_str(&mut r, model_name);
    push_str(&mut r, "' created successfully");
    r
}

/// Coordinates a model download; the decisions it takes are the functions of this
/// module.
pub struct DownloadManager;

impl DownloadManager {
    /// Whether a resumed download is already finished: the file it writes exists with
    /// the full size (`file_len` is its size on disk, `None` when there is none).
    pub fn download_already_complete(resume: bool, file_len: Option<u64>, total: u64) -> (r: bool)
        ensures
            r == (resume && file_len == Some(total)),
    {
        resume && match file_len {
            Some(n) => n == total,
            None => false,
        }
    }

    /// A download resumes when a piece file of an earlier attempt exists; otherwise a
    /// leftover `.part` file of the older single-stream format is removed.
    pub fn determine_resume_state(chunk_exists: &Vec<bool>, part_exists: bool) -> (r: ResumeDecision)
        ensures
            r.resume == exists|i: int| 0 <= i < chunk_exists@.len() && chunk_exists@[i],
            r.remove_legacy_part == (!r.resume && part_exists),
    {
        let mut i: usize = 0;
        while i < chunk_exists.len()
            invariant
                i <= chunk_exists@.len(),
                forall|j: int| 0 <= j < i ==> !chunk_exists@[j],
            decreases chunk_exists@.len() - i,
        {
            if chunk_exists[i] {
                return ResumeDecision { resume: true, remove_legacy_part: false };
            }
            i = i + 1;
        }
        ResumeDecision { resume: false, remove_legacy_part: part_exists }
    }
}

} // verus!
