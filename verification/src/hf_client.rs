//! Decisions of the model-hub client: which listing entries are GGUF models, how
//! listing pages are requested and when to stop, how results are paged to the
//! front end, and how a repository's details are assembled. The caller performs
//! the HTTP requests and reads the JSON into the plain types below.

use vstd::prelude::*;
use vstd::utf8::encode_utf8;
use crate::hf_parsing::{
    SiblingFile, SiblingView, entry_name, extract_gguf_files, gguf_entries, gguf_views, sibling_views,
    sorted_by_size,
};
use crate::hf_types::{
    HFModelDetails, HFModelSummary, ModelFilter, SearchModelsResponse, copy_opt_string, filter_sort_key,
};
use crate::hf_utils::opt_string_view;
use crate::text::{
    decimal, first_part, first_two_parts, has_suffix, push_decimal, push_str, second_part, str_ends_with,
};

verus! {

/// Most models gathered for one listing.
pub const MAX_MODELS: usize = 100;

/// Models requested per page.
pub const BATCH_SIZE: usize = 100;

/// A model entry of a hub listing, with the values read from each key it may use.
#[derive(Debug, Clone)]
pub struct ModelListing {
    /// `id`, when it is a string.
    pub id: Option<String>,
    /// The `siblings` entries, when `siblings` is an array.
    pub siblings: Option<Vec<SiblingFile>>,
    /// `downloads`, when it is an unsigned integer.
    pub downloads: Option<u64>,
    /// `likes`, when it is an unsigned integer.
    pub likes: Option<u64>,
    /// `created_at`, when it is a string.
    pub created_at: Option<String>,
    /// `createdAt`, when it is a string.
    pub created_at_camel: Option<String>,
    /// `last_modified`, when it is a string.
    pub last_modified: Option<String>,
    /// `lastModified`, when it is a string.
    pub last_modified_camel: Option<String>,
}

/// The text content of a listing entry.
pub struct ListingView {
    pub id: Option<Seq<char>>,
    pub siblings: Option<Seq<SiblingView>>,
    pub downloads: Option<u64>,
    pub likes: Option<u64>,
    pub created_at: Option<Seq<char>>,
    pub created_at_camel: Option<Seq<char>>,
    pub last_modified: Option<Seq<char>>,
    pub last_modified_camel: Option<Seq<char>>,
}

impl View for ModelListing {
    type V = ListingView;

    open spec fn view(&self) -> ListingView {
        ListingView {
            id: opt_string_view(self.id),
            siblings: match self.siblings {
                Some(s) => Some(sibling_views(s@)),
                None => None,
            },
            downloads: self.downloads,
            likes: self.likes,
            created_at: opt_string_view(self.created_at),
            created_at_camel: opt_string_view(self.created_at_camel),
            last_modified: opt_string_view(self.last_modified),
            last_modified_camel: opt_string_view(self.last_modified_camel),
        }
    }
}

/// The text content of a model summary.
pub struct SummaryView {
    pub id: Seq<char>,
    pub model_id: Seq<char>,
    pub author: Seq<char>,
    pub name: Seq<char>,
    pub downloads: Option<u64>,
    pub likes: Option<u64>,
    pub created_at: Option<Seq<char>>,
    pub last_modified: Option<Seq<char>>,
}

impl View for HFModelSummary {
    type V = SummaryView;

    open spec fn view(&self) -> SummaryView {
        SummaryView {
            id: self.id@,
            model_id: self.model_id@,
            author: self.author@,
            name: self.name@,
            downloads: self.downloads,
            likes: self.likes,
            created_at: opt_string_view(self.created_at),
            last_modified: opt_string_view(self.last_modified),
        }
    }
}

/// The views of a list of summaries.
pub open spec fn summary_views(s: Seq<HFModelSummary>) -> Seq<SummaryView> {
    s.map_values(|m: HFModelSummary| m@)
}

/// The first of two optional values that is present.
pub open spec fn or_else<T>(a: Option<T>, b: Option<T>) -> Option<T> {
    if a is Some {
        a
    } else {
        b
    }
}

/// Whether some entry is named as a GGUF file.
pub open spec fn any_gguf(s: Seq<SiblingView>) -> bool {
    exists|i: int| 0 <= i < s.len() && has_suffix(entry_name(s[i]), ".gguf"@)
}

/// The summary of a listing entry: entries without an id, with an empty id, or with
/// file entries none of which is a GGUF file are skipped. The author and name are the
/// parts of the id around its first `/`; the last-modified time falls back to the
/// creation time.
pub open spec fn summary_of(l: ListingView) -> Option<SummaryView> {
    match l.id {
        None => None,
        Some(id) => if id.len() == 0 {
            None
        } else if l.siblings is None || any_gguf(l.siblings->0) {
            let created = or_else(l.created_at, l.created_at_camel);
            Some(SummaryView {
                id,
                model_id: id,
                author: first_part(id, '/'),
                name: second_part(id, '/'),
                downloads: l.downloads,
                likes: l.likes,
                created_at: created,
                last_modified: or_else(or_else(l.last_modified, l.last_modified_camel), created),
            })
        } else {
            None
        },
    }
}

/// The first of two optional strings that is present.
fn first_present(a: &Option<String>, b: &Option<String>) -> (r: Option<String>)
    ensures
        opt_string_view(r) == or_else(opt_string_view(*a), opt_string_view(*b)),
{
    match a {
        Some(s) => Some(s.clone()),
        None => copy_opt_string(b),
    }
}

/// Whether some sibling is named as a GGUF file.
fn has_gguf_sibling(s: &Vec<SiblingFile>) -> (r: bool)
    ensures
        r == any_gguf(sibling_views(s@)),
{
    let ghost sv = sibling_views(s@);
    let mut i: usize = 0;
    while i < s.len()
        invariant
            i <= s@.len(),
            sv == sibling_views(s@),
            forall|k: int| 0 <= k < i ==> !has_suffix(entry_name(sv[k]), ".gguf"@),
        decreases s@.len() - i,
    {
        let f = &s[i];
        let is_gguf = match &f.rfilename {
            Some(n) => str_ends_with(n.as_str(), ".gguf"),
            None => match &f.filename {
                Some(n) => str_ends_with(n.as_str(), ".gguf"),
                None => false,
            },
        };
        if is_gguf {
            assert(has_suffix(entry_name(sv[i as int]), ".gguf"@));
            return true;
        }
        proof {
            if f.rfilename.is_none() && f.filename.is_none() {
                reveal_strlit(".gguf");
                assert(!has_suffix(Seq::<char>::empty(), ".gguf"@));
            }
        }
        i = i + 1;
    }
    false
}

/// Reads the summary of a hub listing entry (see `summary_of`).
pub fn parse_model_summary(item: &ModelListing) -> (r: Option<HFModelSummary>)
    ensures
        match r {
            Some(m) => summary_of(item@) == Some(m@),
            None => summary_of(item@).is_none(),
        },
{
    let id = match &item.id {
        Some(id) => id,
        None => return None,
    };
    if id.as_str().unicode_len() == 0 {
        return None;
    }
    let keep = match &item.siblings {
        None => true,
        Some(s) => has_gguf_sibling(s),
    };
    if !keep {
        return None;
    }
    let (author, name) = first_two_parts(id.as_str(), '/');
    let created_at = first_present(&item.created_at, &item.created_at_camel);
    let last = first_present(&item.last_modified, &item.last_modified_camel);
    let last_modified = match last {
        Some(l) => Some(l),
        None => copy_opt_string(&created_at),
    };
    Some(HFModelSummary {
        id: id.clone(),
        model_id: id.clone(),
        author,
        name,
        downloads: item.downloads,
        likes: item.likes,
        created_at,
        last_modified,
    })
}

/// The summaries of the entries that are kept, in order.
pub open spec fn summaries_of(s: Seq<ListingView>) -> Seq<SummaryView>
    decreases s.len(),
{
    if s.len() == 0 {
        Seq::empty()
    } else {
        match summary_of(s.last()) {
            Some(m) => summaries_of(s.drop_last()).push(m),
            None => summaries_of(s.drop_last()),
        }
    }
}

/// The views of a list of listing entries.
pub open spec fn listing_views(s: Seq<ModelListing>) -> Seq<ListingView> {
    s.map_values(|l: ModelListing| l@)
}

/// What one listing request returned.
pub enum PageData {
    /// The response held a list of models (top level, or under `models`).
    Items(Vec<ModelListing>),
    /// The response held no list of models.
    Missing,
}

/// Progress of gathering a listing page by page.
pub struct PageFetch {
    models: Vec<HFModelSummary>,
    page: usize,
    empty_pages: u32,
    done: bool,
}

impl PageFetch {
    /// While gathering continues, fewer than three consecutive empty pages were seen.
    #[verifier::type_invariant]
    spec fn counts_bounded(self) -> bool {
        self.done || self.empty_pages <= 2
    }

    /// The summaries gathered so far.
    pub closed spec fn models(&self) -> Seq<SummaryView> {
        summary_views(self.models@)
    }

    /// The page to request next.
    pub closed spec fn page(&self) -> nat {
        self.page as nat
    }

    /// Consecutive empty pages seen.
    pub closed spec fn empty_pages(&self) -> nat {
        self.empty_pages as nat
    }

    /// Whether gathering stopped.
    pub closed spec fn done(&self) -> bool {
        self.done
    }

    /// Gathering starts at page 1 with nothing found.
    pub fn new() -> (r: PageFetch)
        ensures
            r.models() == Seq::<SummaryView>::empty(),
            r.page() == 1,
            r.empty_pages() == 0,
            !r.done(),
    {
        let r = PageFetch { models: Vec::new(), page: 1, empty_pages: 0, done: false };
        assert(r.models() =~= Seq::<SummaryView>::empty());
        r
    }

    /// The page to request next, or `None` once gathering stopped or enough models
    /// were found.
    pub fn next_page(&self) -> (r: Option<usize>)
        ensures
            r == if self.done() || self.models().len() >= MAX_MODELS {
                None
            } else {
                Some(self.page() as usize)
            },
    {
        if self.done || self.models.len() >= MAX_MODELS {
            None
        } else {
            Some(self.page)
        }
    }

    /// Takes in the response for the requested page.
    ///
    /// A response without a list stops. An empty page counts towards three
    /// consecutive empty pages, after which gathering stops; otherwise the next page
    /// is requested. A non-empty page resets that count, keeps the summaries of at
    /// most as many entries as are still wanted, and moves to the next page; a page
    /// shorter than a full batch stops, and so does passing page 5 with nothing found.
    pub fn on_page(&mut self, data: PageData)
        requires
            !old(self).done(),
            old(self).models().len() < MAX_MODELS,
            old(self).page() < usize::MAX,
        ensures
            match data {
                PageData::Missing => {
                    &&& final(self).done()
                    &&& final(self).models() == old(self).models()
                    &&& final(self).page() == old(self).page()
                },
                PageData::Items(items) => if items@.len() == 0 {
                    &&& final(self).models() == old(self).models()
                    &&& final(self).empty_pages() == old(self).empty_pages() + 1
                    &&& final(self).done() == (old(self).empty_pages() + 1 > 2)
                    &&& final(self).page() == if final(self).done() {
                        old(self).page()
                    } else {
                        old(self).page() + 1
                    }
                } else {
                    let wanted = MAX_MODELS - old(self).models().len();
                    let taken = if items@.len() < wanted {
                        items@.len() as int
                    } else {
                        wanted as int
                    };
                    &&& final(self).models() == old(self).models() + summaries_of(
                        listing_views(items@.take(taken)),
                    )
                    &&& final(self).empty_pages() == 0
                    &&& final(self).page() == old(self).page() + 1
                    &&& final(self).done() == (items@.len() < BATCH_SIZE || (final(self).models().len()
                        == 0 && final(self).page() > 5))
                },
            },
    {
        proof {
            use_type_invariant(&*self);
        }
        match data {
            PageData::Missing => {
                self.done = true;
            },
            PageData::Items(items) => {
                if items.len() == 0 {
                    let count = self.empty_pages + 1;
                    if count > 2 {
                        self.done = true;
                        self.empty_pages = count;
                    } else {
                        self.empty_pages = count;
                        self.page = self.page + 1;
                    }
                } else {
                    let wanted = MAX_MODELS - self.models.len();
                    let taken = if items.len() < wanted { items.len() } else { wanted };
                    let ghost lv = listing_views(items@);
                    let mut found: Vec<HFModelSummary> = Vec::new();
                    let mut i: usize = 0;
                    while i < taken
                        invariant
                            i <= taken,
                            taken <= items@.len(),
                            lv == listing_views(items@),
                            summary_views(found@) == summaries_of(lv.take(i as int)),
                        decreases taken - i,
                    {
                        proof {
                            assert(lv.take(i + 1).drop_last() =~= lv.take(i as int));
                            assert(lv[i as int] == items@[i as int]@);
                            assert(lv.take(i + 1).last() == items@[i as int]@);
                        }
                        match parse_model_summary(&items[i]) {
                            Some(m) => {
                                found.push(m);
                                assert(summary_views(found@) =~= summaries_of(lv.take(i + 1)));
                            },
                            None => {
                                assert(summary_views(found@) =~= summaries_of(lv.take(i + 1)));
                            },
                        }
                        i = i + 1;
                    }
                    assert(lv.take(taken as int) =~= listing_views(items@.take(taken as int)));
                    let ghost before = summary_views(self.models@);
                    let mut models: Vec<HFModelSummary> = Vec::new();
                    std::mem::swap(&mut models, &mut self.models);
                    models.append(&mut found);
                    self.models = models;
                    assert(summary_views(self.models@) =~= before + summaries_of(listing_views(items@.take(taken as int))));
                    self.empty_pages = 0;
                    self.page = self.page + 1;
                    if items.len() < BATCH_SIZE {
                        self.done = true;
                    } else if self.models.len() == 0 && self.page > 5 {
                        self.done = true;
                    }
                }
            },
        }
    }

    /// The summaries gathered.
    pub fn finish(self) -> (r: Vec<HFModelSummary>)
        ensures
            summary_views(r@) == self.models(),
    {
        self.models
    }
}

/// Characters that URL encoding leaves as they are: ASCII letters and digits, and `-`,
/// `.`, `_`, `~`.
pub open spec fn url_safe(b: u8) -> bool {
    (48 <= b <= 57) || (65 <= b <= 90) || (97 <= b <= 122) || b == 45 || b == 46 || b == 95 || b == 126
}

/// Uppercase hexadecimal digit for a value below 16.
pub open spec fn hex_upper(d: u8) -> char {
    if d < 10 {
        (48 + d) as char
    } else {
        (55 + d) as char
    }
}

/// Percent-encoding of bytes: safe bytes as characters, every other byte as `%` and
/// two uppercase hexadecimal digits.
pub open spec fn percent_encode(bytes: Seq<u8>) -> Seq<char>
    decreases bytes.len(),
{
    if bytes.len() == 0 {
        Seq::empty()
    } else {
        let b = bytes[0];
        let head = if url_safe(b) {
            seq![b as char]
        } else {
            seq!['%', hex_upper(b / 16), hex_upper(b % 16)]
        };
        head + percent_encode(bytes.drop_first())
    }
}

/// Percent-encodes the UTF-8 bytes of `query` with `urlencoding::encode`, which
/// encodes every byte except ASCII letters, digits and `-`, `.`, `_`, `~`, using
/// uppercase hexadecimal digits.
#[verifier::external_body]
fn url_encode(query: &str) -> (r: String)
    ensures
        r@ == percent_encode(encode_utf8(query@)),
{
    urlencoding::encode(query).into_owned()
}

/// Listing endpoint of the hub.
pub const LISTING_ENDPOINT: &'static str = "https://huggingface.co/api/models?search=";

/// The request for a page of GGUF models sorted by the filter's key.
pub open spec fn listing_url(filter: ModelFilter, page: nat) -> Seq<char> {
    LISTING_ENDPOINT@ + "gguf&sort="@ + filter_sort_key(filter) + "&direction=-1&limit="@ + decimal(
        BATCH_SIZE as nat,
    ) + "&page="@ + decimal(page)
}

/// The request for a page of GGUF models matching an encoded query.
pub open spec fn search_url(encoded_query: Seq<char>, filter: ModelFilter, page: nat) -> Seq<char> {
    LISTING_ENDPOINT@ + encoded_query + "+gguf&sort="@ + filter_sort_key(filter) + "&direction=-1&limit="@
        + decimal(BATCH_SIZE as nat) + "&page="@ + decimal(page)
}

/// Appends `&sort=<key>&direction=-1&limit=<batch>&page=<page>` after a search term.
fn push_listing_tail(url: &mut String, filter: &ModelFilter, page: usize)
    ensures
        final(url)@ == old(url)@ + "&sort="@ + filter_sort_key(*filter) + "&direction=-1&limit="@ + decimal(
            BATCH_SIZE as nat,
        ) + "&page="@ + decimal(page as nat),
{
    push_str(url, "&sort=");
    push_str(url, filter.as_str());
    push_str(url, "&direction=-1&limit=");
    push_decimal(url, BATCH_SIZE as u64);
    push_str(url, "&page=");
    push_decimal(url, page as u64);
}

/// The request for a page of the GGUF listing.
pub fn listing_page_url(filter: &ModelFilter, page: usize) -> (r: String)
    ensures
        r@ == listing_url(*filter, page as nat),
{
    let mut url = String::from_str(LISTING_ENDPOINT);
    push_str(&mut url, "gguf");
    push_listing_tail(&mut url, filter, page);
    proof {
        reveal_strlit("gguf");
        reveal_strlit("&sort=");
        reveal_strlit("gguf&sort=");
        assert("gguf"@ + "&sort="@ =~= "gguf&sort="@);
    }
    assert(url@ =~= listing_url(*filter, page as nat));
    url
}

/// The request for a page of search results for `query`.
pub fn search_page_url(query: &str, filter: &ModelFilter, page: usize) -> (r: String)
    ensures
        r@ == search_url(percent_encode(encode_utf8(query@)), *filter, page as nat),
{
    let encoded = url_encode(query);
    let mut url = String::from_str(LISTING_ENDPOINT);
    push_str(&mut url, encoded.as_str());
    push_str(&mut url, "+gguf");
    push_listing_tail(&mut url, filter, page);
    proof {
        reveal_strlit("+gguf");
        reveal_strlit("&sort=");
        reveal_strlit("+gguf&sort=");
        assert("+gguf"@ + "&sort="@ =~= "+gguf&sort="@);
    }
    assert(url@ =~= search_url(percent_encode(encode_utf8(query@)), *filter, page as nat));
    url
}

/// The cache key of a search: the query, `:` and the filter's sort key.
pub fn search_cache_key(query: &str, filter: &ModelFilter) -> (r: String)
    ensures
        r@ == query@ + ":"@ + filter_sort_key(*filter),
{
    let mut key = String::from_str(query);
    push_str(&mut key, ":");
    push_str(&mut key, filter.as_str());
    key
}

/// The range of one page of results: pages count from 1; the page is cut at the end
/// of the results.
pub open spec fn page_bounds(total: nat, page: nat, limit: nat) -> (nat, nat) {
    let start = ((page - 1) * limit) as nat;
    let end = if start + limit < total { start + limit } else { total };
    (start, end as nat)
}

/// The models of one page: empty when the page starts past the end.
pub open spec fn page_of(all: Seq<SummaryView>, page: nat, limit: nat) -> Seq<SummaryView> {
    let (start, end) = page_bounds(all.len(), page, limit);
    if start >= all.len() {
        Seq::empty()
    } else {
        all.subrange(start as int, end as int)
    }
}

/// The models of one page of a listing (pages count from 1).
pub fn page_slice(all: &Vec<HFModelSummary>, page: usize, limit: usize) -> (r: Vec<HFModelSummary>)
    requires
        page >= 1,
        page * limit <= usize::MAX,
    ensures
        summary_views(r@) == page_of(summary_views(all@), page as nat, limit as nat),
{
    let ghost av = summary_views(all@);
    proof {
        assert((page - 1) * limit + limit == page * limit) by (nonlinear_arith)
            requires page >= 1;
        assert((page - 1) * limit <= page * limit) by (nonlinear_arith)
            requires page >= 1;
    }
    let start = (page - 1) * limit;
    let end = if start + limit < all.len() { start + limit } else { all.len() };
    let mut r: Vec<HFModelSummary> = Vec::new();
    if start >= all.len() {
        assert(summary_views(r@) =~= Seq::<SummaryView>::empty());
        return r;
    }
    let mut i = start;
    while i < end
        invariant
            start <= i <= end,
            end <= all@.len(),
            av == summary_views(all@),
            summary_views(r@) == av.subrange(start as int, i as int),
        decreases end - i,
    {
        assert(av[i as int] == all@[i as int]@);
        let m = all[i].duplicate();
        let ghost before = summary_views(r@);
        r.push(m);
        assert(summary_views(r@) =~= before.push(m@));
        assert(av.subrange(start as int, i + 1) =~= av.subrange(start as int, i as int).push(av[i as int]));
        i = i + 1;
        assert(summary_views(r@) =~= av.subrange(start as int, i as int));
    }
    r
}

/// One page of results with the total count and whether more pages follow.
pub fn search_response(all: &Vec<HFModelSummary>, page: usize, limit: usize) -> (r: SearchModelsResponse)
    requires
        page >= 1,
        page * limit <= usize::MAX,
    ensures
        summary_views(r.models@) == page_of(summary_views(all@), page as nat, limit as nat),
        r.total == all@.len(),
        r.has_more == (page_bounds(all@.len(), page as nat, limit as nat).1 < all@.len()),
{
    proof {
        assert((page - 1) * limit + limit == page * limit) by (nonlinear_arith)
            requires page >= 1;
    }
    let models = page_slice(all, page, limit);
    let start = (page - 1) * limit;
    let end = if start + limit < all.len() { start + limit } else { all.len() };
    SearchModelsResponse { models, total: all.len(), has_more: end < all.len() }
}

/// Law: a page never holds more models than the page size, and consecutive pages do
/// not overlap.
pub proof fn law_pages_are_bounded(all: Seq<SummaryView>, page: nat, limit: nat)
    requires
        page >= 1,
    ensures
        page_of(all, page, limit).len() <= limit,
        page_bounds(all.len(), page, limit).1 <= page_bounds(all.len(), page + 1, limit).0,
{
    assert(((page + 1 - 1) * limit) as nat == ((page - 1) * limit) as nat + limit) by (nonlinear_arith)
        requires page >= 1;
    assert((page - 1) * limit >= 0) by (nonlinear_arith)
        requires page >= 1;
}

/// A repository as described by the hub, with the values read from each key used.
#[derive(Debug, Clone)]
pub struct ModelRecord {
    /// `id`, when it is a string.
    pub id: Option<String>,
    /// The `siblings` entries, when `siblings` is an array.
    pub siblings: Option<Vec<SiblingFile>>,
    /// `downloads`, when it is an unsigned integer.
    pub downloads: Option<u64>,
    /// `likes`, when it is an unsigned integer.
    pub likes: Option<u64>,
    /// `description`, when it is a string.
    pub description: Option<String>,
}

/// The request for the full details of a repository.
pub fn model_details_url(model_id: &str) -> (r: String)
    ensures
        r@ == "https://huggingface.co/api/models/"@ + model_id@ + "?full=true"@,
{
    let mut url = String::from_str("https://huggingface.co/api/models/");
    push_str(&mut url, model_id);
    push_str(&mut url, "?full=true");
    url
}

/// The names of the GGUF file entries, in listing order.
pub open spec fn gguf_names(s: Seq<SiblingView>) -> Seq<Seq<char>>
    decreases s.len(),
{
    if s.len() == 0 {
        Seq::empty()
    } else if has_suffix(entry_name(s.last()), ".gguf"@) {
        gguf_names(s.drop_last()).push(entry_name(s.last()))
    } else {
        gguf_names(s.drop_last())
    }
}

/// The names of a repository's GGUF files, whose sizes are looked up before the
/// details are assembled.
pub fn record_gguf_names(record: &ModelRecord) -> (r: Vec<String>)
    ensures
        r@.map_values(|s: String| s@) == match record.siblings {
            Some(s) => gguf_names(sibling_views(s@)),
            None => Seq::empty(),
        },
{
    let mut r: Vec<String> = Vec::new();
    match &record.siblings {
        Some(s) => {
            let ghost sv = sibling_views(s@);
            let mut i: usize = 0;
            while i < s.len()
                invariant
                    i <= s@.len(),
                    sv == sibling_views(s@),
                    r@.map_values(|s: String| s@) == gguf_names(sv.take(i as int)),
                decreases s@.len() - i,
            {
                proof {
                    assert(sv.take(i + 1).drop_last() =~= sv.take(i as int));
                    assert(sv.take(i + 1).last() == s@[i as int]@);
                }
                let name = match &s[i].rfilename {
                    Some(n) => n.clone(),
                    None => match &s[i].filename {
                        Some(n) => n.clone(),
                        None => String::new(),
                    },
                };
                if str_ends_with(name.as_str(), ".gguf") {
                    r.push(name);
                }
                i = i + 1;
                assert(r@.map_values(|s: String| s@) =~= gguf_names(sv.take(i as int)));
            }
            assert(sv.take(s@.len() as int) =~= sv);
        },
        None => {
            assert(r@.map_values(|s: String| s@) =~= Seq::<Seq<char>>::empty());
        },
    }
    r
}

/// The size recorded for `name`: the first matching pair.
pub open spec fn size_lookup(sizes: Seq<(Seq<char>, u64)>, name: Seq<char>) -> Option<u64>
    decreases sizes.len(),
{
    if sizes.len() == 0 {
        None
    } else if sizes[0].0 == name {
        Some(sizes[0].1)
    } else {
        size_lookup(sizes.drop_first(), name)
    }
}

/// The views of size pairs.
pub open spec fn size_views(s: Seq<(String, u64)>) -> Seq<(Seq<char>, u64)> {
    s.map_values(|p: (String, u64)| (p.0@, p.1))
}

/// A GGUF entry tagged with its repository, with its size replaced by the looked-up
/// size when one was found for the name it carries.
pub open spec fn enhanced_entry(f: SiblingView, id: Seq<char>, sizes: Seq<(Seq<char>, u64)>) -> SiblingView {
    let named = f.rfilename is Some || f.filename is Some;
    let found = size_lookup(sizes, entry_name(f));
    SiblingView {
        rfilename: f.rfilename,
        filename: f.filename,
        size: if named && found is Some { found } else { f.size },
        file_size: f.file_size,
        nested_size: f.nested_size,
        model_id: Some(id),
    }
}

/// The GGUF entries of a repository, tagged and sized.
pub open spec fn enhanced_entries(s: Seq<SiblingView>, id: Seq<char>, sizes: Seq<(Seq<char>, u64)>) -> Seq<
    SiblingView,
>
    decreases s.len(),
{
    if s.len() == 0 {
        Seq::empty()
    } else if has_suffix(entry_name(s.last()), ".gguf"@) {
        enhanced_entries(s.drop_last(), id, sizes).push(enhanced_entry(s.last(), id, sizes))
    } else {
        enhanced_entries(s.drop_last(), id, sizes)
    }
}

/// Looks up the size recorded for `name`.
fn find_size(sizes: &Vec<(String, u64)>, name: &String) -> (r: Option<u64>)
    ensures
        r == size_lookup(size_views(sizes@), name@),
{
    let ghost sv = size_views(sizes@);
    let mut i: usize = 0;
    assert(sv.subrange(0, sv.len() as int) =~= sv);
    while i < sizes.len()
        invariant
            i <= sizes@.len(),
            sv == size_views(sizes@),
            size_lookup(sv.subrange(i as int, sv.len() as int), name@) == size_lookup(sv, name@),
        decreases sizes@.len() - i,
    {
        let ghost rest = sv.subrange(i as int, sv.len() as int);
        assert(rest[0] == sv[i as int]);
        if sizes[i].0 == *name {
            return Some(sizes[i].1);
        }
        assert(rest.drop_first() =~= sv.subrange(i + 1, sv.len() as int));
        i = i + 1;
    }
    None
}

/// The details of a repository, given the sizes found for its GGUF files.
///
/// A record without an id, or with an empty id, is invalid. Each GGUF entry is tagged
/// with the repository and takes the size found for its name; a repository without GGUF
/// files is refused. The author and name are the parts of the id around its first `/`.
pub open spec fn details_of(
    id: Option<Seq<char>>,
    siblings: Option<Seq<SiblingView>>,
    sizes: Seq<(Seq<char>, u64)>,
) -> Result<(Seq<char>, Seq<crate::hf_types::GGUFFileView>), Seq<char>> {
    let id = match id {
        Some(i) => i,
        None => Seq::empty(),
    };
    if id.len() == 0 {
        Err("Invalid model ID"@)
    } else {
        let entries = match siblings {
            Some(s) => enhanced_entries(s, id, sizes),
            None => Seq::empty(),
        };
        let files = sorted_by_size(gguf_entries(entries));
        if files.len() == 0 {
            Err("No GGUF files found in this model repository"@)
        } else {
            Ok((id, files))
        }
    }
}

/// Assembles a repository's details from its record and the sizes found for its GGUF
/// files (see `details_of`).
pub fn assemble_model_details(record: &ModelRecord, sizes: &Vec<(String, u64)>) -> (r: Result<
    HFModelDetails,
    String,
>)
    ensures
        match r {
            Ok(d) => {
                &&& details_of(
                    opt_string_view(record.id),
                    match record.siblings {
                        Some(s) => Some(sibling_views(s@)),
                        None => None,
                    },
                    size_views(sizes@),
                ) == Ok::<(Seq<char>, Seq<crate::hf_types::GGUFFileView>), Seq<char>>((d.id@, gguf_views(d.gguf_files@)))
                &&& d.model_id@ == d.id@
                &&& d.author@ == first_part(d.id@, '/')
                &&& d.name@ == second_part(d.id@, '/')
                &&& d.downloads == record.downloads
                &&& d.likes == record.likes
                &&& d.description == record.description
            },
            Err(e) => details_of(
                opt_string_view(record.id),
                match record.siblings {
                    Some(s) => Some(sibling_views(s@)),
                    None => None,
                },
                size_views(sizes@),
            ) == Err::<(Seq<char>, Seq<crate::hf_types::GGUFFileView>), Seq<char>>(e@),
        },
{
    let id = match &record.id {
        Some(i) => i.clone(),
        None => String::new(),
    };
    if id.as_str().unicode_len() == 0 {
        return Err(String::from_str("Invalid model ID"));
    }
    let mut enhanced: Vec<SiblingFile> = Vec::new();
    match &record.siblings {
        Some(s) => {
            let ghost sv = sibling_views(s@);
            let mut i: usize = 0;
            while i < s.len()
                invariant
                    i <= s@.len(),
                    sv == sibling_views(s@),
                    sibling_views(enhanced@) == enhanced_entries(sv.take(i as int), id@, size_views(sizes@)),
                decreases s@.len() - i,
            {
                proof {
                    assert(sv.take(i + 1).drop_last() =~= sv.take(i as int));
                    assert(sv.take(i + 1).last() == s@[i as int]@);
                }
                let f = &s[i];
                let name = match &f.rfilename {
                    Some(n) => n.clone(),
                    None => match &f.filename {
                        Some(n) => n.clone(),
                        None => String::new(),
                    },
                };
                if str_ends_with(name.as_str(), ".gguf") {
                    let named = f.rfilename.is_some() || f.filename.is_some();
                    let found = find_size(sizes, &name);
                    let size = if named && found.is_some() { found } else { f.size };
                    let e = SiblingFile {
                        rfilename: copy_opt_string(&f.rfilename),
                        filename: copy_opt_string(&f.filename),
                        size,
                        file_size: f.file_size,
                        nested_size: f.nested_size,
                        model_id: Some(id.clone()),
                    };
                    enhanced.push(e);
                }
                i = i + 1;
                assert(sibling_views(enhanced@) =~= enhanced_entries(sv.take(i as int), id@, size_views(sizes@)));
            }
            assert(sv.take(s@.len() as int) =~= sv);
        },
        None => {
            assert(sibling_views(enhanced@) =~= Seq::<SiblingView>::empty());
        },
    }
    let gguf_files = extract_gguf_files(Some(&enhanced));
    if gguf_files.len() == 0 {
        return Err(String::from_str("No GGUF files found in this model repository"));
    }
    let (author, name) = first_two_parts(id.as_str(), '/');
    Ok(HFModelDetails {
        id: id.clone(),
        model_id: id,
        author,
        name,
        downloads: record.downloads,
        likes: record.likes,
        description: copy_opt_string(&record.description),
        gguf_files,
    })
}

} // verus!
