//! Data types describing models listed on the Hugging Face hub.

use vstd::prelude::*;
use crate::hf_utils::opt_string_view;

verus! {

/// Sort order used when browsing the model hub.
#[derive(Debug, Clone, Copy, PartialEq, Eq, Hash, Structural)]
pub enum ModelFilter {
    MostDownloads,
    MostLiked,
    Recent,
}

impl Default for ModelFilter {
    fn default() -> (r: Self)
        ensures
            r == ModelFilter::MostDownloads,
    {
        ModelFilter::MostDownloads
    }
}

/// The hub's sort key for a filter.
pub open spec fn filter_sort_key(f: ModelFilter) -> Seq<char> {
    match f {
        ModelFilter::MostDownloads => "downloads"@,
        ModelFilter::MostLiked => "likes"@,
        ModelFilter::Recent => "lastModified"@,
    }
}

impl ModelFilter {
    /// The sort key passed to the hub's listing endpoint.
    pub fn as_str(&self) -> (r: &'static str)
        ensures
            r@ == filter_sort_key(*self),
    {
        match self {
            ModelFilter::MostDownloads => "downloads",
            ModelFilter::MostLiked => "likes",
            ModelFilter::Recent => "lastModified",
        }
    }

    /// The label shown for a filter.
    pub fn display_name(&self) -> (r: &'static str)
        ensures
            r@ == filter_display_name(*self),
    {
        match self {
            ModelFilter::MostDownloads => "Most Downloads",
            ModelFilter::MostLiked => "Most Liked",
            ModelFilter::Recent => "Recent",
        }
    }
}

/// The label shown for a filter.
pub open spec fn filter_display_name(f: ModelFilter) -> Seq<char> {
    match f {
        ModelFilter::MostDownloads => "Most Downloads"@,
        ModelFilter::MostLiked => "Most Liked"@,
        ModelFilter::Recent => "Recent"@,
    }
}

/// The filter named by a front-end key (`most_downloads`, `most_liked`, `recent`).
pub open spec fn filter_named(key: Seq<char>) -> Option<ModelFilter> {
    if key == "most_downloads"@ {
        Some(ModelFilter::MostDownloads)
    } else if key == "most_liked"@ {
        Some(ModelFilter::MostLiked)
    } else if key == "recent"@ {
        Some(ModelFilter::Recent)
    } else {
        None
    }
}

/// Reads a front-end filter key; unknown or missing keys give `None`.
pub fn parse_model_filter(key: Option<&str>) -> (r: Option<ModelFilter>)
    ensures
        r == match key {
            Some(k) => filter_named(k@),
            None => None,
        },
{
    match key {
        Some(k) => {
            if crate::text::str_eq(k, "most_downloads") {
                Some(ModelFilter::MostDownloads)
            } else if crate::text::str_eq(k, "most_liked") {
                Some(ModelFilter::MostLiked)
            } else if crate::text::str_eq(k, "recent") {
                Some(ModelFilter::Recent)
            } else {
                None
            }
        },
        None => None,
    }
}

/// A model as listed by the hub.
#[derive(Debug, Clone)]
pub struct HFModelSummary {
    pub id: String,
    pub model_id: String,
    pub author: String,
    pub name: String,
    pub downloads: Option<u64>,
    pub likes: Option<u64>,
    pub created_at: Option<String>,
    pub last_modified: Option<String>,
}

/// A copy of an optional string.
pub fn copy_opt_string(o: &Option<String>) -> (r: Option<String>)
    ensures
        r == *o,
{
    match o {
        Some(s) => Some(s.clone()),
        None => None,
    }
}

impl HFModelSummary {
    /// A copy of this summary.
    pub fn duplicate(&self) -> (r: HFModelSummary)
        ensures
            r == *self,
    {
        HFModelSummary {
            id: self.id.clone(),
            model_id: self.model_id.clone(),
            author: self.author.clone(),
            name: self.name.clone(),
            downloads: self.downloads,
            likes: self.likes,
            created_at: copy_opt_string(&self.created_at),
            last_modified: copy_opt_string(&self.last_modified),
        }
    }
}

/// A downloadable GGUF file of a model.
#[derive(Debug, Clone)]
pub struct GGUFFileInfo {
    pub filename: String,
    pub size: u64,
    pub url: String,
    pub parameter_count: Option<String>,
    pub quantization: Option<String>,
}

/// The text content of a GGUF file entry.
pub struct GGUFFileView {
    pub filename: Seq<char>,
    pub size: u64,
    pub url: Seq<char>,
    pub parameter_count: Option<Seq<char>>,
    pub quantization: Option<Seq<char>>,
}

impl View for GGUFFileInfo {
    type V = GGUFFileView;

    open spec fn view(&self) -> GGUFFileView {
        GGUFFileView {
            filename: self.filename@,
            size: self.size,
            url: self.url@,
            parameter_count: opt_string_view(self.parameter_count),
            quantization: opt_string_view(self.quantization),
        }
    }
}

/// Full details of a model repository.
#[derive(Debug, Clone)]
pub struct HFModelDetails {
    pub id: String,
    pub model_id: String,
    pub author: String,
    pub name: String,
    pub downloads: Option<u64>,
    pub likes: Option<u64>,
    pub description: Option<String>,
    pub gguf_files: Vec<GGUFFileInfo>,
}

/// A search over the hub.
#[derive(Debug, Clone)]
pub struct SearchModelsRequest {
    pub query: String,
    pub filter: ModelFilter,
    pub page: usize,
    pub limit: usize,
}

/// One page of search results.
#[derive(Debug, Clone)]
pub struct SearchModelsResponse {
    pub models: Vec<HFModelSummary>,
    pub total: usize,
    pub has_more: bool,
}

} // verus!
