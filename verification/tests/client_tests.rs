use solyn::hf_client::{
    assemble_model_details, listing_page_url, model_details_url, page_slice, parse_model_summary, search_cache_key,
    search_page_url, search_response, ModelListing, ModelRecord, PageData, PageFetch,
};
use solyn::hf_parsing::SiblingFile;
use solyn::hf_types::{HFModelSummary, ModelFilter};

fn sibling(name: &str) -> SiblingFile {
    SiblingFile { rfilename: Some(name.to_string()), filename: None, size: None, file_size: None, nested_size: None, model_id: None }
}

fn listing(id: Option<&str>, siblings: Option<Vec<SiblingFile>>) -> ModelListing {
    ModelListing {
        id: id.map(|s| s.to_string()),
        siblings,
        downloads: None,
        likes: None,
        created_at: None,
        created_at_camel: None,
        last_modified: None,
        last_modified_camel: None,
    }
}

fn summary(id: &str) -> HFModelSummary {
    HFModelSummary {
        id: id.to_string(),
        model_id: id.to_string(),
        author: String::new(),
        name: String::new(),
        downloads: None,
        likes: None,
        created_at: None,
        last_modified: None,
    }
}

#[test]
fn parses_gguf_model_summary() {
    let mut item = listing(Some("author/repo"), Some(vec![sibling("model.gguf")]));
    item.downloads = Some(10);
    item.likes = Some(3);
    item.created_at = Some("2024-01-01".to_string());
    let model = parse_model_summary(&item).unwrap();
    assert_eq!(model.id, "author/repo");
    assert_eq!(model.model_id, "author/repo");
    assert_eq!(model.author, "author");
    assert_eq!(model.name, "repo");
    assert_eq!(model.downloads, Some(10));
    assert_eq!(model.likes, Some(3));
    assert_eq!(model.last_modified.as_deref(), Some("2024-01-01"));
}

#[test]
fn skips_model_without_gguf_siblings() {
    let item = listing(Some("author/repo"), Some(vec![sibling("README.md")]));
    assert!(parse_model_summary(&item).is_none());
}

#[test]
fn keeps_model_with_no_siblings() {
    let item = listing(Some("author/repo"), None);
    assert!(parse_model_summary(&item).is_some());
}

#[test]
fn skips_empty_id() {
    let item = listing(Some(""), Some(vec![sibling("m.gguf")]));
    assert!(parse_model_summary(&item).is_none());
}

#[test]
fn last_modified_falls_back_to_created_at() {
    let mut item = listing(Some("a/b"), Some(vec![sibling("m.gguf")]));
    item.created_at = Some("2024-02-02".to_string());
    let model = parse_model_summary(&item).unwrap();
    assert_eq!(model.last_modified.as_deref(), Some("2024-02-02"));
}

#[test]
fn last_modified_prefers_explicit_value() {
    let mut item = listing(Some("a/b"), Some(vec![sibling("m.gguf")]));
    item.created_at = Some("2024-02-02".to_string());
    item.last_modified = Some("2024-03-03".to_string());
    let model = parse_model_summary(&item).unwrap();
    assert_eq!(model.last_modified.as_deref(), Some("2024-03-03"));
}

#[test]
fn missing_id_is_skipped() {
    assert!(parse_model_summary(&listing(None, None)).is_none());
}

#[test]
fn listing_and_search_urls() {
    assert_eq!(
        listing_page_url(&ModelFilter::MostLiked, 2),
        "https://huggingface.co/api/models?search=gguf&sort=likes&direction=-1&limit=100&page=2"
    );
    assert_eq!(
        search_page_url("llama 3", &ModelFilter::Recent, 1),
        "https://huggingface.co/api/models?search=llama%203+gguf&sort=lastModified&direction=-1&limit=100&page=1"
    );
    assert_eq!(search_cache_key("llama", &ModelFilter::MostDownloads), "llama:downloads");
    assert_eq!(model_details_url("a/b"), "https://huggingface.co/api/models/a/b?full=true");
}

#[test]
fn pages_are_sliced_from_one() {
    let all: Vec<HFModelSummary> = (0..5).map(|i| summary(&format!("m/{}", i))).collect();
    let p1 = page_slice(&all, 1, 2);
    assert_eq!(p1.iter().map(|m| m.id.as_str()).collect::<Vec<_>>(), vec!["m/0", "m/1"]);
    let p3 = page_slice(&all, 3, 2);
    assert_eq!(p3.len(), 1);
    assert!(page_slice(&all, 4, 2).is_empty());
    let r = search_response(&all, 2, 2);
    assert_eq!(r.total, 5);
    assert!(r.has_more);
    assert_eq!(r.models[0].id, "m/2");
    assert!(!search_response(&all, 3, 2).has_more);
}

#[test]
fn page_fetch_stops_after_a_short_page() {
    let mut fetch = PageFetch::new();
    assert_eq!(fetch.next_page(), Some(1));
    fetch.on_page(PageData::Items(vec![listing(Some("a/b"), None), listing(Some(""), None)]));
    assert_eq!(fetch.next_page(), None);
    let models = fetch.finish();
    assert_eq!(models.len(), 1);
    assert_eq!(models[0].id, "a/b");
}

#[test]
fn page_fetch_stops_at_a_missing_page() {
    let mut fetch = PageFetch::new();
    fetch.on_page(PageData::Missing);
    assert_eq!(fetch.next_page(), None);
    assert!(fetch.finish().is_empty());
}

#[test]
fn page_fetch_gives_up_after_three_empty_pages() {
    let mut fetch = PageFetch::new();
    fetch.on_page(PageData::Items(vec![]));
    assert_eq!(fetch.next_page(), Some(2));
    fetch.on_page(PageData::Items(vec![]));
    assert_eq!(fetch.next_page(), Some(3));
    fetch.on_page(PageData::Items(vec![]));
    assert_eq!(fetch.next_page(), None);
}

#[test]
fn details_pick_up_file_sizes() {
    let record = ModelRecord {
        id: Some("author/repo".to_string()),
        siblings: Some(vec![sibling("small-Q4_K_M.gguf"), sibling("README.md"), sibling("big-Q8_0.gguf")]),
        downloads: Some(5),
        likes: None,
        description: Some("d".to_string()),
    };
    let sizes = vec![("small-Q4_K_M.gguf".to_string(), 100u64), ("big-Q8_0.gguf".to_string(), 300u64)];
    let d = assemble_model_details(&record, &sizes).unwrap();
    assert_eq!(d.author, "author");
    assert_eq!(d.name, "repo");
    assert_eq!(d.gguf_files.len(), 2);
    assert_eq!(d.gguf_files[0].filename, "big-Q8_0.gguf");
    assert_eq!(d.gguf_files[0].size, 300);
}

#[test]
fn details_without_gguf_files_are_an_error() {
    let record = ModelRecord {
        id: Some("author/repo".to_string()),
        siblings: Some(vec![sibling("README.md")]),
        downloads: None,
        likes: None,
        description: None,
    };
    assert_eq!(assemble_model_details(&record, &vec![]).err().as_deref(), Some("No GGUF files found in this model repository"));
}
