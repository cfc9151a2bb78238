use solyn::hf_cache::{
    cancel_download, clear_model_cache, generate_download_id, get_cancellation_token, insert_cancellation_token,
    remove_cancellation_token, Cache, CancellationTokens,
};
use solyn::hf_types::{HFModelDetails, HFModelSummary, ModelFilter};

fn summary(id: &str) -> HFModelSummary {
    HFModelSummary {
        id: id.to_string(),
        model_id: id.to_string(),
        author: "a".to_string(),
        name: "b".to_string(),
        downloads: None,
        likes: None,
        created_at: None,
        last_modified: None,
    }
}

#[test]
fn download_id_is_model_and_filename() {
    assert_eq!(generate_download_id("author/repo", "m.gguf"), "author/repo:m.gguf");
}

#[test]
fn cancellation_token_lifecycle() {
    let mut registry = CancellationTokens::new();
    let id = "test-cancel-lifecycle-id".to_string();
    remove_cancellation_token(&mut registry, &id);
    assert!(get_cancellation_token(&registry, &id).is_none());

    insert_cancellation_token(&mut registry, id.clone(), false);
    assert!(!get_cancellation_token(&registry, &id).unwrap());
    insert_cancellation_token(&mut registry, id.clone(), true);
    assert!(get_cancellation_token(&registry, &id).unwrap());

    assert!(remove_cancellation_token(&mut registry, &id).is_some());
    assert!(get_cancellation_token(&registry, &id).is_none());
}

#[test]
fn cancel_download_sets_the_registered_flag() {
    let mut registry = CancellationTokens::new();
    assert!(!cancel_download(&mut registry, "author/repo", "m.gguf"));
    insert_cancellation_token(&mut registry, generate_download_id("author/repo", "m.gguf"), false);
    assert!(cancel_download(&mut registry, "author/repo", "m.gguf"));
    assert_eq!(get_cancellation_token(&registry, "author/repo:m.gguf"), Some(true));
}

#[test]
fn model_details_cache_roundtrip() {
    let mut cache = Cache::new();
    let key = "author/unique-cache-roundtrip";
    let details = HFModelDetails {
        id: key.to_string(),
        model_id: key.to_string(),
        author: "author".to_string(),
        name: "unique-cache-roundtrip".to_string(),
        downloads: Some(1),
        likes: Some(2),
        description: None,
        gguf_files: vec![],
    };

    assert!(cache.get_model_details(key).is_none());
    cache.set_model_details(key, details);
    let got = cache.get_model_details(key).unwrap();
    assert_eq!(got.model_id, key);
    assert_eq!(got.likes, Some(2));
}

#[test]
fn clearing_one_filter_keeps_the_others() {
    let mut cache = Cache::new();
    cache.set_gguf_models(ModelFilter::MostDownloads, vec![summary("a/x")]);
    cache.set_gguf_models(ModelFilter::Recent, vec![summary("a/y")]);
    cache.set_search_results("q:downloads".to_string(), vec![summary("a/z")]);
    clear_model_cache(&mut cache, Some(ModelFilter::MostDownloads));
    assert!(cache.get_gguf_models(&ModelFilter::MostDownloads).is_none());
    assert_eq!(cache.get_gguf_models(&ModelFilter::Recent).unwrap()[0].id, "a/y");
    assert!(cache.get_search_results("q:downloads").is_none());
    clear_model_cache(&mut cache, None);
    assert!(cache.get_gguf_models(&ModelFilter::Recent).is_none());
}

#[test]
fn search_results_roundtrip() {
    let mut cache = Cache::new();
    assert!(cache.get_search_results("k").is_none());
    cache.set_search_results("k".to_string(), vec![summary("a/b")]);
    assert_eq!(cache.get_search_results("k").unwrap().len(), 1);
    cache.set_search_results("k".to_string(), vec![]);
    assert_eq!(cache.get_search_results("k").unwrap().len(), 0);
}
