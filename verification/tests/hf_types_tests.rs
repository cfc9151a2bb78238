use solyn::hf_types::{parse_model_filter, ModelFilter};

#[test]
fn default_filter_is_most_downloads() {
    assert_eq!(ModelFilter::default(), ModelFilter::MostDownloads);
}

#[test]
fn filter_sort_keys() {
    assert_eq!(ModelFilter::MostDownloads.as_str(), "downloads");
    assert_eq!(ModelFilter::MostLiked.as_str(), "likes");
    assert_eq!(ModelFilter::Recent.as_str(), "lastModified");
}

#[test]
fn filter_display_names() {
    assert_eq!(ModelFilter::MostDownloads.display_name(), "Most Downloads");
    assert_eq!(ModelFilter::MostLiked.display_name(), "Most Liked");
    assert_eq!(ModelFilter::Recent.display_name(), "Recent");
}

#[test]
fn front_end_filter_keys_are_read() {
    assert_eq!(parse_model_filter(Some("most_downloads")), Some(ModelFilter::MostDownloads));
    assert_eq!(parse_model_filter(Some("most_liked")), Some(ModelFilter::MostLiked));
    assert_eq!(parse_model_filter(Some("recent")), Some(ModelFilter::Recent));
    assert_eq!(parse_model_filter(Some("trending")), None);
    assert_eq!(parse_model_filter(None), None);
}
