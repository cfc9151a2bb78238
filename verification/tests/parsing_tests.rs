use solyn::hf_parsing::{extract_gguf_files, SiblingFile};

fn siblings() -> Vec<SiblingFile> {
    vec![
        SiblingFile {
            rfilename: Some("model-small-Q4_K_M.gguf".to_string()),
            filename: None,
            size: Some(200),
            file_size: None,
            nested_size: None,
            model_id: Some("author/repo".to_string()),
        },
        SiblingFile {
            rfilename: Some("model-big-Q8_0.gguf".to_string()),
            filename: None,
            size: None,
            file_size: Some(500),
            nested_size: None,
            model_id: Some("author/repo".to_string()),
        },
        SiblingFile {
            rfilename: None,
            filename: Some("nested.gguf".to_string()),
            size: None,
            file_size: None,
            nested_size: Some(100),
            model_id: None,
        },
        SiblingFile {
            rfilename: Some("README.md".to_string()),
            filename: None,
            size: Some(1),
            file_size: None,
            nested_size: None,
            model_id: None,
        },
    ]
}

#[test]
fn none_siblings_yields_empty() {
    assert!(extract_gguf_files(None).is_empty());
}

#[test]
fn extracts_only_gguf_files() {
    let out = extract_gguf_files(Some(&siblings()));
    assert_eq!(out.len(), 3);
    assert!(out.iter().all(|f| f.filename.ends_with(".gguf")));
}

#[test]
fn sorts_by_size_descending() {
    let out = extract_gguf_files(Some(&siblings()));
    let sizes: Vec<u64> = out.iter().map(|f| f.size).collect();
    assert_eq!(sizes, vec![500, 200, 100]);
}

#[test]
fn reads_sizes_from_all_supported_fields() {
    let out = extract_gguf_files(Some(&siblings()));
    let big = out.iter().find(|f| f.filename == "model-big-Q8_0.gguf").unwrap();
    assert_eq!(big.size, 500);
    let nested = out.iter().find(|f| f.filename == "nested.gguf").unwrap();
    assert_eq!(nested.size, 100);
}

#[test]
fn builds_url_with_and_without_model_id() {
    let out = extract_gguf_files(Some(&siblings()));
    let with_id = out.iter().find(|f| f.filename == "model-small-Q4_K_M.gguf").unwrap();
    assert_eq!(with_id.url, "https://huggingface.co/author/repo/resolve/main/model-small-Q4_K_M.gguf");
    let without_id = out.iter().find(|f| f.filename == "nested.gguf").unwrap();
    assert_eq!(without_id.url, "https://huggingface.co/resolve/main/nested.gguf");
}

#[test]
fn extracts_parameter_count_and_quantization() {
    let out = extract_gguf_files(Some(&siblings()));
    let small = out.iter().find(|f| f.filename == "model-small-Q4_K_M.gguf").unwrap();
    assert_eq!(small.quantization.as_deref(), Some("Q4_K_M"));
    assert_eq!(small.parameter_count, None);
}

#[test]
fn equal_sizes_keep_their_order() {
    let mut s = siblings();
    s[0].size = Some(500);
    let out = extract_gguf_files(Some(&s));
    assert_eq!(out[0].filename, "model-small-Q4_K_M.gguf");
    assert_eq!(out[1].filename, "model-big-Q8_0.gguf");
}
