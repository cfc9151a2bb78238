use solyn::installed::{
    chat_model_entry, check_file_deletion, downloaded_age, files_with_quantization, gguf_file_names,
    modelfile_response, modelfile_text, scan_model_directory, sort_by_downloaded_at, FolderEntry, InstalledModel,
};

fn entry(name: &str, is_file: bool, size: Option<u64>) -> FolderEntry {
    FolderEntry { filename: name.to_string(), path: format!("/models/author_modelname/{}", name), is_file, size }
}

fn model(downloaded_at: &str, name: &str) -> InstalledModel {
    InstalledModel {
        model_id: format!("a/{}", name),
        author: "a".to_string(),
        name: name.to_string(),
        files: vec![],
        total_size: 0,
        downloaded_at: downloaded_at.to_string(),
        has_modelfile: false,
    }
}

#[test]
fn scan_model_directory_reads_gguf_and_modelfile() {
    let entries = vec![
        entry("model-Q4_K_M.gguf", true, Some(128)),
        entry("Modelfile", true, Some(24)),
        entry("README.md", true, Some(4)),
    ];
    let model = scan_model_directory("author_modelname", &entries, true, Some(30)).unwrap();
    assert_eq!(model.model_id, "author/modelname");
    assert_eq!(model.author, "author");
    assert_eq!(model.name, "modelname");
    assert_eq!(model.files.len(), 1);
    assert_eq!(model.total_size, 128);
    assert_eq!(model.files[0].filename, "model-Q4_K_M.gguf");
    assert_eq!(model.files[0].quantization.as_deref(), Some("Q4_K_M"));
    assert!(model.files[0].has_modelfile);
    assert_eq!(model.files[0].modelfile_name.as_deref(), Some("Modelfile"));
    assert!(model.has_modelfile);
}

#[test]
fn scan_model_directory_has_no_modelfile_when_absent() {
    let entries = vec![entry("model.gguf", true, Some(1))];
    let model = scan_model_directory("author_modelname", &entries, false, Some(30)).unwrap();
    assert!(!model.has_modelfile);
    assert!(!model.files[0].has_modelfile);
    assert!(model.files[0].modelfile_name.is_none());
}

#[test]
fn scan_model_directory_returns_none_without_gguf() {
    let entries = vec![entry("README.md", true, Some(4))];
    assert!(scan_model_directory("author_modelname", &entries, false, Some(30)).is_none());
}

#[test]
fn scan_skips_folders_and_counts_unreadable_sizes_as_zero() {
    let entries = vec![entry("sub.gguf", false, None), entry("a.gguf", true, None), entry("b.gguf", true, Some(7))];
    let model = scan_model_directory("solo", &entries, false, None).unwrap();
    assert_eq!(model.files.len(), 2);
    assert_eq!(model.files[0].size, 0);
    assert_eq!(model.total_size, 7);
    assert_eq!(model.model_id, "solo/");
    assert_eq!(model.downloaded_at, "Unknown");
}

#[test]
fn ages_read_naturally() {
    assert_eq!(downloaded_age(None), "Unknown");
    assert_eq!(downloaded_age(Some(59)), "Just now");
    assert_eq!(downloaded_age(Some(60)), "1 minute ago");
    assert_eq!(downloaded_age(Some(180)), "3 minutes ago");
    assert_eq!(downloaded_age(Some(3600)), "1 hour ago");
    assert_eq!(downloaded_age(Some(86400 * 2 + 5)), "2 days ago");
}

#[test]
fn models_are_ordered_by_age_text_descending_and_stably() {
    let sorted = sort_by_downloaded_at(vec![model("1 day ago", "x"), model("3 minutes ago", "y"), model("1 day ago", "z")]);
    let names: Vec<&str> = sorted.iter().map(|m| m.name.as_str()).collect();
    assert_eq!(names, vec!["y", "x", "z"]);
}

#[test]
fn age_texts_compare_as_text() {
    let sorted = sort_by_downloaded_at(vec![
        model("1 hour ago", "hour"),
        model("Unknown", "unknown"),
        model("5 days ago", "days"),
        model("Just now", "now"),
    ]);
    let names: Vec<&str> = sorted.iter().map(|m| m.name.as_str()).collect();
    assert_eq!(names, vec!["unknown", "now", "days", "hour"]);
}

#[test]
fn sorting_no_models_gives_none() {
    assert!(sort_by_downloaded_at(vec![]).is_empty());
}

#[test]
fn deletion_guards() {
    assert_eq!(check_file_deletion("m.gguf", false).unwrap_err(), "File not found: m.gguf");
    assert_eq!(
        check_file_deletion("Modelfile", true).unwrap_err(),
        "Cannot delete Modelfile directly. Delete the GGUF file instead."
    );
    assert!(check_file_deletion("m.gguf", true).is_ok());
}

#[test]
fn files_of_one_quantization() {
    let entries = vec![
        entry("m-Q4_K_M.gguf", true, Some(1)),
        entry("m-Q8_0.gguf", true, Some(1)),
        entry("Modelfile", true, Some(1)),
        entry("m-Q4_K_M.gguf.part.0", true, Some(1)),
    ];
    assert_eq!(files_with_quantization(&entries, "Q8_0").unwrap(), vec!["m-Q8_0.gguf".to_string()]);
    assert_eq!(files_with_quantization(&entries, "F16").unwrap_err(), "No files found with quantization: F16");
}

#[test]
fn gguf_names_are_filtered() {
    let names = vec!["a.gguf".to_string(), "Modelfile".to_string(), "b.gguf".to_string()];
    assert_eq!(gguf_file_names(&names), vec!["a.gguf".to_string(), "b.gguf".to_string()]);
}

#[test]
fn modelfile_requests() {
    let r = modelfile_response("meta-llama/Llama-3.1-8B-Instruct", "Meta-Llama-3.1-8B-Instruct-Q4_K_M.gguf", "/m/Modelfile");
    assert_eq!(r.quantization, "Q4_K_M");
    assert_eq!(r.ollama_model_name, "meta-llama_Llama-3.1-8B-Instruct_Q4_K_M");
    assert_eq!(r.modelfile_path, "/m/Modelfile");
    let f = modelfile_response("author/model", "model_F16.gguf", "/m/Modelfile");
    assert_eq!(f.quantization, "F16");
    assert_eq!(f.ollama_model_name, "author_model_F16");
    let d = modelfile_response("author/model", "model.gguf", "/m/Modelfile");
    assert_eq!(d.quantization, "default");
    assert_eq!(d.ollama_model_name, "author_model");
    assert_eq!(modelfile_text("m.gguf"), "FROM ./m.gguf\n");
}

#[test]
fn chat_entries_name_the_registered_model() {
    let entries = vec![entry("model-Q4_K_M.gguf", true, Some(10)), entry("plain.gguf", true, Some(5))];
    let m = scan_model_directory("author_model", &entries, true, Some(30)).unwrap();
    let registered = vec!["author/model".to_string(), "author_model_Q4_K_M:latest".to_string()];
    let first = chat_model_entry(&m, &m.files[0], &registered);
    assert_eq!(first.value, "author/model:model-Q4_K_M.gguf");
    assert_eq!(first.label, "model (Q4_K_M)");
    assert_eq!(first.ollama_model_name, "author_model_Q4_K_M:latest");
    assert!(first.is_registered);
    let second = chat_model_entry(&m, &m.files[1], &registered);
    assert_eq!(second.quantization, "default");
    assert_eq!(second.ollama_model_name, "");
    assert!(!second.is_registered);
}
