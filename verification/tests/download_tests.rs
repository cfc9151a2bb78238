use solyn::download::{
    all_chunks_complete, chunk_errors, chunk_plan, chunk_ranges, creation_success_message, download_quantization, DownloadManager,
    file_download_url, final_size_check, ChunkOutcome, CreationRetry, ModelPaths, MIN_CHUNK_SIZE,
    PARALLEL_CHUNKS,
};

#[test]
fn small_files_use_fewer_ranges() {
    assert_eq!(chunk_plan(5), (1, 5));
    assert_eq!(chunk_plan(MIN_CHUNK_SIZE), (2, MIN_CHUNK_SIZE / 2));
    assert_eq!(chunk_plan(2 * MIN_CHUNK_SIZE - 1).0, 2);
    assert_eq!(chunk_plan(2 * MIN_CHUNK_SIZE), (PARALLEL_CHUNKS, 2 * MIN_CHUNK_SIZE / 8));
}

#[test]
fn ranges_cover_the_file() {
    for total in [1u64, 7, MIN_CHUNK_SIZE, 3 * MIN_CHUNK_SIZE + 5, 1_000_000_007] {
        let ranges = chunk_ranges(total);
        assert_eq!(ranges[0].0, 0);
        assert_eq!(ranges.last().unwrap().1, total - 1);
        for w in ranges.windows(2) {
            assert_eq!(w[0].1 + 1, w[1].0);
        }
        for r in &ranges {
            assert!(r.0 <= r.1);
        }
    }
    let r = chunk_ranges(3 * MIN_CHUNK_SIZE + 5);
    assert_eq!(r.len(), 8);
    assert_eq!(r[7].1, 3 * MIN_CHUNK_SIZE + 4);
}

#[test]
fn resume_when_a_piece_exists() {
    let d = DownloadManager::determine_resume_state(&vec![false, true, false], true);
    assert!(d.resume && !d.remove_legacy_part);
    let d = DownloadManager::determine_resume_state(&vec![false; 8], true);
    assert!(!d.resume && d.remove_legacy_part);
    let d = DownloadManager::determine_resume_state(&vec![false; 8], false);
    assert!(!d.resume && !d.remove_legacy_part);
}

#[test]
fn complete_pieces_are_recognised() {
    let total = 3 * MIN_CHUNK_SIZE;
    let ranges = chunk_ranges(total);
    let sizes: Vec<Option<u64>> = ranges.iter().map(|r| Some(r.1 - r.0 + 1)).collect();
    assert!(all_chunks_complete(&sizes, total));
    let mut short = sizes.clone();
    short[3] = Some(1);
    assert!(!all_chunks_complete(&short, total));
    let mut missing = sizes.clone();
    missing[0] = None;
    assert!(!all_chunks_complete(&missing, total));
    assert!(!all_chunks_complete(&sizes[..4].to_vec(), total));
}

#[test]
fn piece_errors_are_joined_in_order() {
    assert!(chunk_errors(&vec![ChunkOutcome::Done, ChunkOutcome::Done]).is_ok());
    let e = chunk_errors(&vec![
        ChunkOutcome::Done,
        ChunkOutcome::Failed("timeout".to_string()),
        ChunkOutcome::Crashed("panicked".to_string()),
    ])
    .unwrap_err();
    assert_eq!(e, "Chunk 1: timeout; Chunk 2 task error: panicked");
}

#[test]
fn final_size_is_checked() {
    assert!(final_size_check(Some(10), 10).is_ok());
    assert_eq!(final_size_check(Some(9), 10).unwrap_err(), "Final file size mismatch: 9/10 bytes");
    assert_eq!(final_size_check(None, 10).unwrap_err(), "Failed to verify final file");
}

#[test]
fn download_names() {
    assert_eq!(download_quantization("m-Q4_K_M.gguf"), "Q4_K_M");
    assert_eq!(download_quantization("m.gguf"), "default");
    assert_eq!(file_download_url("a/b", "m.gguf"), "https://huggingface.co/a/b/resolve/main/m.gguf");
    assert_eq!(creation_success_message("a_b"), "Ollama model 'a_b' created successfully");
}

#[test]
fn paths_are_under_the_model_folder() {
    let p = ModelPaths::new("/data/app", "author/repo", "m.gguf");
    assert_eq!(p.model_dir, "/data/app/models/author_repo");
    assert_eq!(p.file_path, "/data/app/models/author_repo/m.gguf");
    assert_eq!(p.part_path, "/data/app/models/author_repo/m.gguf.part");
    assert_eq!(p.chunk_path("m.gguf", 3), "/data/app/models/author_repo/m.gguf.part.3");
}

#[test]
fn piece_paths_are_distinct_and_share_the_model_folder() {
    let p = ModelPaths::new("/data/app", "author/repo", "m.gguf");
    let paths: Vec<String> = (0..12).map(|i| p.chunk_path("m.gguf", i)).collect();
    for (i, a) in paths.iter().enumerate() {
        assert_eq!(std::path::Path::new(a).parent().unwrap(), std::path::Path::new(&p.model_dir));
        for b in paths.iter().skip(i + 1) {
            assert_ne!(a, b);
        }
    }
    assert_eq!(p.chunk_path("m.gguf", 1), "/data/app/models/author_repo/m.gguf.part.1");
    assert_eq!(p.chunk_path("m.gguf", 11), "/data/app/models/author_repo/m.gguf.part.11");
}

#[test]
fn piece_paths_differ_for_unusual_names_too() {
    let p = ModelPaths::new("/data/app", "author/repo", "m.gguf");
    for name in ["", "/abs/m.gguf", "sub/dir/m.gguf", "C:m.gguf", "\\x\\m.gguf"] {
        let paths: Vec<String> = (0..12).map(|i| p.chunk_path(name, i)).collect();
        for (i, a) in paths.iter().enumerate() {
            assert!(a.ends_with(&format!(".part.{}", i)));
            for b in paths.iter().skip(i + 1) {
                assert_ne!(a, b);
            }
        }
    }
    assert_eq!(p.chunk_path("", 2), "/data/app/models/author_repo/.part.2");
    assert_eq!(p.chunk_path("/abs/m.gguf", 2), "/abs/m.gguf.part.2");
}

#[test]
fn a_finished_file_of_full_size_completes_a_resumed_download() {
    assert!(DownloadManager::download_already_complete(true, Some(100), 100));
    assert!(!DownloadManager::download_already_complete(true, Some(99), 100));
    assert!(!DownloadManager::download_already_complete(true, None, 100));
    assert!(!DownloadManager::download_already_complete(false, Some(100), 100));
    assert!(DownloadManager::download_already_complete(true, Some(0), 0));
}

#[test]
fn creation_is_retried_with_growing_pauses() {
    let mut r = CreationRetry::new();
    assert_eq!(r.last_error_message(), "");
    assert!(r.begin_attempt().is_none());
    r.on_failure("boom".to_string());
    let p2 = r.begin_attempt().unwrap();
    assert_eq!(p2.wait_seconds, 2);
    assert_eq!(p2.message, "Retrying Ollama model creation (attempt 2/3)...");
    r.on_failure("again".to_string());
    let p3 = r.begin_attempt().unwrap();
    assert_eq!(p3.wait_seconds, 4);
    r.on_failure("last".to_string());
    assert!(!r.has_attempts_left());
    let (status, message) = r.failure_report(true);
    assert_eq!(status, "ollama_creation_failed");
    assert_eq!(message, "Failed to create Ollama model after 3 attempts: last. Please try importing manually.");
    assert_eq!(r.last_error_message(), "last");
    let (status, _) = r.failure_report(false);
    assert_eq!(status, "ollama_not_running");
}
