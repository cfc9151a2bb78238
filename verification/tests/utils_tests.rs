use solyn::hf_utils::{
    extract_parameter_count, extract_quantization, model_folder_name, ollama_model_name, ollama_model_names,
    quantization_from_match,
};

#[test]
fn ollama_names_include_quantization_and_latest() {
    let names = ollama_model_names("ornith-ai/Ornith-1.5-9B-GGUF", "Ornith-1.5-9B-Q8_0.gguf");
    assert_eq!(
        names,
        vec![
            "ornith-ai_Ornith-1.5-9B-GGUF_Q8_0".to_string(),
            "ornith-ai_Ornith-1.5-9B-GGUF_Q8_0:latest".to_string(),
        ]
    );
}

#[test]
fn ollama_names_fall_back_to_base_without_quantization() {
    let names = ollama_model_names("author/model", "model.gguf");
    assert_eq!(names, vec!["author_model".to_string(), "author_model:latest".to_string()]);
}

#[test]
fn ollama_names_extract_quantization_from_hyphenated_filename() {
    let names = ollama_model_names("meta-llama/Llama-3.1-8B-Instruct", "Meta-Llama-3.1-8B-Instruct-Q4_K_M.gguf");
    assert_eq!(
        names,
        vec![
            "meta-llama_Llama-3.1-8B-Instruct_Q4_K_M".to_string(),
            "meta-llama_Llama-3.1-8B-Instruct_Q4_K_M:latest".to_string(),
        ]
    );
}

#[test]
fn parameter_count_matches_common_sizes() {
    assert_eq!(extract_parameter_count("llama-2-70b.Q4_K_M.gguf").as_deref(), Some("70B"));
    assert_eq!(extract_parameter_count("vicuna-13b.gguf").as_deref(), Some("13B"));
    assert_eq!(extract_parameter_count("phi-125m.gguf").as_deref(), Some("125M"));
    assert_eq!(extract_parameter_count("wizardlm-3b.gguf").as_deref(), Some("3B"));
    assert_eq!(extract_parameter_count("tinyllama-1.1b.gguf").as_deref(), Some("1.1B"));
    assert_eq!(extract_parameter_count("qwen2.5-3b.gguf").as_deref(), Some("3B"));
    assert_eq!(extract_parameter_count("llava-v1.5-13b.gguf").as_deref(), Some("13B"));
}

#[test]
fn parameter_count_is_none_without_a_size() {
    assert_eq!(extract_parameter_count("model-instruct.gguf"), None);
}

#[test]
fn mixture_of_experts_sizes_are_read() {
    assert_eq!(extract_parameter_count("mixtral-8x7b-v0.1.Q4_K_M.gguf").as_deref(), Some("8x7B"));
}

#[test]
fn quantization_extracts_full_k_quant() {
    assert_eq!(extract_quantization("Meta-Llama-3.1-8B-Instruct-Q4_K_M.gguf").as_deref(), Some("Q4_K_M"));
}

#[test]
fn quantization_handles_common_variants_case_insensitively() {
    assert_eq!(extract_quantization("model.Q8_0.gguf").as_deref(), Some("Q8_0"));
    assert_eq!(extract_quantization("model.q4_0.gguf").as_deref(), Some("Q4_0"));
    assert_eq!(extract_quantization("model-q5_k_m.gguf").as_deref(), Some("Q5_K_M"));
    assert_eq!(extract_quantization("model-f16.gguf").as_deref(), Some("F16"));
    assert_eq!(extract_quantization("model-f32.gguf").as_deref(), Some("F32"));
    assert_eq!(extract_quantization("model.IQ2_XS.gguf").as_deref(), Some("IQ2_XS"));
}

#[test]
fn quantization_is_none_for_plain_name() {
    assert_eq!(extract_quantization("model.gguf"), None);
}

#[test]
fn ollama_model_name_includes_quantization() {
    assert_eq!(ollama_model_name("meta-llama/Llama-3", Some("Q4_K_M")), "meta-llama_Llama-3_Q4_K_M");
}

#[test]
fn ollama_model_name_omits_absent_or_default_quantization() {
    assert_eq!(ollama_model_name("a/b", None), "a_b");
    assert_eq!(ollama_model_name("a/b", Some("")), "a_b");
    assert_eq!(ollama_model_name("a/b", Some("default")), "a_b");
}

#[test]
fn folder_name_replaces_every_slash() {
    assert_eq!(model_folder_name("a/b/c"), "a_b_c");
}

#[test]
fn parameter_count_ignores_case() {
    assert_eq!(extract_parameter_count("Llama-2-70B-Chat.gguf").as_deref(), Some("70B"));
    assert_eq!(extract_parameter_count("Phi-125M.gguf").as_deref(), Some("125M"));
}

#[test]
fn a_pattern_match_gives_its_whole_match_uppercased() {
    assert_eq!(quantization_from_match(Some(vec![Some("q4_k_m".to_string())])), Some("Q4_K_M".to_string()));
    assert_eq!(quantization_from_match(Some(vec![Some("iq2_xs".to_string()), None])), Some("IQ2_XS".to_string()));
    assert_eq!(quantization_from_match(Some(vec![None])), None);
    assert_eq!(quantization_from_match(Some(vec![])), None);
    assert_eq!(quantization_from_match(None), None);
}
