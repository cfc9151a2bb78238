//! Verified core of a local model-management and chat assistant.

pub mod hf_types;
pub mod text;
pub mod chat;
pub mod budget;
pub mod context;
pub mod chat_stream;
pub mod hf_utils;
pub mod hf_parsing;
pub mod hf_client;
pub mod hf_cache;
pub mod platform;
pub mod resources;
pub mod platform_contracts;
pub mod download_state;
pub mod installation;
pub mod download;
pub mod chat_history;
pub mod ollama_models;
pub mod installed;
