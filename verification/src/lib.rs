//! Inference orchestration and retrieval memory for a local conversational
//! assistant: model lifecycle, cancellable generation, a semantic memory
//! index and prompt assembly.

pub mod binary32;
pub mod commands;
pub mod context;
pub mod database;
pub mod embeddings;
pub mod errors;
pub mod generation;
pub mod hf_models;
pub mod llm;
pub mod logging;
pub mod ollama;
pub mod openai_compat;
pub mod text;
pub mod voice;
