//! Resilience and concurrency core of an image-description service: a host
//! failover router, the per-file processing pipeline, a bounded batch
//! dispatcher and a debouncing, stability-checking file watcher.
pub mod asset;
pub mod backend;
pub mod config;
pub mod dispatch;
pub mod error;
pub mod hosts;
pub mod json;
pub mod llamacpp;
pub mod locale;
pub mod ollama;
pub mod pipeline;
pub mod report;
pub mod retry;
pub mod text;
pub mod watcher;
