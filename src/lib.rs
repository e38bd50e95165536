//! Knowledge-graph ingestion and graph-augmented retrieval, verified.
pub mod api;
pub mod chunker;
pub mod config;
pub mod foreign;
pub mod ingest;
pub mod llm;
pub mod models;
pub mod orchestrator;
pub mod rag;
pub mod reconcile;
pub mod text;
pub mod upsert;
