//! Question vector search: the verified core of a multimodal question index.
pub mod config;
pub mod handler;
pub mod laws;
pub mod model;
pub mod service;
pub mod text;
