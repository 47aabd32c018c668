//! Text extraction for the embedding models, and the decisions and data
//! shapes around the vector store.
pub mod embedding;
pub mod payload;
pub mod qdrant;
