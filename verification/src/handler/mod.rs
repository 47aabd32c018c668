//! What the HTTP handlers decide: which requests are refused and why, what
//! is sent to the embedding models, and what is stored and searched.
pub mod sync;
