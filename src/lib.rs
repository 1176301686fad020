//! Semantic and lexical search over a research workspace: text fingerprints,
//! their byte encoding, similarity ranking and federated result merging.

pub mod text;
pub mod embedding;
pub mod codec;
pub mod search;
pub mod rank;
pub mod indexing;
pub mod similarity;
pub mod models;
pub mod export;
pub mod keychain;
pub mod extract;
