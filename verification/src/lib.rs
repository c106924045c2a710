//! A catalog of educational content kept as a strict multi-level forest
//! (subject, publisher, stage, textbook, chapter, section), together with
//! the bindings between content nodes, knowledge topics and question
//! categories that hang off its leaves.
//!
//! The heart of the crate is the hierarchical tree manager: it creates,
//! reparents, queries and deletes nodes while maintaining the structural
//! invariants of the forest — no cycles, depth always consistent with the
//! parent chain, labels unique among siblings, and no deletion of a node
//! that still has children or a live binding.

use vstd::prelude::*;

pub mod bridge;
pub mod category;
pub mod chapter_knowledge;
pub mod config;
pub mod digest;
pub mod edit;
pub mod errors;
pub mod index;
pub mod node;
pub mod order;
pub mod other_dict;
pub mod paths;
pub mod question;
pub mod question_cate;
pub mod resp;
pub mod store;
pub mod text;
pub mod textbook;
pub mod textbook_dict;
pub mod time;
pub mod upload;

verus! {

/// Highest depth a listing request may ask for; deeper requests are clamped.
pub const MAX_DEPTH: u32 = 7;

/// Depth of the nodes that may carry a chapter-knowledge binding.
pub const ADDRESSABLE_UNIT_DEPTH: i32 = 7;

/// What the running service is configured with: where the flat-file
/// metadata lives.
pub struct AppConfig {
    /// Root directory of the flat-file metadata.
    pub meta_path: String,
}

} // verus!
