//! Enrichment and analytics for popular repositories of a code forge.
//!
//! The library holds the repository data model, the statistics computed over
//! enriched repositories, the classifier that tells a source tree from a
//! documentation tree, and the decision logic of the multi-phase fetch and of
//! the clone-and-classify loop. Network, disk and process work is left to the
//! caller, which hands the library plain values and performs the requests the
//! library asks for.
pub mod model;
pub mod text;
pub mod stats;
pub mod classify;
pub mod pipeline;
pub mod probe;
pub mod error;
pub mod config;
pub mod json;
pub mod services;
