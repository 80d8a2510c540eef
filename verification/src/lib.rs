//! Fuzzy song-title search: a configurable weighted edit-distance metric,
//! bounded top-K and best-match retrieval over an immutable catalog, and the
//! pure parsing, planning and formatting rules of the surrounding service.
//!
//! The catalog is loaded once at startup and handed to the retrieval
//! functions by reference; everything here is a pure function of its
//! arguments, so concurrent calls need no synchronisation.

pub mod costs;
pub mod dbschema;
pub mod distance;
pub mod numtext;
pub mod parser;
pub mod plan;
pub mod render;
pub mod search;
pub mod songdata;
pub mod sqlbuild;
pub mod summary;
pub mod text;
pub mod webschema;

pub use costs::query_delete;
pub use costs::query_insert;
pub use costs::query_replace;
pub use costs::query_substring;
pub use costs::CostModel;
pub use costs::StandardCosts;
pub use distance::Lyricism;
