//! Asset resolution and HTTP content negotiation for a bundled web front end.
//!
//! - `paths`: the order on paths and the path rewriting that serving needs.
//! - `table`: a table kept sorted by path, searched by bisection.
//! - `artifact`: one servable file, its ETag and decimal formatting.
//! - `store`: the embedded store, its index builder and alias resolution.
//! - `serve`: cache strategies, index fallback and conditional responses.
//! - `dev`: the dev-server slot, command line, URL and response translation.

pub mod artifact;
pub mod dev;
pub mod paths;
pub mod serve;
pub mod store;
pub mod table;
