//! A task tracker's storage core: todos, dependency edges between them, and
//! the small pieces of plain logic that serve them (error chains, credentials,
//! static content types).

pub mod assets;
pub mod errors;
pub mod laws;
pub mod options;
pub mod store;
pub mod util;
