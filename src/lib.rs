//! Incremental retrieval of a group chat's message history.
//!
//! The library holds the decisions of a backward, cursor-based pagination
//! over a rate-limited API: which page to ask for next, how long to wait
//! before asking, which messages of a page fall in a closed date window, and
//! when the retrieval is over. Performing the requests is left to the caller.
pub mod client;
pub mod groups;
pub mod model;
pub mod retrieval;
pub mod text;
pub mod window;
