//! An in-memory blog content repository: a sequence of posts, each owning a
//! sequence of comments, addressed by zero-based position, with
//! create/read/update/delete operations and case-sensitive substring search
//! across authors, titles, labels, and bodies.

pub mod comment;
pub mod error;
pub mod laws;
pub mod post;
pub mod repository;
pub mod search;
pub mod text;

pub use error::BlogError;
pub use repository::Blog;
pub use text::str_contains;
