//! A blog content store: note visibility, filtered and paginated note queries,
//! a key-value settings store with typed views, and category / tag aggregation.

pub mod auth;
pub mod catalog;
pub mod clock;
pub mod digest;
pub mod friends;
pub mod listing;
pub mod lookup;
pub mod note;
pub mod query;
pub mod response;
pub mod settings;
pub mod talks;
pub mod text;
pub mod upload;
