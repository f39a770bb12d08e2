//! Deepwell's wikitext preprocessing, membership, watching, search and mail
//! rules, verified with Verus.

pub mod text;
pub mod render;
pub mod names;
pub mod error;
pub mod members;
pub mod applications;
pub mod email;
pub mod password;
pub mod watching;
pub mod search;
pub mod editor;
pub mod job;
pub mod import;
pub mod drafts;
pub mod delivery;
pub mod outdate;
