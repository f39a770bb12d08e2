//! Wikitext preprocessing that runs before FTML parses a page.

pub mod show_to;
pub mod wikidot_comments;
pub mod list_pages;
pub mod list_layout;
pub mod page_tokens;
pub mod includes;
pub mod listing;
pub mod preprocess;
pub mod pipeline;
