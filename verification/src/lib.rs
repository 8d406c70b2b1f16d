//! Extraction pipeline for gallery links: URLs are classified by site,
//! each site's extractor turns remote metadata into downloadable items,
//! and a small template engine computes where every item is saved.

pub mod cache;
pub mod cleaner;
pub mod dispatch;
pub mod error;
pub mod extractor;
pub mod text;
pub mod sites;
pub mod template;
pub mod weburl;
