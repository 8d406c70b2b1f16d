//! Extractors: one per site, each turning the URLs of its site into the
//! items to download.

pub mod common;
pub mod imgur;
