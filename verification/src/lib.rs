//! A static site generator's content build pipeline.
//!
//! Markdown articles with a front-matter header are parsed, rendered to
//! HTML, and bound into page templates; stylesheets and images get
//! content-addressed (fingerprinted) output names.

pub mod articles;
pub mod checks;
pub mod errors;
pub mod fingerprint;
pub mod frontmatter;
pub mod images;
pub mod markdown;
pub mod paths;
pub mod pipeline;
pub mod strutil;
pub mod tables;
pub mod templates;
