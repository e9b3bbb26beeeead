//! A content build pipeline: front-matter parsing, the content-entry model,
//! renderer dispatch and build planning.
pub mod builder;
pub mod entry;
pub mod error;
pub mod frontmatter;
pub mod manifest;
pub mod project;
pub mod render;
pub mod text;
pub mod timestamp;
pub mod tomldoc;
