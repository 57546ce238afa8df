pub mod cache;
pub mod config;
pub mod frontmatter;
pub mod generate;
pub mod registry;
pub mod schema;
pub mod validate;
