pub mod cache;
pub mod compiled;
pub mod context;
pub mod doc_examples;
pub mod error;
pub mod frontmatter;
pub mod laws;
pub mod literals;
pub mod numeric;
pub mod scan;
pub mod text;
pub mod types;
pub mod value;
