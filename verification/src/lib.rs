//! Detection of the web frameworks, site generators and UI libraries behind a
//! page, from its parsed markup and the scripts it references.

pub mod cache;
pub mod detect;
pub mod document;
pub mod engine;
pub mod evaluation;
pub mod labels;
pub mod resolver;
pub mod scripts;
pub mod sites;
pub mod text;
