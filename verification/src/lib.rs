//! Reference documentation for XML vocabularies: a declarative tag list is
//! resolved into a linked tag graph and rendered as Markdown.

pub mod generator;
pub mod host;
pub mod laws;
pub mod lists;
pub mod model;
pub mod schema;
pub mod text;
