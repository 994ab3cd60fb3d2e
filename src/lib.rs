//! Matching of CSS-like selectors against the nodes of a parsed markup tree,
//! and the options that tell a parser which lookup tables to keep.
pub mod laws;
pub mod options;
pub mod relation;
pub mod selector;
pub mod tree;

pub use options::ParserOptions;
pub use relation::Relation;
pub use selector::Selector;
pub use tree::{Attr, HtmlTag, Node, NodeHandle, TreeContext};
