//! Pieces of the document model: colours, selectors and the tree.
pub mod color;
pub mod css;
pub mod node;
