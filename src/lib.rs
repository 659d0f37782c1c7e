//! Reads and rewrites the value bound to a dotted path in a Nix document,
//! preserving every other byte of the text.
//!
//! The parsed document is a `SyntaxTree`, an index-based arena of nodes with
//! byte spans and the printed text of each subtree; the source text is given
//! as bytes. Reading returns the printed text of the node bound to the path;
//! writing splices a replacement into its span.

pub mod edit;
pub mod laws;
pub mod path;
pub mod query;
pub mod resolve;
pub mod tree;

pub use edit::input_value;
pub use query::{get_value, process, set_value, Args, Command, ProcessError};
pub use tree::{NodeKind, Payload, SyntaxNode, SyntaxTree, TreeError};
