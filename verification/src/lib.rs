//! Core of a width-aware PHP source-code pretty-printer.
//!
//! The crate lowers an abstract syntax tree to a `Document`: a tree of
//! print instructions (text atoms, conditional line breaks, groups,
//! indentation). A layout engine then renders the `Document` to text,
//! deciding per group whether to print it on one line or broken across
//! lines so that the output respects a configured print width.

pub mod ast;
pub mod block;
pub mod call;
pub mod comments;
pub mod context;
pub mod discover;
pub mod format;
pub mod parameters;
pub mod document;
pub mod layout;
pub mod lowering;
pub mod settings;
pub mod span;

pub use document::Document;
pub use document::LineKind;
pub use settings::MethodChainBreakingStyle;
pub use settings::Settings;
