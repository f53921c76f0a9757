//! Verified text utilities and state logic of an LSP server framework.

pub mod error;
pub mod protocol;
pub mod server;
pub mod syntax;
pub mod text_utils;
pub mod transport;
pub mod tree_sitter_utils;
pub mod workspace;
