//! Server configuration and the state the server keeps between requests.

pub mod capabilities;
pub mod documents;
pub mod edits;
pub mod fallback;
pub mod initialize;
pub mod inventory;
pub mod keyed;
pub mod options;
pub mod settings;
pub mod stamp;
pub mod store;
pub mod walk_cache;

pub use options::{
    ConfigurationKey, ServerOptions, WorkspaceDiagnostics, WorkspaceDiagnosticsSetting,
};
