//! Workspace-wide state: diagnostics exposure, reports and walks.

pub mod diagnostics;
pub mod handlers;
pub mod reports;
pub mod roots;
pub mod walker;

pub use diagnostics::WorkspaceDiagnosticsState;
pub use walker::{WorkspaceWalkConfig, WorkspaceWalker};
