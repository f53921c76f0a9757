//! A plain-value model of the protocol's server capabilities: for each
//! capability, the shape that decides whether it advertises something.

use vstd::prelude::*;

use crate::text_utils::encoding::Encoding;

verus! {

/// A capability given either as a plain boolean or as an options object
/// (`HoverProviderCapability`, `DeclarationCapability` and their likes).
#[derive(Debug, Clone, Copy, PartialEq, Eq, Structural)]
pub enum SimpleOrOptions {
    Simple(bool),
    Options,
}

/// A `OneOf<bool, Options>` capability.
#[derive(Debug, Clone, Copy, PartialEq, Eq, Structural)]
pub enum BoolOrOptions {
    Left(bool),
    Right,
}

/// The rename capability: a boolean, or options that may announce a
/// prepare-rename provider.
#[derive(Debug, Clone, Copy, PartialEq, Eq, Structural)]
pub enum RenameProvider {
    Left(bool),
    Right { prepare_provider: Option<bool> },
}

/// The color provider capability.
#[derive(Debug, Clone, Copy, PartialEq, Eq, Structural)]
pub enum ColorProvider {
    Simple(bool),
    ColorProvider,
    Options,
}

/// The text document sync capability: a sync kind, or options.
#[derive(Debug, Clone, Copy, PartialEq, Eq, Structural)]
pub enum TextDocumentSync {
    Kind,
    Options { will_save_wait_until: Option<bool> },
    /// The options the framework itself installs on initialize: incremental
    /// changes, open and close notifications, and saves that carry their
    /// text; no will-save-wait-until.
    Framework,
}

/// Which workspace file operations carry registration options.
#[derive(Debug, Clone, Copy, PartialEq, Eq, Structural)]
pub struct FileOperations {
    pub will_create: bool,
    pub will_rename: bool,
    pub will_delete: bool,
}

/// The `full` part of the semantic tokens capability.
#[derive(Debug, Clone, Copy, PartialEq, Eq, Structural)]
pub enum SemanticTokensFull {
    Bool(bool),
    Delta { delta: Option<bool> },
}

/// Semantic tokens options, whether given directly or inside registration
/// options.
#[derive(Debug, Clone, Copy, PartialEq, Eq, Structural)]
pub struct SemanticTokensOptions {
    pub full: Option<SemanticTokensFull>,
    pub range: Option<bool>,
}

/// The diagnostic provider capability and its workspace diagnostics flag.
#[derive(Debug, Clone, Copy, PartialEq, Eq, Structural)]
pub enum DiagnosticProvider {
    Options { workspace_diagnostics: bool },
    RegistrationOptions { workspace_diagnostics: bool },
}

/// How the server wants workspace folder change notifications: a
/// boolean, or a registration id.
#[derive(Debug, Clone, PartialEq, Eq)]
pub enum ChangeNotifications {
    Left(bool),
    Right(String),
}

/// The workspace folders capability.
#[derive(Debug, Clone)]
pub struct WorkspaceFolders {
    pub supported: Option<bool>,
    pub change_notifications: Option<ChangeNotifications>,
}

/// The workspace part of the server capabilities.
#[derive(Debug, Clone)]
pub struct WorkspaceCapabilities {
    pub workspace_folders: Option<WorkspaceFolders>,
    pub file_operations: Option<FileOperations>,
}

/// The server capabilities, as far as the framework reads or writes them.
#[derive(Debug, Clone)]
pub struct ServerCapabilities {
    pub position_encoding: Option<Encoding>,
    pub text_document_sync: Option<TextDocumentSync>,
    pub hover_provider: Option<SimpleOrOptions>,
    pub completion_provider: bool,
    pub signature_help_provider: bool,
    pub definition_provider: Option<BoolOrOptions>,
    pub type_definition_provider: Option<SimpleOrOptions>,
    pub implementation_provider: Option<SimpleOrOptions>,
    pub references_provider: Option<BoolOrOptions>,
    pub document_highlight_provider: Option<BoolOrOptions>,
    pub document_symbol_provider: Option<BoolOrOptions>,
    pub workspace_symbol_provider: Option<BoolOrOptions>,
    pub code_action_provider: Option<SimpleOrOptions>,
    pub code_lens_provider: bool,
    pub document_formatting_provider: Option<BoolOrOptions>,
    pub document_range_formatting_provider: Option<BoolOrOptions>,
    pub document_on_type_formatting_provider: bool,
    pub rename_provider: Option<RenameProvider>,
    pub document_link_provider: bool,
    pub color_provider: Option<ColorProvider>,
    pub folding_range_provider: Option<SimpleOrOptions>,
    pub declaration_provider: Option<SimpleOrOptions>,
    pub execute_command_provider: bool,
    pub workspace: Option<WorkspaceCapabilities>,
    pub call_hierarchy_provider: Option<SimpleOrOptions>,
    pub semantic_tokens_provider: Option<SemanticTokensOptions>,
    pub moniker_provider: Option<BoolOrOptions>,
    pub linked_editing_range_provider: Option<SimpleOrOptions>,
    pub inline_value_provider: Option<BoolOrOptions>,
    pub inlay_hint_provider: Option<BoolOrOptions>,
    pub diagnostic_provider: Option<DiagnosticProvider>,
    pub selection_range_provider: Option<SimpleOrOptions>,
}

impl Default for ServerCapabilities {
    /// Capabilities that advertise nothing.
    fn default() -> (r: Self)
        ensures
            r == ServerCapabilities::none(),
    {
        ServerCapabilities {
            position_encoding: None,
            text_document_sync: None,
            hover_provider: None,
            completion_provider: false,
            signature_help_provider: false,
            definition_provider: None,
            type_definition_provider: None,
            implementation_provider: None,
            references_provider: None,
            document_highlight_provider: None,
            document_symbol_provider: None,
            workspace_symbol_provider: None,
            code_action_provider: None,
            code_lens_provider: false,
            document_formatting_provider: None,
            document_range_formatting_provider: None,
            document_on_type_formatting_provider: false,
            rename_provider: None,
            document_link_provider: false,
            color_provider: None,
            folding_range_provider: None,
            declaration_provider: None,
            execute_command_provider: false,
            workspace: None,
            call_hierarchy_provider: None,
            semantic_tokens_provider: None,
            moniker_provider: None,
            linked_editing_range_provider: None,
            inline_value_provider: None,
            inlay_hint_provider: None,
            diagnostic_provider: None,
            selection_range_provider: None,
        }
    }
}

impl ServerCapabilities {
    /// Capabilities that advertise nothing.
    pub open spec fn none() -> Self {
        ServerCapabilities {
            position_encoding: None,
            text_document_sync: None,
            hover_provider: None,
            completion_provider: false,
            signature_help_provider: false,
            definition_provider: None,
            type_definition_provider: None,
            implementation_provider: None,
            references_provider: None,
            document_highlight_provider: None,
            document_symbol_provider: None,
            workspace_symbol_provider: None,
            code_action_provider: None,
            code_lens_provider: false,
            document_formatting_provider: None,
            document_range_formatting_provider: None,
            document_on_type_formatting_provider: false,
            rename_provider: None,
            document_link_provider: false,
            color_provider: None,
            folding_range_provider: None,
            declaration_provider: None,
            execute_command_provider: false,
            workspace: None,
            call_hierarchy_provider: None,
            semantic_tokens_provider: None,
            moniker_provider: None,
            linked_editing_range_provider: None,
            inline_value_provider: None,
            inlay_hint_provider: None,
            diagnostic_provider: None,
            selection_range_provider: None,
        }
    }
}

} // verus!
