//! Workspace diagnostics: whether they are supported and enabled, the
//! client features that drive their configuration, and the decisions taken
//! on initialization, on configuration changes and on configuration replies.

use vstd::prelude::*;

use crate::server::capabilities::{
    ChangeNotifications, DiagnosticProvider, ServerCapabilities, WorkspaceCapabilities,
    WorkspaceFolders,
};
use crate::server::options::{
    ConfigurationKeyView, ServerOptions, WorkspaceDiagnostics, WorkspaceDiagnosticsSetting,
    WorkspaceDiagnosticsView, configuration_value,
};
use crate::server::settings::SettingsValue;

verus! {

/// The client's `workspace/didChangeConfiguration` capability.
#[derive(Debug, Clone, Copy)]
pub struct DidChangeConfigurationClientCapabilities {
    pub dynamic_registration: Option<bool>,
}

/// The client's workspace diagnostics capability.
#[derive(Debug, Clone, Copy)]
pub struct DiagnosticWorkspaceClientCapabilities {
    pub refresh_support: Option<bool>,
}

/// The workspace part of the client capabilities.
#[derive(Debug, Clone, Copy)]
pub struct WorkspaceClientCapabilities {
    pub configuration: Option<bool>,
    pub did_change_configuration: Option<DidChangeConfigurationClientCapabilities>,
    pub diagnostic: Option<DiagnosticWorkspaceClientCapabilities>,
}

/// The client capabilities, as far as workspace diagnostics read them.
#[derive(Debug, Clone, Copy)]
pub struct ClientCapabilities {
    pub workspace: Option<WorkspaceClientCapabilities>,
}

/// Workspace diagnostics state: the configured exposure, whether the
/// server supports and has enabled them, the client features it may use,
/// and the generation counter that orders configuration requests.
#[derive(Debug)]
pub struct WorkspaceDiagnosticsState {
    options: WorkspaceDiagnostics,
    supported: bool,
    enabled: bool,
    client_configuration: bool,
    client_dynamic_configuration: bool,
    client_refresh: bool,
    generation: u64,
}

/// The model of a [`WorkspaceDiagnosticsState`].
pub struct WorkspaceDiagnosticsStateView {
    pub options: WorkspaceDiagnosticsView,
    pub supported: bool,
    pub enabled: bool,
    pub client_configuration: bool,
    pub client_dynamic_configuration: bool,
    pub client_refresh: bool,
    pub generation: u64,
}

impl View for WorkspaceDiagnosticsState {
    type V = WorkspaceDiagnosticsStateView;

    closed spec fn view(&self) -> WorkspaceDiagnosticsStateView {
        WorkspaceDiagnosticsStateView {
            options: self.options@,
            supported: self.supported,
            enabled: self.enabled,
            client_configuration: self.client_configuration,
            client_dynamic_configuration: self.client_dynamic_configuration,
            client_refresh: self.client_refresh,
            generation: self.generation,
        }
    }
}

/// The key of the configurable setting, if the exposure is configurable.
pub open spec fn setting_key(options: WorkspaceDiagnosticsView) -> Option<ConfigurationKeyView> {
    match options {
        WorkspaceDiagnosticsView::Configurable { key, .. } => Some(key),
        _ => None,
    }
}

/// Whether the client announced `workspace/configuration` requests.
pub open spec fn client_supports_configuration(client: ClientCapabilities) -> bool {
    client.workspace matches Some(w) && w.configuration == Some(true)
}

/// Whether the client announced dynamic registration of configuration
/// change notifications.
pub open spec fn client_supports_dynamic_configuration(client: ClientCapabilities) -> bool {
    client.workspace matches Some(w) && w.did_change_configuration matches Some(d)
        && d.dynamic_registration == Some(true)
}

/// Whether the client announced workspace diagnostics refresh requests.
pub open spec fn client_supports_refresh(client: ClientCapabilities) -> bool {
    client.workspace matches Some(w) && w.diagnostic matches Some(d) && d.refresh_support == Some(
        true,
    )
}

/// The enabled flag after applying initialization options that may carry
/// the configurable setting.
pub open spec fn enabled_after_options(
    enabled: bool,
    options: WorkspaceDiagnosticsView,
    initialization_options: Option<SettingsValue>,
) -> bool {
    match (initialization_options, setting_key(options)) {
        (Some(value), Some(key)) => match configuration_value(key, value) {
            Some(b) => b,
            None => enabled,
        },
        _ => enabled,
    }
}

/// The generation after `generation`: the next one, wrapping to zero.
pub open spec fn next_generation_of(generation: u64) -> u64 {
    if generation == u64::MAX {
        0
    } else {
        (generation + 1) as u64
    }
}

/// The enabled value that a configuration reply tagged `generation` and
/// holding `value` applies: only a reply to the current request that holds
/// the setting applies anything.
pub open spec fn reply_applies(
    state: WorkspaceDiagnosticsStateView,
    generation: u64,
    value: Option<SettingsValue>,
) -> Option<bool> {
    match (value, setting_key(state.options)) {
        (Some(value), Some(key)) => if generation == state.generation {
            configuration_value(key, value)
        } else {
            None
        },
        _ => None,
    }
}

/// What applying an enabled value did: whether it changed the flag, and
/// whether the client must be asked to refresh its diagnostics.
#[derive(Debug, Clone, Copy, PartialEq, Eq, Structural)]
pub struct EnabledChange {
    pub changed: bool,
    pub refresh: bool,
}

/// The outcome of a configuration change notification.
#[derive(Debug, Clone, Copy, PartialEq, Eq, Structural)]
pub enum ConfigurationStep {
    /// Nothing to do: the exposure is not configurable, or the client
    /// cannot be asked.
    Nothing,
    /// The notification carried the setting, which was applied.
    Applied(EnabledChange),
    /// The notification did not carry the setting: ask the client for it,
    /// tagging the request with this generation.
    Request { generation: u64 },
}

impl WorkspaceDiagnosticsState {
    /// The state's invariant: the kill-switch exposure is never supported.
    pub closed spec fn wf(&self) -> bool {
        self.options@ is Disabled ==> !self.supported
    }

    /// The state for the given options: supported unless disabled, enabled
    /// as the exposure says until the client reports otherwise.
    pub fn new(options: &ServerOptions) -> (r: Self)
        ensures
            r.wf(),
            r@.options == options.workspace_diagnostics@,
            r@.supported == !(options.workspace_diagnostics is Disabled),
            r@.enabled == match options.workspace_diagnostics@ {
                WorkspaceDiagnosticsView::Disabled => false,
                WorkspaceDiagnosticsView::Enabled => true,
                WorkspaceDiagnosticsView::Configurable { default_enabled, .. } => default_enabled,
            },
            !r@.client_configuration,
            !r@.client_dynamic_configuration,
            !r@.client_refresh,
            r@.generation == 0,
    {
        let enabled = match &options.workspace_diagnostics {
            WorkspaceDiagnostics::Disabled => false,
            WorkspaceDiagnostics::Enabled => true,
            WorkspaceDiagnostics::Configurable(setting) => setting.default_enabled,
        };
        let supported = match &options.workspace_diagnostics {
            WorkspaceDiagnostics::Disabled => false,
            _ => true,
        };
        WorkspaceDiagnosticsState {
            options: options.workspace_diagnostics.clone(),
            supported,
            enabled,
            client_configuration: false,
            client_dynamic_configuration: false,
            client_refresh: false,
            generation: 0,
        }
    }

    /// Whether workspace diagnostics are handled: supported and enabled.
    pub fn enabled(&self) -> (r: bool)
        ensures
            r == (self@.supported && self@.enabled),
    {
        self.supported && self.enabled
    }

    /// Whether workspace diagnostics are switched on, supported or not.
    pub fn switched_on(&self) -> (r: bool)
        ensures
            r == self@.enabled,
    {
        self.enabled
    }

    /// Whether workspace diagnostics are supported at all.
    pub fn supported(&self) -> (r: bool)
        ensures
            r == self@.supported,
    {
        self.supported
    }

    /// The configurable setting, if the exposure is configurable.
    pub fn setting(&self) -> (r: Option<&WorkspaceDiagnosticsSetting>)
        ensures
            match r {
                Some(setting) => setting_key(self@.options) == Some(setting.key@),
                None => setting_key(self@.options) is None,
            },
    {
        match &self.options {
            WorkspaceDiagnostics::Configurable(setting) => Some(setting),
            _ => None,
        }
    }

    /// Whether the client may be asked for the setting's value.
    pub fn can_request_configuration(&self) -> (r: bool)
        ensures
            r == (self@.client_configuration && setting_key(self@.options) is Some),
    {
        self.client_configuration && self.setting().is_some()
    }

    /// Whether the setting's change notifications may be registered.
    pub fn can_register_configuration(&self) -> (r: bool)
        ensures
            r == (self@.client_dynamic_configuration && setting_key(self@.options) is Some),
    {
        self.client_dynamic_configuration && self.setting().is_some()
    }

    /// Whether the client may be asked to refresh its diagnostics.
    pub fn can_refresh(&self) -> (r: bool)
        ensures
            r == self@.client_refresh,
    {
        self.client_refresh
    }

    /// Records what the initialize exchange settled: support follows the
    /// advertised diagnostic provider (never under the kill-switch), and
    /// each client feature counts only when the client announced it.
    pub fn configure(&mut self, capabilities: &ServerCapabilities, client: &ClientCapabilities)
        requires
            old(self).wf(),
        ensures
            final(self).wf(),
            final(self)@.options == old(self)@.options,
            final(self)@.enabled == old(self)@.enabled,
            final(self)@.generation == old(self)@.generation,
            final(self)@.supported == (!(old(self)@.options is Disabled)
                && capabilities.diagnostic_provider is Some),
            final(self)@.client_configuration == client_supports_configuration(*client),
            final(self)@.client_dynamic_configuration == client_supports_dynamic_configuration(
                *client,
            ),
            final(self)@.client_refresh == client_supports_refresh(*client),
    {
        let disabled = match &self.options {
            WorkspaceDiagnostics::Disabled => true,
            _ => false,
        };
        self.supported = !disabled && capabilities.diagnostic_provider.is_some();
        match client.workspace {
            Some(workspace) => {
                self.client_configuration = workspace.configuration == Some(true);
                self.client_dynamic_configuration = match workspace.did_change_configuration {
                    Some(did_change) => did_change.dynamic_registration == Some(true),
                    None => false,
                };
                self.client_refresh = match workspace.diagnostic {
                    Some(diagnostic) => diagnostic.refresh_support == Some(true),
                    None => false,
                };
            },
            None => {
                self.client_configuration = false;
                self.client_dynamic_configuration = false;
                self.client_refresh = false;
            },
        }
    }

    /// Advances the generation counter and returns the new generation.
    pub fn next_generation(&mut self) -> (r: u64)
        requires
            old(self).wf(),
        ensures
            final(self).wf(),
            r == final(self)@.generation,
            r == next_generation_of(old(self)@.generation),
            final(self)@.options == old(self)@.options,
            final(self)@.supported == old(self)@.supported,
            final(self)@.enabled == old(self)@.enabled,
            final(self)@.client_configuration == old(self)@.client_configuration,
            final(self)@.client_dynamic_configuration == old(self)@.client_dynamic_configuration,
            final(self)@.client_refresh == old(self)@.client_refresh,
    {
        self.generation = self.generation.wrapping_add(1);
        self.generation
    }

    /// The current generation.
    pub fn current_generation(&self) -> (r: u64)
        ensures
            r == self@.generation,
    {
        self.generation
    }

    /// Sets the enabled flag; returns whether it changed.
    pub fn set_enabled(&mut self, enabled: bool) -> (r: bool)
        requires
            old(self).wf(),
        ensures
            final(self).wf(),
            r == (old(self)@.enabled != enabled),
            final(self)@.enabled == enabled,
            final(self)@.options == old(self)@.options,
            final(self)@.supported == old(self)@.supported,
            final(self)@.client_configuration == old(self)@.client_configuration,
            final(self)@.client_dynamic_configuration == old(self)@.client_dynamic_configuration,
            final(self)@.client_refresh == old(self)@.client_refresh,
            final(self)@.generation == old(self)@.generation,
    {
        let changed = self.enabled != enabled;
        self.enabled = enabled;
        changed
    }

    /// Applies an enabled value: a change asks the client to refresh its
    /// diagnostics when they are supported and the client can refresh.
    pub fn apply_enabled(&mut self, enabled: bool) -> (r: EnabledChange)
        requires
            old(self).wf(),
        ensures
            final(self).wf(),
            r.changed == (old(self)@.enabled != enabled),
            r.refresh == (r.changed && old(self)@.supported && old(self)@.client_refresh),
            final(self)@.enabled == enabled,
            final(self)@.options == old(self)@.options,
            final(self)@.supported == old(self)@.supported,
            final(self)@.client_configuration == old(self)@.client_configuration,
            final(self)@.client_dynamic_configuration == old(self)@.client_dynamic_configuration,
            final(self)@.client_refresh == old(self)@.client_refresh,
            final(self)@.generation == old(self)@.generation,
    {
        let changed = self.set_enabled(enabled);
        let refresh = changed && self.supported() && self.can_refresh();
        EnabledChange { changed, refresh }
    }

    /// Applies the setting found in the client's initialization options, if
    /// the exposure is configurable and the options hold it; returns whether
    /// the enabled flag changed, or `None` when nothing was applied.
    pub fn apply_initialization_options(&mut self, options: Option<&SettingsValue>) -> (r: Option<
        bool,
    >)
        requires
            old(self).wf(),
        ensures
            final(self).wf(),
            final(self)@.options == old(self)@.options,
            final(self)@.supported == old(self)@.supported,
            final(self)@.generation == old(self)@.generation,
            final(self)@.client_configuration == old(self)@.client_configuration,
            final(self)@.client_dynamic_configuration == old(self)@.client_dynamic_configuration,
            final(self)@.client_refresh == old(self)@.client_refresh,
            match (options, setting_key(old(self)@.options)) {
                (Some(options), Some(key)) => match configuration_value(key, *options) {
                    Some(enabled) => r == Some(old(self)@.enabled != enabled)
                        && final(self)@.enabled == enabled,
                    None => r is None && final(self)@.enabled == old(self)@.enabled,
                },
                _ => r is None && final(self)@.enabled == old(self)@.enabled,
            },
    {
        let options = match options {
            Some(options) => options,
            None => return None,
        };
        let enabled = match self.setting() {
            Some(setting) => setting.key.value(options),
            None => return None,
        };
        match enabled {
            Some(enabled) => Some(self.set_enabled(enabled)),
            None => None,
        }
    }

    /// Asks for the setting's value when the client supports configuration
    /// requests: returns the generation that tags the request.
    pub fn request_configuration(&mut self) -> (r: Option<u64>)
        requires
            old(self).wf(),
        ensures
            final(self).wf(),
            final(self)@.options == old(self)@.options,
            final(self)@.supported == old(self)@.supported,
            final(self)@.enabled == old(self)@.enabled,
            final(self)@.client_refresh == old(self)@.client_refresh,
            final(self)@.client_configuration == old(self)@.client_configuration,
            final(self)@.client_dynamic_configuration == old(self)@.client_dynamic_configuration,
            if old(self)@.client_configuration && setting_key(old(self)@.options) is Some {
                &&& r == Some(final(self)@.generation)
                &&& final(self)@.generation == next_generation_of(old(self)@.generation)
            } else {
                r is None && final(self)@.generation == old(self)@.generation
            },
    {
        if !self.can_request_configuration() {
            return None;
        }
        Some(self.next_generation())
    }

    /// Handles a configuration change notification: the setting it carries
    /// is applied, under a new generation that makes pending requests stale;
    /// without it, the client is asked for the value.
    pub fn did_change_configuration(&mut self, settings: &SettingsValue) -> (r: ConfigurationStep)
        requires
            old(self).wf(),
        ensures
            final(self).wf(),
            final(self)@.options == old(self)@.options,
            final(self)@.supported == old(self)@.supported,
            final(self)@.client_configuration == old(self)@.client_configuration,
            final(self)@.client_dynamic_configuration == old(self)@.client_dynamic_configuration,
            final(self)@.client_refresh == old(self)@.client_refresh,
            match setting_key(old(self)@.options) {
                None => r == ConfigurationStep::Nothing && final(self)@ == old(self)@,
                Some(key) => match configuration_value(key, *settings) {
                    Some(enabled) => {
                        &&& r == ConfigurationStep::Applied(
                            EnabledChange {
                                changed: old(self)@.enabled != enabled,
                                refresh: old(self)@.enabled != enabled && old(self)@.supported
                                    && old(self)@.client_refresh,
                            },
                        )
                        &&& final(self)@.enabled == enabled
                        &&& final(self)@.generation != old(self)@.generation
                    },
                    None => {
                        &&& final(self)@.enabled == old(self)@.enabled
                        &&& if old(self)@.client_configuration {
                            &&& r == ConfigurationStep::Request {
                                generation: final(self)@.generation,
                            }
                            &&& final(self)@.generation != old(self)@.generation
                        } else {
                            r == ConfigurationStep::Nothing && final(self)@.generation == old(
                                self,
                            )@.generation
                        }
                    },
                },
            },
    {
        let value = match self.setting() {
            Some(setting) => setting.key.value(settings),
            None => return ConfigurationStep::Nothing,
        };
        match value {
            Some(enabled) => {
                self.next_generation();
                ConfigurationStep::Applied(self.apply_enabled(enabled))
            },
            None => match self.request_configuration() {
                Some(generation) => ConfigurationStep::Request { generation },
                None => ConfigurationStep::Nothing,
            },
        }
    }

    /// Handles the client's reply to the configuration request tagged with
    /// `generation`: a reply to a superseded request is dropped, as is one
    /// that does not hold the setting.
    pub fn configuration_response(&mut self, generation: u64, value: Option<&SettingsValue>) -> (r:
        Option<EnabledChange>)
        requires
            old(self).wf(),
        ensures
            final(self).wf(),
            final(self)@.options == old(self)@.options,
            final(self)@.supported == old(self)@.supported,
            final(self)@.client_configuration == old(self)@.client_configuration,
            final(self)@.client_dynamic_configuration == old(self)@.client_dynamic_configuration,
            final(self)@.client_refresh == old(self)@.client_refresh,
            final(self)@.generation == old(self)@.generation,
            match reply_applies(
                old(self)@,
                generation,
                match value {
                    Some(v) => Some(*v),
                    None => None,
                },
            ) {
                Some(enabled) => r == Some(
                    EnabledChange {
                        changed: old(self)@.enabled != enabled,
                        refresh: old(self)@.enabled != enabled && old(self)@.supported
                            && old(self)@.client_refresh,
                    },
                ) && final(self)@.enabled == enabled,
                None => r is None && final(self)@.enabled == old(self)@.enabled,
            },
    {
        if self.current_generation() != generation {
            return None;
        }
        let value = match value {
            Some(value) => value,
            None => return None,
        };
        let enabled = match self.setting() {
            Some(setting) => setting.key.value(value),
            None => return None,
        };
        match enabled {
            Some(enabled) => Some(self.apply_enabled(enabled)),
            None => None,
        }
    }
}

/// The diagnostic provider with its workspace diagnostics flag set to `on`.
pub open spec fn with_workspace_flag(provider: Option<DiagnosticProvider>, on: bool) -> Option<
    DiagnosticProvider,
> {
    match provider {
        Some(DiagnosticProvider::Options { .. }) => Some(
            DiagnosticProvider::Options { workspace_diagnostics: on },
        ),
        Some(DiagnosticProvider::RegistrationOptions { .. }) => Some(
            DiagnosticProvider::RegistrationOptions { workspace_diagnostics: on },
        ),
        None => None,
    }
}

/// The workspace capabilities with workspace folders supported and change
/// notifications on, keeping a registration id the server already chose.
pub open spec fn with_folder_tracking(workspace: Option<WorkspaceCapabilities>) -> WorkspaceCapabilities {
    let file_operations = match workspace {
        Some(w) => w.file_operations,
        None => None,
    };
    let change_notifications = match workspace {
        Some(w) => match w.workspace_folders {
            Some(f) => f.change_notifications,
            None => None,
        },
        None => None,
    };
    WorkspaceCapabilities {
        workspace_folders: Some(
            WorkspaceFolders {
                supported: Some(true),
                change_notifications: match change_notifications {
                    Some(ChangeNotifications::Right(id)) => Some(ChangeNotifications::Right(id)),
                    _ => Some(ChangeNotifications::Left(true)),
                },
            },
        ),
        file_operations,
    }
}

/// Sets the advertised workspace diagnostics flag, when a diagnostic
/// provider is advertised.
pub fn set_workspace_diagnostics_flag(capabilities: &mut ServerCapabilities, on: bool)
    ensures
        *final(capabilities) == (ServerCapabilities {
            diagnostic_provider: with_workspace_flag(old(capabilities).diagnostic_provider, on),
            ..*old(capabilities)
        }),
{
    capabilities.diagnostic_provider = match capabilities.diagnostic_provider {
        Some(DiagnosticProvider::Options { .. }) => Some(
            DiagnosticProvider::Options { workspace_diagnostics: on },
        ),
        Some(DiagnosticProvider::RegistrationOptions { .. }) => Some(
            DiagnosticProvider::RegistrationOptions { workspace_diagnostics: on },
        ),
        None => None,
    };
}

/// Turns on workspace folder tracking when a diagnostic provider is
/// advertised: workspace diagnostics scan the client's folders.
pub fn enable_workspace_folder_tracking(capabilities: &mut ServerCapabilities)
    ensures
        *final(capabilities) == if old(capabilities).diagnostic_provider is None {
            *old(capabilities)
        } else {
            ServerCapabilities {
                workspace: Some(with_folder_tracking(old(capabilities).workspace)),
                ..*old(capabilities)
            }
        },
{
    if capabilities.diagnostic_provider.is_none() {
        return;
    }
    let workspace = capabilities.workspace.take();
    let (folders, file_operations) = match workspace {
        Some(w) => (w.workspace_folders, w.file_operations),
        None => (None, None),
    };
    let change_notifications = match folders {
        Some(f) => f.change_notifications,
        None => None,
    };
    let change_notifications = match change_notifications {
        Some(ChangeNotifications::Right(id)) => Some(ChangeNotifications::Right(id)),
        _ => Some(ChangeNotifications::Left(true)),
    };
    capabilities.workspace = Some(
        WorkspaceCapabilities {
            workspace_folders: Some(
                WorkspaceFolders { supported: Some(true), change_notifications },
            ),
            file_operations,
        },
    );
}

/// The capabilities after configuring them for workspace diagnostics: the
/// kill-switch (`disabled`) clears the advertised flag; otherwise an
/// advertised diagnostic provider gets the flag set and workspace folders
/// tracked.
pub open spec fn configured_capabilities(disabled: bool, caps: ServerCapabilities) -> ServerCapabilities {
    if disabled {
        ServerCapabilities {
            diagnostic_provider: with_workspace_flag(caps.diagnostic_provider, false),
            ..caps
        }
    } else if caps.diagnostic_provider is None {
        caps
    } else {
        ServerCapabilities {
            diagnostic_provider: with_workspace_flag(caps.diagnostic_provider, true),
            workspace: Some(with_folder_tracking(caps.workspace)),
            ..caps
        }
    }
}

/// Configures the workspace diagnostics state and the capabilities about
/// to be sent: the kill-switch clears the advertised flag; otherwise the
/// flag is set and workspace folders are tracked.
pub fn configure_capabilities(
    state: &mut WorkspaceDiagnosticsState,
    capabilities: &mut ServerCapabilities,
    client: &ClientCapabilities,
)
    requires
        old(state).wf(),
    ensures
        final(state).wf(),
        final(state)@.options == old(state)@.options,
        final(state)@.supported == (!(old(state)@.options is Disabled)
            && old(capabilities).diagnostic_provider is Some),
        final(state)@.enabled == old(state)@.enabled,
        final(state)@.generation == old(state)@.generation,
        final(state)@.client_configuration == client_supports_configuration(*client),
        final(state)@.client_dynamic_configuration == client_supports_dynamic_configuration(*client),
        final(state)@.client_refresh == client_supports_refresh(*client),
        *final(capabilities) == configured_capabilities(
            old(state)@.options is Disabled,
            *old(capabilities),
        ),
{
    state.configure(capabilities, client);
    let disabled = match &state.options {
        WorkspaceDiagnostics::Disabled => true,
        _ => false,
    };
    if disabled {
        set_workspace_diagnostics_flag(capabilities, false);
    } else {
        set_workspace_diagnostics_flag(capabilities, true);
        enable_workspace_folder_tracking(capabilities);
    }
}

/// Configuring the capabilities for workspace diagnostics tracks workspace
/// folders whenever a diagnostic provider is advertised and the exposure is
/// not disabled: folders are advertised as supported, and the client is
/// asked to send their change notifications (`Left(true)`), unless the
/// implementor named a registration id for them, which is kept; the
/// implementor's file operations stay as given. Without a provider nothing
/// changes, and under the kill-switch the workspace block is left as given.
pub proof fn law_configured_capabilities_track_folders(caps: ServerCapabilities)
    ensures
        caps.diagnostic_provider is None ==> configured_capabilities(false, caps) == caps,
        configured_capabilities(true, caps).workspace == caps.workspace,
        caps.diagnostic_provider is Some ==> ({
            let given = match caps.workspace {
                Some(w) => match w.workspace_folders {
                    Some(f) => f.change_notifications,
                    None => None,
                },
                None => None,
            };
            &&& configured_capabilities(false, caps).workspace matches Some(w)
            &&& w.workspace_folders matches Some(f)
            &&& f.supported == Some(true)
            &&& (given matches Some(ChangeNotifications::Right(id)) ==> f.change_notifications
                == Some(ChangeNotifications::Right(id)))
            &&& (!(given matches Some(ChangeNotifications::Right(_))) ==> f.change_notifications
                == Some(ChangeNotifications::Left(true)))
            &&& w.file_operations == match caps.workspace {
                Some(w) => w.file_operations,
                None => None,
            }
        }),
{
}

/// A client feature counts only when the client announced it as `true`:
/// refresh requests only with a workspace diagnostic block whose refresh
/// flag is `true`, configuration requests only with the configuration flag
/// `true`, and dynamic registration only with a configuration-change block
/// whose dynamic registration flag is `true`. A missing block or flag
/// means the feature is not used.
pub proof fn law_client_features_count_only_when_announced(client: ClientCapabilities)
    ensures
        client_supports_refresh(client) <==> (client.workspace is Some
            && client.workspace->0.diagnostic is Some
            && client.workspace->0.diagnostic->0.refresh_support == Some(true)),
        client_supports_configuration(client) <==> (client.workspace is Some
            && client.workspace->0.configuration == Some(true)),
        client_supports_dynamic_configuration(client) <==> (client.workspace is Some
            && client.workspace->0.did_change_configuration is Some
            && client.workspace->0.did_change_configuration->0.dynamic_registration == Some(true)),
{
}

/// The kill-switch holds through every step: a state built from disabled
/// options is never supported, hence never enabled.
pub proof fn law_disabled_never_enabled(state: &WorkspaceDiagnosticsState)
    requires
        state.wf(),
        state@.options is Disabled,
    ensures
        !state@.supported,
        !(state@.supported && state@.enabled),
{
}

/// A reply to a configuration request that a later request superseded is
/// dropped: once the generation has moved past the reply's tag, the reply
/// applies nothing, whatever it holds.
pub proof fn law_superseded_reply_dropped(
    state: WorkspaceDiagnosticsStateView,
    value: Option<SettingsValue>,
)
    ensures
        reply_applies(
            WorkspaceDiagnosticsStateView {
                generation: next_generation_of(state.generation),
                ..state
            },
            state.generation,
            value,
        ) is None,
{
}

} // verus!
