use async_language_server::server::capabilities::{
    DiagnosticProvider, ServerCapabilities, WorkspaceCapabilities,
};
use async_language_server::server::options::{ConfigurationKey, WorkspaceDiagnostics};
use async_language_server::server::settings::SettingsValue;
use async_language_server::server::ServerOptions;
use async_language_server::workspace::diagnostics::{
    configure_capabilities, ClientCapabilities, ConfigurationStep,
    DiagnosticWorkspaceClientCapabilities, DidChangeConfigurationClientCapabilities,
    EnabledChange, WorkspaceClientCapabilities,
};
use async_language_server::workspace::WorkspaceDiagnosticsState;

fn configurable_state() -> WorkspaceDiagnosticsState {
    let options = ServerOptions::default().with_workspace_diagnostics(WorkspaceDiagnostics::from(
        WorkspaceDiagnostics::setting(ConfigurationKey::new("gated")),
    ));
    WorkspaceDiagnosticsState::new(&options)
}

fn client(configuration: bool, dynamic: bool, refresh: bool) -> ClientCapabilities {
    ClientCapabilities {
        workspace: Some(WorkspaceClientCapabilities {
            configuration: Some(configuration),
            did_change_configuration: Some(DidChangeConfigurationClientCapabilities {
                dynamic_registration: Some(dynamic),
            }),
            diagnostic: Some(DiagnosticWorkspaceClientCapabilities {
                refresh_support: Some(refresh),
            }),
        }),
    }
}

/// Stores the three client capability flags `configure` reads, the way an
/// initializing client advertises them.
fn configure_client_gates(
    state: &mut WorkspaceDiagnosticsState,
    configuration: bool,
    dynamic: bool,
    refresh: bool,
) {
    state.configure(&ServerCapabilities::default(), &client(configuration, dynamic, refresh));
}

fn provider_capabilities() -> ServerCapabilities {
    ServerCapabilities {
        diagnostic_provider: Some(DiagnosticProvider::Options { workspace_diagnostics: true }),
        ..ServerCapabilities::default()
    }
}

fn object(entries: Vec<(&str, SettingsValue)>) -> SettingsValue {
    SettingsValue::Object(entries.into_iter().map(|(k, v)| (k.to_string(), v)).collect())
}

#[test]
fn request_configuration_requires_client_capability_and_setting() {
    let mut state = configurable_state();

    configure_client_gates(&mut state, false, false, false);
    assert!(
        !state.can_request_configuration(),
        "no interrogation without the client's configuration support",
    );

    configure_client_gates(&mut state, true, false, false);
    assert!(
        state.can_request_configuration(),
        "the capability plus a Configurable setting enables the request",
    );
}

#[test]
fn register_configuration_requires_dynamic_registration_support() {
    let mut state = configurable_state();

    configure_client_gates(&mut state, false, true, false);
    assert!(
        state.can_register_configuration(),
        "dynamic registration plus a Configurable setting enables the registration",
    );
}

#[test]
fn refresh_gate_tracks_client_refresh_support() {
    let mut state = configurable_state();

    for (refresh_support, expected) in [(false, false), (true, true)] {
        configure_client_gates(&mut state, false, false, refresh_support);
        assert_eq!(
            state.can_refresh(),
            expected,
            "refresh_support = {refresh_support} must gate the refresh request",
        );
    }
}

#[test]
fn next_generation_is_monotonic() {
    let mut state = WorkspaceDiagnosticsState::new(&ServerOptions::default());

    assert_eq!(state.next_generation(), 1);
    assert_eq!(state.next_generation(), 2);
}

#[test]
fn stale_generation_drops_the_response() {
    let mut state = WorkspaceDiagnosticsState::new(&ServerOptions::default());

    let captured = state.next_generation();
    assert_eq!(
        state.current_generation(),
        captured,
        "a fresh reply's generation equals the current one",
    );

    let superseding = state.next_generation();
    assert_ne!(
        state.current_generation(),
        captured,
        "advancing the counter makes the captured generation stale",
    );
    assert_eq!(state.current_generation(), superseding);
}

#[test]
fn disabled_options_force_workspace_diagnostics_capability_off() {
    let mut state = WorkspaceDiagnosticsState::new(
        &ServerOptions::default().with_workspace_diagnostics(WorkspaceDiagnostics::disabled()),
    );
    let mut capabilities = provider_capabilities();

    configure_capabilities(&mut state, &mut capabilities, &ClientCapabilities { workspace: None });

    let Some(DiagnosticProvider::Options { workspace_diagnostics }) =
        capabilities.diagnostic_provider
    else {
        panic!("expected diagnostic options");
    };
    assert!(
        !workspace_diagnostics,
        "Disabled options must clear the advertised workspace diagnostics flag",
    );
    assert!(!state.supported());
    assert!(!state.enabled());
    assert!(capabilities.workspace.is_none(), "the kill-switch tracks no folders");
}

#[test]
fn enabled_options_advertise_the_flag_and_track_folders() {
    let mut state = WorkspaceDiagnosticsState::new(&ServerOptions::default());
    let mut capabilities = ServerCapabilities {
        diagnostic_provider: Some(DiagnosticProvider::Options { workspace_diagnostics: false }),
        ..ServerCapabilities::default()
    };
    configure_capabilities(&mut state, &mut capabilities, &client(false, false, false));

    assert!(state.supported());
    assert!(state.enabled());
    assert_eq!(
        capabilities.diagnostic_provider,
        Some(DiagnosticProvider::Options { workspace_diagnostics: true }),
    );
    let workspace: WorkspaceCapabilities = capabilities.workspace.expect("workspace capabilities");
    let folders = workspace.workspace_folders.expect("workspace folder capability");
    assert_eq!(folders.supported, Some(true));
}

#[test]
fn no_diagnostic_provider_means_unsupported() {
    let mut state = WorkspaceDiagnosticsState::new(&ServerOptions::default());
    let mut capabilities = ServerCapabilities::default();
    configure_capabilities(&mut state, &mut capabilities, &client(true, true, true));
    assert!(!state.supported());
    assert!(!state.enabled());
    assert!(capabilities.diagnostic_provider.is_none());
    assert!(capabilities.workspace.is_none());
}

#[test]
fn configuration_reply_applies_only_if_generation_current() {
    let mut state = configurable_state();
    state.configure(&provider_capabilities(), &client(true, false, true));
    assert!(state.enabled(), "a configurable setting starts enabled");

    let stale = state.request_configuration().expect("the client can be asked");
    let current = state.request_configuration().expect("the client can be asked");
    assert_eq!(current, stale + 1);

    let off = SettingsValue::Bool(false);
    assert_eq!(state.configuration_response(stale, Some(&off)), None, "a stale reply is dropped");
    assert!(state.enabled());

    assert_eq!(
        state.configuration_response(current, Some(&off)),
        Some(EnabledChange { changed: true, refresh: true }),
    );
    assert!(!state.enabled());
    assert_eq!(
        state.configuration_response(current, Some(&off)),
        Some(EnabledChange { changed: false, refresh: false }),
        "an unchanged value asks for no refresh",
    );
    assert_eq!(state.configuration_response(current, None), None);
}

#[test]
fn did_change_configuration_applies_or_asks() {
    let mut state = configurable_state();
    state.configure(&provider_capabilities(), &client(true, false, false));
    let before = state.current_generation();

    let carried = object(vec![("gated", SettingsValue::Bool(false))]);
    assert_eq!(
        state.did_change_configuration(&carried),
        ConfigurationStep::Applied(EnabledChange { changed: true, refresh: false }),
    );
    assert!(!state.enabled());
    assert_ne!(state.current_generation(), before, "pending requests become stale");

    let missing = object(vec![("other", SettingsValue::Bool(true))]);
    let step = state.did_change_configuration(&missing);
    assert_eq!(step, ConfigurationStep::Request { generation: state.current_generation() });
    assert!(!state.enabled());
}

#[test]
fn did_change_configuration_without_a_setting_does_nothing() {
    let mut state = WorkspaceDiagnosticsState::new(&ServerOptions::default());
    state.configure(&provider_capabilities(), &client(true, true, true));
    let generation = state.current_generation();
    assert_eq!(
        state.did_change_configuration(&SettingsValue::Bool(false)),
        ConfigurationStep::Nothing,
    );
    assert!(state.enabled());
    assert_eq!(state.current_generation(), generation);
    assert_eq!(state.request_configuration(), None);
}

#[test]
fn initialization_options_seed_the_setting() {
    let mut state = configurable_state();
    let options = object(vec![("gated", SettingsValue::Bool(false))]);
    assert_eq!(state.apply_initialization_options(Some(&options)), Some(true));
    assert_eq!(state.apply_initialization_options(Some(&options)), Some(false));
    assert_eq!(state.apply_initialization_options(None), None);
    assert_eq!(
        state.apply_initialization_options(Some(&SettingsValue::Other)),
        None,
        "options without the setting leave the flag alone",
    );
}
