//! What the workspace diagnostics handlers decide: applying the setting to
//! the state and the tracked documents, and how a workspace diagnostics
//! request is answered.

use vstd::prelude::*;

use super::diagnostics::{
    ConfigurationStep, EnabledChange, WorkspaceDiagnosticsState, enabled_after_options,
    reply_applies, setting_key,
};
use crate::server::options::configuration_value;
use crate::server::settings::SettingsValue;
use crate::server::store::{
    DocumentOrigin, DocumentStore, set_workspace_diagnostics_enabled, workspace_dropped,
};

verus! {

/// The store after the enabled flag went from `was` to `now`: turning
/// workspace diagnostics off drops the workspace documents; anything else
/// leaves the store as it was.
pub open spec fn store_follows<D, T>(
    was: bool,
    now: bool,
    before: &DocumentStore<D, T>,
    after: &DocumentStore<D, T>,
) -> bool {
    if was && !now {
        workspace_dropped(before.documents(), before.tokens(), after.documents(), after.tokens())
    } else {
        after.documents() == before.documents() && after.tokens() == before.tokens()
    }
}

/// Applies an enabled value from the client: a change asks the client to
/// refresh its diagnostics when they are supported and the client can
/// refresh; turning them off drops the workspace documents.
pub fn apply_enabled<D, T>(
    state: &mut WorkspaceDiagnosticsState,
    store: &mut DocumentStore<D, T>,
    enabled: bool,
) -> (r: EnabledChange)
    requires
        old(state).wf(),
        old(store).wf(),
    ensures
        final(state).wf(),
        final(store).wf(),
        r.changed == (old(state)@.enabled != enabled),
        r.refresh == (r.changed && old(state)@.supported && old(state)@.client_refresh),
        final(state)@ == (super::diagnostics::WorkspaceDiagnosticsStateView {
            enabled,
            ..old(state)@
        }),
        store_follows(old(state)@.enabled, enabled, old(store), final(store)),
{
    let changed = set_workspace_diagnostics_enabled(state, store, enabled);
    let refresh = changed && state.supported() && state.can_refresh();
    EnabledChange { changed, refresh }
}

/// Applies the setting found in the client's initialization options, if
/// the exposure is configurable and the options hold it.
pub fn apply_initialization_options<D, T>(
    state: &mut WorkspaceDiagnosticsState,
    store: &mut DocumentStore<D, T>,
    options: Option<&SettingsValue>,
)
    requires
        old(state).wf(),
        old(store).wf(),
    ensures
        final(state).wf(),
        final(store).wf(),
        final(state)@ == (super::diagnostics::WorkspaceDiagnosticsStateView {
            enabled: enabled_after_options(
                old(state)@.enabled,
                old(state)@.options,
                match options {
                    Some(value) => Some(*value),
                    None => None,
                },
            ),
            ..old(state)@
        }),
        store_follows(old(state)@.enabled, final(state)@.enabled, old(store), final(store)),
{
    let options = match options {
        Some(options) => options,
        None => return,
    };
    let enabled = match state.setting() {
        Some(setting) => setting.key.value(options),
        None => return,
    };
    match enabled {
        Some(enabled) => {
            set_workspace_diagnostics_enabled(state, store, enabled);
        },
        None => {},
    }
}

/// Handles a configuration change notification: a carried setting is
/// applied under a new generation (pending requests become stale);
/// without it, the client is asked for the value.
pub fn did_change_configuration<D, T>(
    state: &mut WorkspaceDiagnosticsState,
    store: &mut DocumentStore<D, T>,
    settings: &SettingsValue,
) -> (r: ConfigurationStep)
    requires
        old(state).wf(),
        old(store).wf(),
    ensures
        final(state).wf(),
        final(store).wf(),
        final(state)@.options == old(state)@.options,
        final(state)@.supported == old(state)@.supported,
        final(state)@.client_configuration == old(state)@.client_configuration,
        final(state)@.client_refresh == old(state)@.client_refresh,
        store_follows(old(state)@.enabled, final(state)@.enabled, old(store), final(store)),
        match setting_key(old(state)@.options) {
            None => r == ConfigurationStep::Nothing && final(state)@ == old(state)@,
            Some(key) => match configuration_value(key, *settings) {
                Some(enabled) => {
                    &&& r == ConfigurationStep::Applied(
                        EnabledChange {
                            changed: old(state)@.enabled != enabled,
                            refresh: old(state)@.enabled != enabled && old(state)@.supported
                                && old(state)@.client_refresh,
                        },
                    )
                    &&& final(state)@.enabled == enabled
                    &&& final(state)@.generation != old(state)@.generation
                },
                None => {
                    &&& final(state)@.enabled == old(state)@.enabled
                    &&& if old(state)@.client_configuration {
                        &&& r == ConfigurationStep::Request { generation: final(state)@.generation }
                        &&& final(state)@.generation != old(state)@.generation
                    } else {
                        r == ConfigurationStep::Nothing && final(state)@.generation == old(
                            state,
                        )@.generation
                    }
                },
            },
        },
{
    let was = state.switched_on();
    let step = state.did_change_configuration(settings);
    if was && !state.switched_on() {
        store.remove_workspace_documents();
    }
    step
}

/// Handles the client's reply to the configuration request tagged with
/// `generation`: a reply to a superseded request is dropped, as is one
/// that does not hold the setting; otherwise the value is applied.
pub fn configuration_response<D, T>(
    state: &mut WorkspaceDiagnosticsState,
    store: &mut DocumentStore<D, T>,
    generation: u64,
    value: Option<&SettingsValue>,
) -> (r: Option<EnabledChange>)
    requires
        old(state).wf(),
        old(store).wf(),
    ensures
        final(state).wf(),
        final(store).wf(),
        final(state)@.options == old(state)@.options,
        final(state)@.supported == old(state)@.supported,
        final(state)@.generation == old(state)@.generation,
        store_follows(old(state)@.enabled, final(state)@.enabled, old(store), final(store)),
        match reply_applies(
            old(state)@,
            generation,
            match value {
                Some(v) => Some(*v),
                None => None,
            },
        ) {
            Some(enabled) => r == Some(
                EnabledChange {
                    changed: old(state)@.enabled != enabled,
                    refresh: old(state)@.enabled != enabled && old(state)@.supported
                        && old(state)@.client_refresh,
                },
            ) && final(state)@.enabled == enabled,
            None => r is None && final(state)@.enabled == old(state)@.enabled,
        },
{
    let was = state.switched_on();
    let change = state.configuration_response(generation, value);
    if was && !state.switched_on() {
        store.remove_workspace_documents();
    }
    change
}

/// How a workspace diagnostics request is answered.
#[derive(Debug, Clone, Copy, PartialEq, Eq, Structural)]
pub enum WorkspaceDiagnosticsAnswer {
    /// The server does not support them: the method is not found.
    Unsupported,
    /// They are supported but turned off: every previously reported
    /// document gets an empty report.
    Disabled,
    /// Run the document diagnostics over the workspace.
    Run,
}

/// How to answer a workspace diagnostics request in the current state.
pub fn workspace_diagnostics_answer(state: &WorkspaceDiagnosticsState) -> (r:
    WorkspaceDiagnosticsAnswer)
    ensures
        r == (if !state@.supported {
            WorkspaceDiagnosticsAnswer::Unsupported
        } else if !state@.enabled {
            WorkspaceDiagnosticsAnswer::Disabled
        } else {
            WorkspaceDiagnosticsAnswer::Run
        }),
{
    if !state.supported() {
        WorkspaceDiagnosticsAnswer::Unsupported
    } else if !state.enabled() {
        WorkspaceDiagnosticsAnswer::Disabled
    } else {
        WorkspaceDiagnosticsAnswer::Run
    }
}

/// The version reported for `url` in workspace diagnostics: an open
/// document's version; none for a document loaded from disk or untracked.
pub open spec fn reported_version<D, T>(store: &DocumentStore<D, T>, url: Seq<char>) -> Option<i64> {
    if store.documents().contains_key(url) && store.documents()[url].origin == DocumentOrigin::Open {
        Some(store.documents()[url].version as i64)
    } else {
        None
    }
}

/// The answer while workspace diagnostics are off: for each document the
/// client reported on before, an empty report, with the document's version
/// when the editor has it open.
pub fn disabled_reports<D, T>(store: &DocumentStore<D, T>, previous: Vec<String>) -> (r: Vec<
    (String, Option<i64>),
>)
    requires
        store.wf(),
    ensures
        r@.len() == previous@.len(),
        forall|i: int|
            #![trigger r@[i]]
            0 <= i < r@.len() ==> r@[i].0@ == previous@[i]@ && r@[i].1 == reported_version(
                store,
                previous@[i]@,
            ),
{
    let mut r: Vec<(String, Option<i64>)> = Vec::new();
    let mut i: usize = 0;
    while i < previous.len()
        invariant
            0 <= i <= previous@.len(),
            store.wf(),
            r@.len() == i,
            forall|j: int|
                #![trigger r@[j]]
                0 <= j < i ==> r@[j].0@ == previous@[j]@ && r@[j].1 == reported_version(
                    store,
                    previous@[j]@,
                ),
        decreases previous@.len() - i,
    {
        let key: &str = previous[i].as_str();
        let version = store.document_workspace_version(key);
        proof {
            assert(key@ == previous@[i as int]@);
        }
        let url = previous[i].clone();
        let ghost before = r@;
        r.push((url, version));
        proof {
            assert forall|j: int| #![trigger r@[j]] 0 <= j < i + 1 implies r@[j].0@ == previous@[j]@
                && r@[j].1 == reported_version(store, previous@[j]@) by {
                if j < i {
                    assert(r@[j] == before[j]);
                }
            }
        }
        i = i + 1;
    }
    r
}

/// The section to register configuration change notifications for, when
/// the client supports dynamic registration and the exposure is
/// configurable.
pub fn configuration_registration(state: &WorkspaceDiagnosticsState) -> (r: Option<String>)
    ensures
        match r {
            Some(section) => state@.client_dynamic_configuration && (setting_key(state@.options)
                matches Some(key) && section@ == key.section),
            None => !(state@.client_dynamic_configuration && setting_key(state@.options) is Some),
        },
{
    if !state.can_register_configuration() {
        return None;
    }
    match state.setting() {
        Some(setting) => Some(setting.key.section().to_owned()),
        None => None,
    }
}

} // verus!
