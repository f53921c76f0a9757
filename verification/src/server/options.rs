//! Options of the language server wrapper.

use vstd::prelude::*;

use super::settings::{
    SettingsValue, path_view, settings_as_bool, settings_as_bool_exec, settings_at,
    settings_at_dotted, settings_at_path, settings_get, settings_get_exec, split_on,
};

verus! {

/// Options for the language server wrapper.
#[derive(Debug)]
pub struct ServerOptions {
    /// How workspace diagnostics are exposed.
    pub workspace_diagnostics: WorkspaceDiagnostics,
    /// How many documents the batch diagnostics pipeline works on at once;
    /// `None` for the machine's CPU core count. Never zero.
    pub diagnostics_parallelism: Option<usize>,
    /// Names of ignore files honored during workspace walks.
    pub ignore_filenames: Vec<String>,
    /// A global ignore file applied to every workspace walk.
    pub global_ignore_file: Option<String>,
}

/// The views of a list of strings.
pub open spec fn strings_view(strings: Seq<String>) -> Seq<Seq<char>> {
    strings.map_values(|s: String| s@)
}

/// The views of a list of string slices.
pub open spec fn strs_view(strs: Seq<&str>) -> Seq<Seq<char>> {
    strs.map_values(|s: &str| s@)
}

pub fn to_strings(strs: &[&str]) -> (r: Vec<String>)
    ensures
        strings_view(r@) == strs_view(strs@),
{
    let mut r: Vec<String> = Vec::new();
    let mut i: usize = 0;
    while i < strs.len()
        invariant
            0 <= i <= strs@.len(),
            strings_view(r@) == strs_view(strs@.take(i as int)),
        decreases strs@.len() - i,
    {
        let s = strs[i].to_owned();
        r.push(s);
        i = i + 1;
        proof {
            assert(strs_view(strs@.take(i as int)) =~= strs_view(strs@.take(i - 1)).push(
                strs@[i - 1]@,
            ));
            assert(strings_view(r@) =~= strings_view(r@.drop_last()).push(s@));
        }
    }
    proof {
        assert(strs@.take(i as int) =~= strs@);
    }
    r
}

pub fn clone_strings(strings: &Vec<String>) -> (r: Vec<String>)
    ensures
        strings_view(r@) == strings_view(strings@),
{
    let mut r: Vec<String> = Vec::new();
    let mut i: usize = 0;
    while i < strings.len()
        invariant
            0 <= i <= strings@.len(),
            strings_view(r@) == strings_view(strings@.take(i as int)),
        decreases strings@.len() - i,
    {
        let s = strings[i].clone();
        r.push(s);
        i = i + 1;
        proof {
            assert(strings_view(strings@.take(i as int)) =~= strings_view(
                strings@.take(i - 1),
            ).push(strings@[i - 1]@));
            assert(strings_view(r@) =~= strings_view(r@.drop_last()).push(s@));
        }
    }
    proof {
        assert(strings@.take(i as int) =~= strings@);
    }
    r
}

impl Default for ServerOptions {
    fn default() -> (r: Self)
        ensures
            r.workspace_diagnostics is Enabled,
            r.diagnostics_parallelism is None,
            r.ignore_filenames@.len() == 0,
            r.global_ignore_file is None,
    {
        ServerOptions {
            workspace_diagnostics: WorkspaceDiagnostics::Enabled,
            diagnostics_parallelism: None,
            ignore_filenames: Vec::new(),
            global_ignore_file: None,
        }
    }
}

impl ServerOptions {
    /// Sets how workspace diagnostics should be exposed by the server.
    pub fn with_workspace_diagnostics(self, workspace_diagnostics: WorkspaceDiagnostics) -> (r: Self)
        ensures
            r.workspace_diagnostics == workspace_diagnostics,
            r.diagnostics_parallelism == self.diagnostics_parallelism,
            r.ignore_filenames == self.ignore_filenames,
            r.global_ignore_file == self.global_ignore_file,
    {
        ServerOptions { workspace_diagnostics, ..self }
    }

    /// Narrows how many documents the batch diagnostics pipeline works on
    /// at once.
    pub fn with_diagnostics_parallelism(self, width: usize) -> (r: Self)
        requires
            width > 0,
        ensures
            r.diagnostics_parallelism == Some(width),
            r.workspace_diagnostics == self.workspace_diagnostics,
            r.ignore_filenames == self.ignore_filenames,
            r.global_ignore_file == self.global_ignore_file,
    {
        ServerOptions { diagnostics_parallelism: Some(width), ..self }
    }

    /// The configured width, or `default_width` (the machine's CPU core
    /// count) when none was configured.
    pub fn diagnostics_parallelism(&self, default_width: usize) -> (r: usize)
        ensures
            r == match self.diagnostics_parallelism {
                Some(width) => width,
                None => default_width,
            },
    {
        match self.diagnostics_parallelism {
            Some(width) => width,
            None => default_width,
        }
    }

    /// Names of ignore files (gitignore syntax) honored during workspace
    /// walks, per directory and independent of git presence.
    pub fn with_ignore_filenames(self, names: &[&str]) -> (r: Self)
        ensures
            strings_view(r.ignore_filenames@) == strs_view(names@),
            r.workspace_diagnostics == self.workspace_diagnostics,
            r.diagnostics_parallelism == self.diagnostics_parallelism,
            r.global_ignore_file == self.global_ignore_file,
    {
        let ignore_filenames = to_strings(names);
        ServerOptions { ignore_filenames, ..self }
    }

    /// Sets one global ignore file (gitignore syntax) applied to every
    /// workspace walk across all roots.
    pub fn with_global_ignore_file(self, path: &str) -> (r: Self)
        ensures
            r.global_ignore_file matches Some(file) && file@ == path@,
            r.workspace_diagnostics == self.workspace_diagnostics,
            r.diagnostics_parallelism == self.diagnostics_parallelism,
            r.ignore_filenames == self.ignore_filenames,
    {
        ServerOptions { global_ignore_file: Some(path.to_owned()), ..self }
    }
}

/// Controls how workspace diagnostics are made available.
#[derive(Debug)]
pub enum WorkspaceDiagnostics {
    /// Do not handle workspace diagnostics: forces the advertised
    /// `workspace_diagnostics` capability off.
    Disabled,
    /// Handle workspace diagnostics; the advertised value is left verbatim.
    Enabled,
    /// Leave the advertised value untouched and toggle handling with a
    /// setting.
    Configurable(WorkspaceDiagnosticsSetting),
}

/// The model of [`WorkspaceDiagnostics`], with its key by view.
pub enum WorkspaceDiagnosticsView {
    Disabled,
    Enabled,
    Configurable { key: ConfigurationKeyView, default_enabled: bool },
}

impl View for WorkspaceDiagnostics {
    type V = WorkspaceDiagnosticsView;

    open spec fn view(&self) -> WorkspaceDiagnosticsView {
        match self {
            WorkspaceDiagnostics::Disabled => WorkspaceDiagnosticsView::Disabled,
            WorkspaceDiagnostics::Enabled => WorkspaceDiagnosticsView::Enabled,
            WorkspaceDiagnostics::Configurable(setting) => WorkspaceDiagnosticsView::Configurable {
                key: setting.key@,
                default_enabled: setting.default_enabled,
            },
        }
    }
}

impl Default for WorkspaceDiagnostics {
    fn default() -> (r: Self)
        ensures
            r is Enabled,
    {
        WorkspaceDiagnostics::Enabled
    }
}

impl Clone for WorkspaceDiagnostics {
    fn clone(&self) -> (r: Self)
        ensures
            r@ == self@,
    {
        match self {
            WorkspaceDiagnostics::Disabled => WorkspaceDiagnostics::Disabled,
            WorkspaceDiagnostics::Enabled => WorkspaceDiagnostics::Enabled,
            WorkspaceDiagnostics::Configurable(setting) => WorkspaceDiagnostics::Configurable(
                setting.clone(),
            ),
        }
    }
}

impl WorkspaceDiagnostics {
    /// The kill-switch: the advertised `workspace_diagnostics` capability is
    /// forced off regardless of the implementor's declaration.
    pub fn disabled() -> (r: Self)
        ensures
            r is Disabled,
    {
        WorkspaceDiagnostics::Disabled
    }

    /// Handle workspace diagnostics; the advertised value is left verbatim.
    pub fn enabled() -> (r: Self)
        ensures
            r is Enabled,
    {
        WorkspaceDiagnostics::Enabled
    }

    /// Toggles workspace diagnostics using the given workspace setting,
    /// enabled until the client says otherwise.
    pub fn setting(key: ConfigurationKey) -> (r: WorkspaceDiagnosticsSetting)
        ensures
            r.key == key,
            r.default_enabled,
    {
        WorkspaceDiagnosticsSetting { key, default_enabled: true }
    }
}

/// Runtime setting for workspace diagnostics.
#[derive(Debug)]
pub struct WorkspaceDiagnosticsSetting {
    /// The setting's key.
    pub key: ConfigurationKey,
    /// The value used before client configuration is available.
    pub default_enabled: bool,
}

impl Clone for WorkspaceDiagnosticsSetting {
    fn clone(&self) -> (r: Self)
        ensures
            r.key@ == self.key@,
            r.default_enabled == self.default_enabled,
    {
        WorkspaceDiagnosticsSetting { key: self.key.clone(), default_enabled: self.default_enabled }
    }
}

impl WorkspaceDiagnosticsSetting {
    /// Sets the initial value used before client configuration is available.
    pub fn with_default_enabled(self, yes: bool) -> (r: Self)
        ensures
            r.key == self.key,
            r.default_enabled == yes,
    {
        WorkspaceDiagnosticsSetting { default_enabled: yes, ..self }
    }
}

impl From<WorkspaceDiagnosticsSetting> for WorkspaceDiagnostics {
    fn from(setting: WorkspaceDiagnosticsSetting) -> (r: Self)
        ensures
            r == WorkspaceDiagnostics::Configurable(setting),
    {
        WorkspaceDiagnostics::Configurable(setting)
    }
}

impl vstd::std_specs::convert::FromSpecImpl<WorkspaceDiagnosticsSetting> for WorkspaceDiagnostics {
    open spec fn obeys_from_spec() -> bool {
        true
    }

    open spec fn from_spec(setting: WorkspaceDiagnosticsSetting) -> Self {
        WorkspaceDiagnostics::Configurable(setting)
    }
}

/// Key for a workspace configuration setting: a section, and optionally a
/// path of members inside it.
#[derive(Debug)]
pub struct ConfigurationKey {
    section: String,
    path: Vec<String>,
}

/// The model of a [`ConfigurationKey`].
pub struct ConfigurationKeyView {
    pub section: Seq<char>,
    pub path: Seq<Seq<char>>,
}

impl View for ConfigurationKey {
    type V = ConfigurationKeyView;

    closed spec fn view(&self) -> ConfigurationKeyView {
        ConfigurationKeyView { section: self.section@, path: strings_view(self.path@) }
    }
}

/// `a`, or `b` when `a` is `None`.
pub open spec fn or_else(a: Option<bool>, b: Option<bool>) -> Option<bool> {
    match a {
        Some(x) => Some(x),
        None => b,
    }
}

/// The boolean that the setting `key` has in `settings`, if any.
///
/// Without a path, the settings may be the boolean itself, hold it as a
/// member named by the whole section, or hold it under the section's
/// dot-separated segments. With a path, the path is followed from the
/// settings themselves, and failing that from their member named by the
/// section.
pub open spec fn configuration_value(key: ConfigurationKeyView, settings: SettingsValue) -> Option<
    bool,
> {
    if key.path.len() == 0 {
        or_else(
            settings_as_bool(settings),
            or_else(
                match settings_get(settings, key.section) {
                    Some(member) => settings_as_bool(member),
                    None => None,
                },
                settings_at(settings, split_on(key.section, '.')),
            ),
        )
    } else {
        or_else(
            settings_at(settings, key.path),
            match settings_get(settings, key.section) {
                Some(member) => settings_at(member, key.path),
                None => None,
            },
        )
    }
}

/// The protocol's `ConfigurationItem`: what a configuration request asks
/// the client for.
#[derive(Debug)]
pub struct ConfigurationItem {
    pub scope_uri: Option<String>,
    pub section: Option<String>,
}

impl Clone for ConfigurationKey {
    fn clone(&self) -> (r: Self)
        ensures
            r@ == self@,
    {
        ConfigurationKey { section: self.section.clone(), path: clone_strings(&self.path) }
    }
}

impl ConfigurationKey {
    /// Creates a configuration key from an LSP configuration section.
    pub fn new(section: &str) -> (r: Self)
        ensures
            r@.section == section@,
            r@.path.len() == 0,
    {
        let r = ConfigurationKey { section: section.to_owned(), path: Vec::new() };
        proof {
            assert(strings_view(r.path@) =~= Seq::<Seq<char>>::empty());
        }
        r
    }

    /// Looks up a nested boolean value inside the configuration section.
    pub fn with_path(self, path: &[&str]) -> (r: Self)
        ensures
            r@.section == self@.section,
            r@.path == strs_view(path@),
    {
        ConfigurationKey { section: self.section, path: to_strings(path) }
    }

    /// The configuration request item for this key: the section, unscoped.
    pub fn item(&self) -> (r: ConfigurationItem)
        ensures
            r.scope_uri is None,
            r.section matches Some(section) && section@ == self@.section,
    {
        ConfigurationItem { scope_uri: None, section: Some(self.section.clone()) }
    }

    /// The value of this setting in `settings`, if it holds a boolean there.
    pub fn value(&self, settings: &SettingsValue) -> (r: Option<bool>)
        ensures
            r == configuration_value(self@, *settings),
    {
        if self.path.len() == 0 {
            match settings_as_bool_exec(settings) {
                Some(b) => return Some(b),
                None => {},
            }
            match settings_get_exec(settings, self.section.as_str()) {
                Some(member) => match settings_as_bool_exec(member) {
                    Some(b) => return Some(b),
                    None => {},
                },
                None => {},
            }
            return settings_at_dotted(settings, self.section.as_str());
        }
        match settings_at_path(settings, &self.path) {
            Some(b) => Some(b),
            None => match settings_get_exec(settings, self.section.as_str()) {
                Some(member) => settings_at_path(member, &self.path),
                None => None,
            },
        }
    }

    /// The section this key reads.
    pub fn section(&self) -> (r: &str)
        ensures
            r@ == self@.section,
    {
        self.section.as_str()
    }
}

} // verus!
