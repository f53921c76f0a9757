use async_language_server::server::options::{ConfigurationKey, WorkspaceDiagnostics};
use async_language_server::server::settings::{
    settings_as_bool_exec, settings_at_dotted, settings_at_path, settings_get_exec, SettingsValue,
};
use async_language_server::server::ServerOptions;

fn object(entries: Vec<(&str, SettingsValue)>) -> SettingsValue {
    SettingsValue::Object(entries.into_iter().map(|(k, v)| (k.to_string(), v)).collect())
}

#[test]
fn configuration_key_reads_dotted_settings() {
    let key = ConfigurationKey::new("test.workspaceDiagnostics.enabled");

    let nested = object(vec![(
        "test",
        object(vec![("workspaceDiagnostics", object(vec![("enabled", SettingsValue::Bool(true))]))]),
    )]);
    assert_eq!(key.value(&nested), Some(true));

    let flat = object(vec![("test.workspaceDiagnostics.enabled", SettingsValue::Bool(false))]);
    assert_eq!(key.value(&flat), Some(false));

    assert_eq!(key.value(&SettingsValue::Bool(true)), Some(true));
}

#[test]
fn configuration_key_reads_section_path_settings() {
    let key = ConfigurationKey::new("test").with_path(&["workspaceDiagnostics", "enabled"]);

    let at_root =
        object(vec![("workspaceDiagnostics", object(vec![("enabled", SettingsValue::Bool(true))]))]);
    assert_eq!(key.value(&at_root), Some(true));

    let under_section = object(vec![(
        "test",
        object(vec![("workspaceDiagnostics", object(vec![("enabled", SettingsValue::Bool(false))]))]),
    )]);
    assert_eq!(key.value(&under_section), Some(false));
}

#[test]
fn diagnostics_parallelism_defaults_to_cores_and_is_narrowable() {
    // The machine's core count is what the server hands in as the default.
    let cores: usize = 6;
    assert_eq!(ServerOptions::default().diagnostics_parallelism(cores), cores);

    let narrowed = ServerOptions::default().with_diagnostics_parallelism(2);
    assert_eq!(narrowed.diagnostics_parallelism(cores), 2);
    assert_eq!(narrowed.with_diagnostics_parallelism(1).diagnostics_parallelism(cores), 1);
}

#[test]
fn configuration_item_carries_the_section() {
    let key = ConfigurationKey::new("test");

    let item = key.item();
    assert_eq!(item.scope_uri, None);
    assert_eq!(item.section.as_deref(), Some("test"));
    assert_eq!(key.section(), "test");
}

#[test]
fn configuration_key_ignores_non_boolean_values() {
    let key = ConfigurationKey::new("test");
    assert_eq!(key.value(&SettingsValue::Other), None);
    assert_eq!(key.value(&object(vec![("test", SettingsValue::Other)])), None);
    assert_eq!(key.value(&object(vec![("other", SettingsValue::Bool(true))])), None);

    let with_path = ConfigurationKey::new("test").with_path(&["enabled"]);
    assert_eq!(with_path.value(&SettingsValue::Bool(true)), None, "a path needs members");
    assert_eq!(
        with_path.value(&object(vec![("enabled", SettingsValue::Other)])),
        None,
        "a non-boolean at the path falls back to the section, which is absent",
    );
}

#[test]
fn a_root_boolean_wins_over_members() {
    let key = ConfigurationKey::new("a.b");
    let value = object(vec![
        ("a.b", SettingsValue::Bool(false)),
        ("a", object(vec![("b", SettingsValue::Bool(true))])),
    ]);
    assert_eq!(key.value(&value), Some(false), "the whole-section member comes first");
    let dotted_only = object(vec![("a", object(vec![("b", SettingsValue::Bool(true))]))]);
    assert_eq!(key.value(&dotted_only), Some(true));
}

#[test]
fn settings_helpers_follow_members() {
    let value = object(vec![
        ("x", SettingsValue::Bool(true)),
        ("y", object(vec![("z", SettingsValue::Bool(false))])),
    ]);
    assert_eq!(settings_get_exec(&value, "x"), Some(&SettingsValue::Bool(true)));
    assert_eq!(settings_get_exec(&value, "missing"), None);
    assert_eq!(settings_get_exec(&SettingsValue::Bool(true), "x"), None);
    assert_eq!(settings_as_bool_exec(&SettingsValue::Bool(false)), Some(false));
    assert_eq!(settings_as_bool_exec(&value), None);
    assert_eq!(settings_at_path(&value, &vec!["y".to_string(), "z".to_string()]), Some(false));
    assert_eq!(settings_at_path(&value, &vec!["y".to_string()]), None);
    assert_eq!(settings_at_path(&SettingsValue::Bool(true), &Vec::new()), Some(true));
    assert_eq!(settings_at_dotted(&value, "y.z"), Some(false));
    assert_eq!(settings_at_dotted(&value, "x"), Some(true));
    assert_eq!(settings_at_dotted(&value, "y.q"), None);
}

#[test]
fn workspace_diagnostics_exposures_build_as_named() {
    assert!(matches!(WorkspaceDiagnostics::disabled(), WorkspaceDiagnostics::Disabled));
    assert!(matches!(WorkspaceDiagnostics::enabled(), WorkspaceDiagnostics::Enabled));
    assert!(matches!(WorkspaceDiagnostics::default(), WorkspaceDiagnostics::Enabled));
    let setting = WorkspaceDiagnostics::setting(ConfigurationKey::new("k"));
    assert!(setting.default_enabled);
    assert_eq!(setting.key.section(), "k");
    let off = setting.with_default_enabled(false);
    assert!(!off.default_enabled);
    match WorkspaceDiagnostics::from(off) {
        WorkspaceDiagnostics::Configurable(s) => assert!(!s.default_enabled),
        _ => panic!("a setting converts into the configurable exposure"),
    }
}

#[test]
fn ignore_options_are_recorded_verbatim() {
    let options = ServerOptions::default()
        .with_ignore_filenames(&[".lsignore", ".myignore"])
        .with_global_ignore_file("/etc/global-ignore");
    assert_eq!(options.ignore_filenames, vec![".lsignore".to_string(), ".myignore".to_string()]);
    assert_eq!(options.global_ignore_file.as_deref(), Some("/etc/global-ignore"));
    assert!(matches!(options.workspace_diagnostics, WorkspaceDiagnostics::Enabled));
}
