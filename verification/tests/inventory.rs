use async_language_server::server::capabilities::{
    BoolOrOptions, DiagnosticProvider, RenameProvider, ServerCapabilities, SimpleOrOptions,
};
use async_language_server::server::inventory::{
    advertised, advertised_continued, index_of, method_name_str, MethodInventory, METHOD_COUNT,
};

#[test]
fn method_names_match_the_dispatch_table_order() {
    assert_eq!(METHOD_COUNT, 42);
    assert_eq!(method_name_str(0), "hover");
    assert_eq!(method_name_str(METHOD_COUNT - 1), "signature_help");
    // The resolve family never warns and never appears.
    assert_eq!(index_of("completion_resolve"), None);
    // A default error for a method outside the table is a no-op.
    let mut inventory = MethodInventory::new();
    assert!(!inventory.warn_once_default("hover", true));
}

#[test]
fn unadvertised_methods_never_warn() {
    let mut inventory = MethodInventory::from_capabilities(&ServerCapabilities::default());
    assert!(!inventory.advertised("hover"));
    assert!(!inventory.warn_once_default("hover", true));
}

#[test]
fn advertised_defaults_warn_exactly_once() {
    let caps = ServerCapabilities {
        hover_provider: Some(SimpleOrOptions::Simple(true)),
        rename_provider: Some(RenameProvider::Right { prepare_provider: Some(true) }),
        diagnostic_provider: Some(DiagnosticProvider::Options { workspace_diagnostics: false }),
        ..ServerCapabilities::default()
    };
    let mut inventory = MethodInventory::from_capabilities(&caps);

    assert!(inventory.advertised("rename_prepare"));
    assert!(inventory.advertised("document_diagnostics"));

    assert!(inventory.warn_once_default("hover", true));
    assert!(!inventory.warn_once_default("hover", true));
    // A deliberate error from an overridden method is not a default hit and
    // draws no warning.
    assert!(!inventory.warn_once_default("rename", false));
    // The inventory keeps its warned state: no second warning.
    assert!(!inventory.warn_once_default("hover", true));
}

#[test]
fn explicit_bool_false_never_advertises() {
    let caps = ServerCapabilities {
        hover_provider: Some(SimpleOrOptions::Simple(false)),
        rename_provider: Some(RenameProvider::Left(false)),
        ..ServerCapabilities::default()
    };
    let mut inventory = MethodInventory::from_capabilities(&caps);

    assert!(!inventory.advertised("hover"));
    assert!(!inventory.advertised("rename"));
    assert!(!inventory.warn_once_default("hover", true));
}

#[test]
fn every_table_name_maps_back_to_its_index() {
    for index in 0..METHOD_COUNT {
        assert_eq!(index_of(method_name_str(index)), Some(index));
    }
    assert_eq!(index_of("hover "), None);
    assert_eq!(index_of(""), None);
}

#[test]
fn default_capabilities_advertise_no_method() {
    let caps = ServerCapabilities::default();
    for index in 0..METHOD_COUNT {
        assert!(!advertised(index, &caps), "{} must not be advertised", method_name_str(index));
    }
}

#[test]
fn rename_prepare_needs_the_prepare_provider_option() {
    let options_without_prepare = ServerCapabilities {
        rename_provider: Some(RenameProvider::Right { prepare_provider: None }),
        ..ServerCapabilities::default()
    };
    let inventory = MethodInventory::from_capabilities(&options_without_prepare);
    assert!(inventory.advertised("rename"));
    assert!(!inventory.advertised("rename_prepare"));

    let plain_true = ServerCapabilities {
        rename_provider: Some(RenameProvider::Left(true)),
        definition_provider: Some(BoolOrOptions::Right),
        ..ServerCapabilities::default()
    };
    let inventory = MethodInventory::from_capabilities(&plain_true);
    assert!(inventory.advertised("rename"));
    assert!(!inventory.advertised("rename_prepare"));
    assert!(inventory.advertised("definition"));
}

#[test]
fn type_hierarchy_methods_are_never_advertised() {
    let caps = ServerCapabilities {
        call_hierarchy_provider: Some(SimpleOrOptions::Simple(true)),
        ..ServerCapabilities::default()
    };
    let inventory = MethodInventory::from_capabilities(&caps);
    assert!(inventory.advertised("prepare_call_hierarchy"));
    assert!(inventory.advertised("incoming_calls"));
    assert!(!inventory.advertised("prepare_type_hierarchy"));
    assert!(!inventory.advertised("supertypes"));
    assert!(!inventory.advertised("subtypes"));
}

#[test]
fn both_table_spans_agree_past_the_first() {
    let caps = ServerCapabilities {
        completion_provider: true,
        signature_help_provider: true,
        ..ServerCapabilities::default()
    };
    for index in 19..METHOD_COUNT {
        assert_eq!(advertised(index, &caps), advertised_continued(index, &caps));
    }
    assert!(advertised(index_of("completion").unwrap(), &caps));
    assert!(advertised(index_of("signature_help").unwrap(), &caps));
}

#[test]
fn advertised_methods_warn_once_through_the_state() {
    // Before `initialize` records anything, a default error is silent.
    let mut inventory = MethodInventory::new();
    assert!(!inventory.warn_once_default("hover", true));

    let caps = ServerCapabilities {
        hover_provider: Some(SimpleOrOptions::Simple(true)),
        ..ServerCapabilities::default()
    };
    let mut inventory = MethodInventory::from_capabilities(&caps);
    assert!(inventory.warn_once_default("hover", true));
    // The second default hit stays silent.
    assert!(!inventory.warn_once_default("hover", true));
}
