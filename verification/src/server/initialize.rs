//! The decisions of the `initialize` exchange: the negotiated position
//! encoding and the capabilities sent back to the client.

use vstd::prelude::*;

use super::capabilities::{ServerCapabilities, TextDocumentSync};
use super::inventory::{METHOD_COUNT, MethodInventory, method_advertised};
use super::options::strings_view;
use super::settings::SettingsValue;
use super::store::DocumentStore;
use crate::text_utils::encoding::{Encoding, encoding_named};
use crate::workspace::handlers::{apply_initialization_options, store_follows};
use crate::workspace::diagnostics::{
    ClientCapabilities, WorkspaceDiagnosticsState, client_supports_configuration,
    client_supports_dynamic_configuration, client_supports_refresh, configure_capabilities,
    configured_capabilities, enabled_after_options,
};

verus! {

/// Whether the client offered the position encoding `encoding` among the
/// kinds it named (kinds this crate does not know are ignored).
pub open spec fn offers(client: Seq<Seq<char>>, encoding: Encoding) -> bool {
    exists|i: int| 0 <= i < client.len() && encoding_named(#[trigger] client[i]) == Some(encoding)
}

/// The encoding both sides settle on: the server prefers UTF-8 (free for
/// handlers), then UTF-32 (free for character-indexed text), and falls back
/// to the protocol's UTF-16, which every client supports.
pub open spec fn negotiated_encoding(client: Seq<Seq<char>>) -> Encoding {
    if offers(client, Encoding::UTF8) {
        Encoding::UTF8
    } else if offers(client, Encoding::UTF32) {
        Encoding::UTF32
    } else {
        Encoding::UTF16
    }
}

/// Picks the position encoding for a client that named the kinds in
/// `client_encodings` (none named: the protocol default).
pub fn negotiate_position_encoding(client_encodings: &[String]) -> (r: Encoding)
    ensures
        r == negotiated_encoding(strings_view(client_encodings@)),
{
    let ghost names = strings_view(client_encodings@);
    let mut utf8 = false;
    let mut utf32 = false;
    let mut i: usize = 0;
    while i < client_encodings.len()
        invariant
            0 <= i <= client_encodings@.len(),
            names == strings_view(client_encodings@),
            utf8 == exists|j: int| 0 <= j < i && encoding_named(#[trigger] names[j]) == Some(Encoding::UTF8),
            utf32 == exists|j: int|
                0 <= j < i && encoding_named(#[trigger] names[j]) == Some(Encoding::UTF32),
        decreases client_encodings@.len() - i,
    {
        let kind = Encoding::try_from_name(client_encodings[i].as_str());
        proof {
            assert(names[i as int] == client_encodings@[i as int]@);
        }
        match kind {
            Some(Encoding::UTF8) => {
                utf8 = true;
            },
            Some(Encoding::UTF32) => {
                utf32 = true;
            },
            _ => {},
        }
        i = i + 1;
    }
    if utf8 {
        Encoding::UTF8
    } else if utf32 {
        Encoding::UTF32
    } else {
        Encoding::UTF16
    }
}

/// The capabilities sent back on `initialize`, with the negotiated encoding
/// and the inventory of advertised methods derived from them.
pub struct Initialized {
    pub capabilities: ServerCapabilities,
    pub position_encoding: Encoding,
    pub inventory: MethodInventory,
}

/// Settles the `initialize` exchange: the workspace diagnostics state and
/// the implementor's capabilities are configured for the client, the
/// client's initialization options are applied, the position encoding is
/// negotiated, and the framework installs its own encoding and document
/// sync options.
pub fn initialize<D, T>(
    state: &mut WorkspaceDiagnosticsState,
    store: &mut DocumentStore<D, T>,
    capabilities: ServerCapabilities,
    client: &ClientCapabilities,
    initialization_options: Option<&SettingsValue>,
    client_encodings: &[String],
) -> (r: Initialized)
    requires
        old(state).wf(),
        old(store).wf(),
    ensures
        final(state).wf(),
        final(store).wf(),
        store_follows(old(state)@.enabled, final(state)@.enabled, old(store), final(store)),
        final(state)@.options == old(state)@.options,
        final(state)@.supported == (!(old(state)@.options is Disabled)
            && capabilities.diagnostic_provider is Some),
        final(state)@.enabled == enabled_after_options(
            old(state)@.enabled,
            old(state)@.options,
            match initialization_options {
                Some(value) => Some(*value),
                None => None,
            },
        ),
        final(state)@.generation == old(state)@.generation,
        final(state)@.client_configuration == client_supports_configuration(*client),
        final(state)@.client_dynamic_configuration == client_supports_dynamic_configuration(*client),
        final(state)@.client_refresh == client_supports_refresh(*client),
        r.position_encoding == negotiated_encoding(strings_view(client_encodings@)),
        r.capabilities == (ServerCapabilities {
            position_encoding: Some(r.position_encoding),
            text_document_sync: Some(TextDocumentSync::Framework),
            ..configured_capabilities(old(state)@.options is Disabled, capabilities)
        }),
        r.inventory.wf(),
        r.inventory@.advertised == Seq::new(
            METHOD_COUNT as nat,
            |i: int| method_advertised(i as usize, r.capabilities),
        ),
        r.inventory@.warned == Seq::new(METHOD_COUNT as nat, |i: int| false),
{
    let mut capabilities = capabilities;
    configure_capabilities(state, &mut capabilities, client);
    apply_initialization_options(state, store, initialization_options);
    let position_encoding = negotiate_position_encoding(client_encodings);
    capabilities.position_encoding = Some(position_encoding);
    capabilities.text_document_sync = Some(TextDocumentSync::Framework);
    let inventory = MethodInventory::from_capabilities(&capabilities);
    Initialized { capabilities, position_encoding, inventory }
}

} // verus!
