//! Which server methods the capabilities sent to the client advertise, and
//! which of them have already drawn their single default warning.

use vstd::prelude::*;

use super::capabilities::{
    BoolOrOptions, ColorProvider, RenameProvider, SemanticTokensFull, SemanticTokensOptions,
    ServerCapabilities, SimpleOrOptions, TextDocumentSync, WorkspaceCapabilities,
};
use crate::text_utils::strings::str_equal;

verus! {

/// Number of entries of the dispatch table of non-resolve server methods.
pub const METHOD_COUNT: usize = 42;

/// The dispatch table's non-resolve server methods, in table order.
///
/// The resolve family is absent: its defaults resolve the item unchanged
/// and never report a missing implementation.
pub open spec fn method_name(index: usize) -> Seq<char> {
    match index {
        0 => "hover"@,
        1 => "declaration"@,
        2 => "definition"@,
        3 => "references"@,
        4 => "link"@,
        5 => "rename"@,
        6 => "rename_prepare"@,
        7 => "document_format"@,
        8 => "document_range_format"@,
        9 => "implementation"@,
        10 => "type_definition"@,
        11 => "document_highlight"@,
        12 => "on_type_formatting"@,
        13 => "folding_range"@,
        14 => "linked_editing_range"@,
        15 => "code_lens"@,
        16 => "will_save_wait_until"@,
        17 => "document_color"@,
        18 => "color_presentation"@,
        19 => "prepare_call_hierarchy"@,
        20 => "prepare_type_hierarchy"@,
        21 => "moniker"@,
        22 => "will_create_files"@,
        23 => "will_rename_files"@,
        24 => "will_delete_files"@,
        25 => "inlay_hint"@,
        26 => "document_symbol"@,
        27 => "execute_command"@,
        28 => "semantic_tokens_full"@,
        29 => "semantic_tokens_range"@,
        30 => "semantic_tokens_full_delta"@,
        31 => "completion"@,
        32 => "code_action"@,
        33 => "document_diagnostics"@,
        34 => "selection_range"@,
        35 => "inline_value"@,
        36 => "incoming_calls"@,
        37 => "outgoing_calls"@,
        38 => "supertypes"@,
        39 => "subtypes"@,
        40 => "symbol"@,
        41 => "signature_help"@,
        _ => Seq::empty(),
    }
}

/// The name of the method at `index` of the dispatch table.
pub fn method_name_str(index: usize) -> (r: &'static str)
    requires
        index < METHOD_COUNT,
    ensures
        r@ == method_name(index),
{
    match index {
        0 => "hover",
        1 => "declaration",
        2 => "definition",
        3 => "references",
        4 => "link",
        5 => "rename",
        6 => "rename_prepare",
        7 => "document_format",
        8 => "document_range_format",
        9 => "implementation",
        10 => "type_definition",
        11 => "document_highlight",
        12 => "on_type_formatting",
        13 => "folding_range",
        14 => "linked_editing_range",
        15 => "code_lens",
        16 => "will_save_wait_until",
        17 => "document_color",
        18 => "color_presentation",
        19 => "prepare_call_hierarchy",
        20 => "prepare_type_hierarchy",
        21 => "moniker",
        22 => "will_create_files",
        23 => "will_rename_files",
        24 => "will_delete_files",
        25 => "inlay_hint",
        26 => "document_symbol",
        27 => "execute_command",
        28 => "semantic_tokens_full",
        29 => "semantic_tokens_range",
        30 => "semantic_tokens_full_delta",
        31 => "completion",
        32 => "code_action",
        33 => "document_diagnostics",
        34 => "selection_range",
        35 => "inline_value",
        36 => "incoming_calls",
        37 => "outgoing_calls",
        38 => "supertypes",
        39 => "subtypes",
        40 => "symbol",
        41 => "signature_help",
        _ => "",
    }
}

/// Position in the table, at or after `from`, of the first method named
/// `name`.
pub open spec fn method_index_from(name: Seq<char>, from: int) -> Option<nat>
    decreases METHOD_COUNT - from,
{
    if from < 0 || from >= METHOD_COUNT {
        None
    } else if method_name(from as usize) == name {
        Some(from as nat)
    } else {
        method_index_from(name, from + 1)
    }
}

/// Position in the table of the method named `name`.
pub open spec fn method_index(name: Seq<char>) -> Option<nat> {
    method_index_from(name, 0)
}

/// Position in the table of the method named `method`.
pub fn index_of(method: &str) -> (r: Option<usize>)
    ensures
        match method_index(method@) {
            Some(i) => r == Some(i as usize) && i < METHOD_COUNT,
            None => r is None,
        },
{
    let mut i: usize = 0;
    while i < METHOD_COUNT
        invariant
            0 <= i <= METHOD_COUNT,
            method_index(method@) == method_index_from(method@, i as int),
        decreases METHOD_COUNT - i,
    {
        if str_equal(method_name_str(i), method) {
            return Some(i);
        }
        i = i + 1;
    }
    None
}

/// A boolean-or-options capability advertises unless it is `false`.
pub open spec fn simple_advertised(provider: Option<SimpleOrOptions>) -> bool {
    provider is Some && provider != Some(SimpleOrOptions::Simple(false))
}

/// `Option<OneOf<bool, Options>>`: `Left(false)` is an explicit no,
/// everything else present advertises.
pub open spec fn bool_advertised(provider: Option<BoolOrOptions>) -> bool {
    provider == Some(BoolOrOptions::Left(true)) || provider == Some(BoolOrOptions::Right)
}

pub open spec fn rename_advertised(provider: Option<RenameProvider>) -> bool {
    provider == Some(RenameProvider::Left(true)) || provider matches Some(RenameProvider::Right { .. })
}

/// Prepare-rename is advertised by rename options announcing it.
pub open spec fn rename_prepare_advertised(provider: Option<RenameProvider>) -> bool {
    provider == Some(RenameProvider::Right { prepare_provider: Some(true) })
}

pub open spec fn will_save_wait_until_advertised(sync: Option<TextDocumentSync>) -> bool {
    sync == Some(TextDocumentSync::Options { will_save_wait_until: Some(true) })
}

/// The color provider advertises both the colors and their presentations.
pub open spec fn color_advertised(provider: Option<ColorProvider>) -> bool {
    provider is Some && provider != Some(ColorProvider::Simple(false))
}

/// A workspace file operation.
#[derive(Debug, Clone, Copy, PartialEq, Eq, Structural)]
pub enum FileOperation {
    Create,
    Rename,
    Delete,
}

/// The file operations share one presence chain: the workspace block, then
/// its optional file-operations section.
pub open spec fn file_operation_advertised(
    workspace: Option<WorkspaceCapabilities>,
    operation: FileOperation,
) -> bool {
    match workspace {
        Some(workspace) => match workspace.file_operations {
            Some(operations) => match operation {
                FileOperation::Create => operations.will_create,
                FileOperation::Rename => operations.will_rename,
                FileOperation::Delete => operations.will_delete,
            },
            None => false,
        },
        None => false,
    }
}

pub open spec fn semantic_tokens_full_advertised(provider: Option<SemanticTokensOptions>) -> bool {
    match provider {
        Some(options) => options.full == Some(SemanticTokensFull::Bool(true))
            || options.full matches Some(SemanticTokensFull::Delta { .. }),
        None => false,
    }
}

pub open spec fn semantic_tokens_range_advertised(provider: Option<SemanticTokensOptions>) -> bool {
    match provider {
        Some(options) => options.range == Some(true),
        None => false,
    }
}

pub open spec fn semantic_tokens_delta_advertised(provider: Option<SemanticTokensOptions>) -> bool {
    match provider {
        Some(options) => options.full == Some(SemanticTokensFull::Delta { delta: Some(true) }),
        None => false,
    }
}

/// Whether the capabilities advertise the method at `index` of the table.
///
/// The type hierarchy calls can never be advertised: the protocol types
/// carry no type-hierarchy capability field.
pub open spec fn method_advertised(index: usize, caps: ServerCapabilities) -> bool {
    match index {
        0 => simple_advertised(caps.hover_provider),
        1 => simple_advertised(caps.declaration_provider),
        2 => bool_advertised(caps.definition_provider),
        3 => bool_advertised(caps.references_provider),
        4 => caps.document_link_provider,
        5 => rename_advertised(caps.rename_provider),
        6 => rename_prepare_advertised(caps.rename_provider),
        7 => bool_advertised(caps.document_formatting_provider),
        8 => bool_advertised(caps.document_range_formatting_provider),
        9 => simple_advertised(caps.implementation_provider),
        10 => simple_advertised(caps.type_definition_provider),
        11 => bool_advertised(caps.document_highlight_provider),
        12 => caps.document_on_type_formatting_provider,
        13 => simple_advertised(caps.folding_range_provider),
        14 => simple_advertised(caps.linked_editing_range_provider),
        15 => caps.code_lens_provider,
        16 => will_save_wait_until_advertised(caps.text_document_sync),
        17 => color_advertised(caps.color_provider),
        18 => color_advertised(caps.color_provider),
        19 => simple_advertised(caps.call_hierarchy_provider),
        20 => false,
        21 => bool_advertised(caps.moniker_provider),
        22 => file_operation_advertised(caps.workspace, FileOperation::Create),
        23 => file_operation_advertised(caps.workspace, FileOperation::Rename),
        24 => file_operation_advertised(caps.workspace, FileOperation::Delete),
        25 => bool_advertised(caps.inlay_hint_provider),
        26 => bool_advertised(caps.document_symbol_provider),
        27 => caps.execute_command_provider,
        28 => semantic_tokens_full_advertised(caps.semantic_tokens_provider),
        29 => semantic_tokens_range_advertised(caps.semantic_tokens_provider),
        30 => semantic_tokens_delta_advertised(caps.semantic_tokens_provider),
        31 => caps.completion_provider,
        32 => simple_advertised(caps.code_action_provider),
        33 => caps.diagnostic_provider is Some,
        34 => simple_advertised(caps.selection_range_provider),
        35 => bool_advertised(caps.inline_value_provider),
        36 => simple_advertised(caps.call_hierarchy_provider),
        37 => simple_advertised(caps.call_hierarchy_provider),
        38 => false,
        39 => false,
        40 => bool_advertised(caps.workspace_symbol_provider),
        41 => caps.signature_help_provider,
        _ => false,
    }
}

fn simple_advertised_exec(provider: Option<SimpleOrOptions>) -> (r: bool)
    ensures
        r == simple_advertised(provider),
{
    match provider {
        Some(SimpleOrOptions::Simple(false)) => false,
        Some(_) => true,
        None => false,
    }
}

fn bool_advertised_exec(provider: Option<BoolOrOptions>) -> (r: bool)
    ensures
        r == bool_advertised(provider),
{
    match provider {
        Some(BoolOrOptions::Left(true)) | Some(BoolOrOptions::Right) => true,
        _ => false,
    }
}

fn rename_advertised_exec(provider: Option<RenameProvider>) -> (r: bool)
    ensures
        r == rename_advertised(provider),
{
    match provider {
        Some(RenameProvider::Left(true)) | Some(RenameProvider::Right { .. }) => true,
        _ => false,
    }
}

fn rename_prepare_advertised_exec(provider: Option<RenameProvider>) -> (r: bool)
    ensures
        r == rename_prepare_advertised(provider),
{
    match provider {
        Some(RenameProvider::Right { prepare_provider: Some(true) }) => true,
        _ => false,
    }
}

fn will_save_wait_until_advertised_exec(sync: Option<TextDocumentSync>) -> (r: bool)
    ensures
        r == will_save_wait_until_advertised(sync),
{
    match sync {
        Some(TextDocumentSync::Options { will_save_wait_until: Some(true) }) => true,
        _ => false,
    }
}

fn color_advertised_exec(provider: Option<ColorProvider>) -> (r: bool)
    ensures
        r == color_advertised(provider),
{
    match provider {
        Some(ColorProvider::Simple(false)) => false,
        Some(_) => true,
        None => false,
    }
}

fn file_operation_advertised_exec(
    workspace: &Option<WorkspaceCapabilities>,
    operation: FileOperation,
) -> (r: bool)
    ensures
        r == file_operation_advertised(*workspace, operation),
{
    match workspace {
        Some(workspace) => match &workspace.file_operations {
            Some(operations) => match operation {
                FileOperation::Create => operations.will_create,
                FileOperation::Rename => operations.will_rename,
                FileOperation::Delete => operations.will_delete,
            },
            None => false,
        },
        None => false,
    }
}

fn semantic_tokens_full_advertised_exec(provider: Option<SemanticTokensOptions>) -> (r: bool)
    ensures
        r == semantic_tokens_full_advertised(provider),
{
    match provider {
        Some(options) => match options.full {
            Some(SemanticTokensFull::Bool(true)) | Some(SemanticTokensFull::Delta { .. }) => true,
            _ => false,
        },
        None => false,
    }
}

fn semantic_tokens_range_advertised_exec(provider: Option<SemanticTokensOptions>) -> (r: bool)
    ensures
        r == semantic_tokens_range_advertised(provider),
{
    match provider {
        Some(options) => options.range == Some(true),
        None => false,
    }
}

fn semantic_tokens_delta_advertised_exec(provider: Option<SemanticTokensOptions>) -> (r: bool)
    ensures
        r == semantic_tokens_delta_advertised(provider),
{
    match provider {
        Some(options) => match options.full {
            Some(SemanticTokensFull::Delta { delta: Some(true) }) => true,
            _ => false,
        },
        None => false,
    }
}

/// The advertised-method predicates for the first span of the table (the
/// text-document navigation, sync, formatting and color methods); later
/// entries continue in [`advertised_continued`].
pub fn advertised(index: usize, caps: &ServerCapabilities) -> (r: bool)
    requires
        index < METHOD_COUNT,
    ensures
        r == method_advertised(index, *caps),
{
    match index {
        0 => simple_advertised_exec(caps.hover_provider),
        1 => simple_advertised_exec(caps.declaration_provider),
        2 => bool_advertised_exec(caps.definition_provider),
        3 => bool_advertised_exec(caps.references_provider),
        4 => caps.document_link_provider,
        5 => rename_advertised_exec(caps.rename_provider),
        6 => rename_prepare_advertised_exec(caps.rename_provider),
        7 => bool_advertised_exec(caps.document_formatting_provider),
        8 => bool_advertised_exec(caps.document_range_formatting_provider),
        9 => simple_advertised_exec(caps.implementation_provider),
        10 => simple_advertised_exec(caps.type_definition_provider),
        11 => bool_advertised_exec(caps.document_highlight_provider),
        12 => caps.document_on_type_formatting_provider,
        13 => simple_advertised_exec(caps.folding_range_provider),
        14 => simple_advertised_exec(caps.linked_editing_range_provider),
        15 => caps.code_lens_provider,
        16 => will_save_wait_until_advertised_exec(caps.text_document_sync),
        17 => color_advertised_exec(caps.color_provider),
        18 => color_advertised_exec(caps.color_provider),
        _ => advertised_continued(index, caps),
    }
}

/// The advertised-method predicates for the remaining span of the table
/// (workspace operations, tokens and the hierarchy calls).
pub fn advertised_continued(index: usize, caps: &ServerCapabilities) -> (r: bool)
    requires
        19 <= index < METHOD_COUNT,
    ensures
        r == method_advertised(index, *caps),
{
    match index {
        19 => simple_advertised_exec(caps.call_hierarchy_provider),
        20 => false,
        21 => bool_advertised_exec(caps.moniker_provider),
        22 => file_operation_advertised_exec(&caps.workspace, FileOperation::Create),
        23 => file_operation_advertised_exec(&caps.workspace, FileOperation::Rename),
        24 => file_operation_advertised_exec(&caps.workspace, FileOperation::Delete),
        25 => bool_advertised_exec(caps.inlay_hint_provider),
        26 => bool_advertised_exec(caps.document_symbol_provider),
        27 => caps.execute_command_provider,
        28 => semantic_tokens_full_advertised_exec(caps.semantic_tokens_provider),
        29 => semantic_tokens_range_advertised_exec(caps.semantic_tokens_provider),
        30 => semantic_tokens_delta_advertised_exec(caps.semantic_tokens_provider),
        31 => caps.completion_provider,
        32 => simple_advertised_exec(caps.code_action_provider),
        33 => caps.diagnostic_provider.is_some(),
        34 => simple_advertised_exec(caps.selection_range_provider),
        35 => bool_advertised_exec(caps.inline_value_provider),
        36 => simple_advertised_exec(caps.call_hierarchy_provider),
        37 => simple_advertised_exec(caps.call_hierarchy_provider),
        38 => false,
        39 => false,
        40 => bool_advertised_exec(caps.workspace_symbol_provider),
        41 => caps.signature_help_provider,
        _ => false,
    }
}

/// Which methods the final initialize result advertised, and which of
/// them have already drawn their single default warning.
#[derive(Debug)]
pub struct MethodInventory {
    advertised: Vec<bool>,
    warned: Vec<bool>,
}

/// The model of a [`MethodInventory`]: per table entry, whether it is
/// advertised and whether it has warned.
pub struct MethodInventoryView {
    pub advertised: Seq<bool>,
    pub warned: Seq<bool>,
}

impl View for MethodInventory {
    type V = MethodInventoryView;

    closed spec fn view(&self) -> MethodInventoryView {
        MethodInventoryView { advertised: self.advertised@, warned: self.warned@ }
    }
}

/// What one `warn_once_default` call returns, and the warned flags after
/// it: a warning is due when a default ran for an advertised method that
/// has not warned yet.
pub open spec fn warn_once_step(
    inventory: MethodInventoryView,
    method: Seq<char>,
    default_ran: bool,
) -> (bool, Seq<bool>) {
    if !default_ran {
        (false, inventory.warned)
    } else {
        match method_index(method) {
            None => (false, inventory.warned),
            Some(i) => if !inventory.advertised[i as int] {
                (false, inventory.warned)
            } else {
                (!inventory.warned[i as int], inventory.warned.update(i as int, true))
            },
        }
    }
}

fn all_false(n: usize) -> (r: Vec<bool>)
    ensures
        r@ == Seq::new(n as nat, |i: int| false),
{
    let mut r: Vec<bool> = Vec::new();
    let mut i: usize = 0;
    while i < n
        invariant
            0 <= i <= n,
            r@ == Seq::new(i as nat, |j: int| false),
        decreases n - i,
    {
        r.push(false);
        i = i + 1;
        proof {
            assert(r@ =~= Seq::new(i as nat, |j: int| false));
        }
    }
    r
}

impl MethodInventory {
    /// The inventory's table sizes.
    pub closed spec fn wf(&self) -> bool {
        self.advertised@.len() == METHOD_COUNT && self.warned@.len() == METHOD_COUNT
    }

    /// An inventory advertising nothing: the state before `initialize`.
    pub fn new() -> (r: Self)
        ensures
            r.wf(),
            r@.advertised == Seq::new(METHOD_COUNT as nat, |i: int| false),
            r@.warned == Seq::new(METHOD_COUNT as nat, |i: int| false),
    {
        MethodInventory { advertised: all_false(METHOD_COUNT), warned: all_false(METHOD_COUNT) }
    }

    /// Derives the advertised set from the capabilities about to be sent:
    /// one predicate per method.
    pub fn from_capabilities(caps: &ServerCapabilities) -> (r: Self)
        ensures
            r.wf(),
            r@.advertised == Seq::new(METHOD_COUNT as nat, |i: int| method_advertised(i as usize, *caps)),
            r@.warned == Seq::new(METHOD_COUNT as nat, |i: int| false),
    {
        let mut flags: Vec<bool> = Vec::new();
        let mut i: usize = 0;
        while i < METHOD_COUNT
            invariant
                0 <= i <= METHOD_COUNT,
                flags@ == Seq::new(i as nat, |j: int| method_advertised(j as usize, *caps)),
            decreases METHOD_COUNT - i,
        {
            flags.push(advertised(i, caps));
            i = i + 1;
            proof {
                assert(flags@ =~= Seq::new(i as nat, |j: int| method_advertised(j as usize, *caps)));
            }
        }
        MethodInventory { advertised: flags, warned: all_false(METHOD_COUNT) }
    }

    /// Whether the method named `method` is advertised.
    pub fn advertised(&self, method: &str) -> (r: bool)
        requires
            self.wf(),
        ensures
            r == match method_index(method@) {
                Some(i) => self@.advertised[i as int],
                None => false,
            },
    {
        match index_of(method) {
            Some(index) => self.advertised[index],
            None => false,
        }
    }

    /// Records that a method's trait default ran (`default_ran`: the call
    /// failed because the method is not implemented). Returns whether this
    /// is the one warning due for that method: the method is advertised and
    /// has not warned before.
    pub fn warn_once_default(&mut self, method: &str, default_ran: bool) -> (r: bool)
        requires
            old(self).wf(),
        ensures
            final(self).wf(),
            final(self)@.advertised == old(self)@.advertised,
            (r, final(self)@.warned) == warn_once_step(old(self)@, method@, default_ran),
    {
        if !default_ran {
            return false;
        }
        if !self.advertised(method) {
            return false;
        }
        let index = match index_of(method) {
            Some(index) => index,
            None => return false,
        };
        let already_warned = self.warned[index];
        self.warned.set(index, true);
        !already_warned
    }
}

/// A default warns at most once per method: once a call has warned (or the
/// method was otherwise found advertised with a default hit), every later
/// call for the same method returns `false`.
pub proof fn law_warns_at_most_once(inventory: MethodInventoryView, method: Seq<char>)
    requires
        inventory.advertised.len() == METHOD_COUNT,
        inventory.warned.len() == METHOD_COUNT,
    ensures
        ({
            let (_, warned) = warn_once_step(inventory, method, true);
            let after = MethodInventoryView { advertised: inventory.advertised, warned };
            forall|default_ran: bool| !(#[trigger] warn_once_step(after, method, default_ran)).0
        }),
{
    lemma_method_index_bounded(method, 0);
}

/// The warned flags after a history of `warn_once_default` calls, each a
/// method name and whether its default ran, made in order on `inventory`.
pub open spec fn warned_after(inventory: MethodInventoryView, calls: Seq<(Seq<char>, bool)>) -> Seq<
    bool,
>
    decreases calls.len(),
{
    if calls.len() == 0 {
        inventory.warned
    } else {
        warn_once_step(
            MethodInventoryView {
                advertised: inventory.advertised,
                warned: warned_after(inventory, calls.drop_last()),
            },
            calls.last().0,
            calls.last().1,
        ).1
    }
}

/// What call `k` of a history of calls on `inventory` returns.
pub open spec fn warns_at(
    inventory: MethodInventoryView,
    calls: Seq<(Seq<char>, bool)>,
    k: int,
) -> bool {
    warn_once_step(
        MethodInventoryView {
            advertised: inventory.advertised,
            warned: warned_after(inventory, calls.take(k)),
        },
        calls[k].0,
        calls[k].1,
    ).0
}

/// Whether a call before `k` in the history warned for the method at `index`.
pub open spec fn warned_before(
    inventory: MethodInventoryView,
    calls: Seq<(Seq<char>, bool)>,
    k: int,
    index: nat,
) -> bool {
    exists|j: int|
        0 <= j < k && #[trigger] warns_at(inventory, calls, j) && method_index(calls[j].0) == Some(
            index,
        )
}

proof fn lemma_warned_after_prefix(
    inventory: MethodInventoryView,
    calls: Seq<(Seq<char>, bool)>,
    n: int,
)
    requires
        inventory.advertised.len() == METHOD_COUNT,
        inventory.warned == Seq::new(METHOD_COUNT as nat, |i: int| false),
        0 <= n <= calls.len(),
    ensures
        warned_after(inventory, calls.take(n)).len() == METHOD_COUNT,
        forall|i: int|
            0 <= i < METHOD_COUNT ==> (#[trigger] warned_after(inventory, calls.take(n))[i]
                <==> warned_before(inventory, calls, n, i as nat)),
    decreases n,
{
    if n == 0 {
        assert(calls.take(0) =~= Seq::<(Seq<char>, bool)>::empty());
    } else {
        lemma_warned_after_prefix(inventory, calls, n - 1);
        let prev = warned_after(inventory, calls.take(n - 1));
        assert(calls.take(n).drop_last() =~= calls.take(n - 1));
        assert(calls.take(n).last() == calls[n - 1]);
        let cur = warned_after(inventory, calls.take(n));
        lemma_method_index_bounded(calls[n - 1].0, 0);
        assert(warns_at(inventory, calls, n - 1) == warn_once_step(
            MethodInventoryView { advertised: inventory.advertised, warned: prev },
            calls[n - 1].0,
            calls[n - 1].1,
        ).0);
        assert forall|i: int| 0 <= i < METHOD_COUNT implies (#[trigger] cur[i] <==> warned_before(
            inventory,
            calls,
            n,
            i as nat,
        )) by {
            if cur[i] {
                if prev[i] {
                    let j = choose|j: int|
                        0 <= j < n - 1 && #[trigger] warns_at(inventory, calls, j) && method_index(
                            calls[j].0,
                        ) == Some(i as nat);
                    assert(0 <= j < n && warns_at(inventory, calls, j));
                } else {
                    assert(warns_at(inventory, calls, n - 1));
                }
            } else {
                if warned_before(inventory, calls, n, i as nat) {
                    let j = choose|j: int|
                        0 <= j < n && #[trigger] warns_at(inventory, calls, j) && method_index(
                            calls[j].0,
                        ) == Some(i as nat);
                    if j < n - 1 {
                        assert(warned_before(inventory, calls, n - 1, i as nat));
                    }
                }
            }
        }
    }
}

/// Over any history of calls on an inventory that has not warned yet, a
/// call warns exactly when the method's default ran, the method is
/// advertised, and no earlier call warned for it: each advertised method
/// warns once, at its first default hit, and never again.
pub proof fn law_warns_once_over_any_history(
    inventory: MethodInventoryView,
    calls: Seq<(Seq<char>, bool)>,
    k: int,
)
    requires
        inventory.advertised.len() == METHOD_COUNT,
        inventory.warned == Seq::new(METHOD_COUNT as nat, |i: int| false),
        0 <= k < calls.len(),
    ensures
        warns_at(inventory, calls, k) == (calls[k].1 && match method_index(calls[k].0) {
            Some(i) => inventory.advertised[i as int] && !warned_before(inventory, calls, k, i),
            None => false,
        }),
{
    lemma_warned_after_prefix(inventory, calls, k);
    lemma_method_index_bounded(calls[k].0, 0);
}

proof fn lemma_method_index_bounded(name: Seq<char>, from: int)
    ensures
        method_index_from(name, from) matches Some(i) ==> from <= i < METHOD_COUNT,
    decreases METHOD_COUNT - from,
{
    if 0 <= from < METHOD_COUNT && method_name(from as usize) != name {
        lemma_method_index_bounded(name, from + 1);
    }
}

} // verus!
