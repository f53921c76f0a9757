# async-language-server

A framework for writing language servers over the Language Server Protocol:
incremental document sync on ropes, position-encoding negotiation
(UTF-8/16/32), optional tree-sitter syntax trees and workspace-wide
diagnostics.

## Layout

- `src/` — the library, verified with Verus. It holds the decisions the
  framework makes and states each of them as a contract:
  - `text_utils` — encodings, positions, line structure, position
    conversion between encodings, and the range helpers (`RangeExt`) for
    byte, protocol and tree-sitter ranges;
  - `server` — capability models and the inventory of advertised methods,
    options and settings, the `initialize` negotiation, the document store
    (open and workspace documents, cached semantic tokens), content-change
    application and the settling of a failed batch, the disk-snapshot cache
    and the walk cache. The store and the caches are maps from URLs kept
    in the verified `KeyedList` (`server/keyed.rs`), owned by the server and
    changed through `&mut`; the app shares them behind one lock;
  - `workspace` — workspace diagnostics exposure and configuration,
    collection of workspace reports, walk configuration, and which files
    lie in the workspace roots;
  - `tree_sitter_utils` and `syntax` — tree-sitter points and ranges, and
    searches over syntax trees;
  - `transport` — the transports a server runs over.

  Calls into `ropey` go through the `external_body` wrappers of
  `src/text_utils/rope.rs`, whose contracts state what `ropey` does.
- `tests/` — tests of the library on concrete values.
- `app/` — the running side, in ordinary Rust: the `Server` trait, request
  and notification routing over `async-lsp`, the middleware stack, disk
  reads and workspace walks (`ignore`), tree-sitter parsing, and the
  transports.
