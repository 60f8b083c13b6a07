# md_tmpl_core

The core of a Markdown prompt-template engine: `.tmpl.md` files start with a
`---` frontmatter block that declares parameters, constants, environment
values, type aliases and imports, followed by a template body.

The library in `src/` is written in Verus; every function carries a
contract that Verus proves.

- `frontmatter/` reads the frontmatter block: logical lines, sections,
  declarations and their types and defaults, `env:` resolution, import path
  interpolation, the namespaces of imported templates, and the collision
  rules between declared names.
- `compiled/` holds the compiled form of a body (segments, expressions,
  conditions), the condition parser, and the analysis that collects the
  parameters a body references.
- `value.rs`, `context.rs`, `types.rs` model template values, render
  contexts and declared types; `error.rs` the errors and their messages.
- `cache.rs` holds the decisions of the template cache: content hashing,
  when a cached entry is reused, and which entries LRU eviction drops.
- `doc_examples.rs` extracts template examples from Markdown documents.
- `laws.rs` states properties that span several functions.

`app/` is ordinary Rust around the library: serde conversions of values
and contexts (CBOR, FlexBuffers), reading imported templates from disk, and
the file-backed, thread-safe template cache. `tests/` exercises the library.
