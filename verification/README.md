# memex

memex makes the transcripts of coding assistants searchable. This crate holds its logic, verified
with Verus; what touches the world around it stands in `app/`.

- `src/text.rs`, `src/text_map.rs`, `src/json.rs`: texts, maps keyed by texts, and JSON values.
- `src/types.rs`, `src/usage.rs`, `src/state.rs`, `src/config.rs`: what the parts share.
- `src/herdr.rs`: resuming a session in a pane of the herdr terminal manager.
- `src/sources/`: what transcripts are read by; `src/sources/hermes/` is the Hermes message store,
  from its queries (`store.rs`) over the planning of tool calls (`calls.rs`) to the records
  (`projection.rs`, `parse.rs`) and usage events (`usage.rs`) that its rows become. What holds of all
  of it is proved in `laws.rs`.
- `src/index/`: the search index: its schema (`layout.rs`), the documents that records become
  (`document.rs`), what is asked of it (`search.rs`, `page.rs`), and the generations in which it is
  published (`generation.rs`).

Calls into other crates are made by small functions marked `external_body`. Each says in its doc
comment what is believed of the call.
