# unified_search

A search service over several sources (local markdown, Confluence, Notion,
Slack, maildir). Connectors turn what a source returns into documents, an
index stores them, and a small query language searches them.

## Layout

- `src/` — the library, verified with Verus:
  - `engine/query_parser.rs`: the query language (tokens, terms, phrases,
    `field:value`, fuzzy terms, `AND`/`OR`/`NOT`) and search filters, each
    parse stated against a spec of the resulting query;
  - `engine/index_manager.rs`: the index schema, how a document is written to
    and read back from stored fields, what a run of writes leaves in the
    index, paging and facet counts;
  - `engine/analyzer.rs`, `engine/highlight.rs`: jieba tokens and snippets;
  - `connector/`: requests to each source, the documents made of answers
    and of file listings;
  - `api/`, `config.rs`, `scheduler/`: request filters, defaults, the
    registry of sources and each step of a fetch cycle;
  - `text.rs`, `json.rs`, `time.rs`: string helpers, a JSON value model, and
    the date parsing done by chrono.
- `app/` — the service around it: tantivy, HTTP (axum, reqwest), files,
  tokio tasks, serde.
- `tests/` — tests of the library.
