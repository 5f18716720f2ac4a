# myman

The data layer of Myman, a local-first personal assistant: notes, tasks,
events, knowledge entries and file records with tags, archiving and full-text
search, stored in SQLite. The library is written in Verus.

What Verus proves: how a request becomes the values that are stored (trimmed
titles and texts, normalized tags, search terms, pages); that each builder of
a statement or query yields exactly the SQL text and parameters its contract
names; how the rows and counts that come back are turned into records and
errors (`entities_from_rows`, `entity_from_rows`, `require_changed`,
`migration_needed`, `source_tag_id` and the like); and the errors the library
reports of its own.

What Verus does not prove: that an operation hands the database the
statements its builders make, in the order it does (the operations are short
sequences of such calls, checked by the tests), nor what SQLite then does with
them. Those results depend on the database's contents and are covered by the
scenario tests.

- `src/text.rs` — characters, whitespace, trimming, splitting, the text order, joining.
- `src/models.rs` — entity types, requests and records.
- `src/entities.rs` — normalization of titles and tags, search terms, paging,
  and the entity operations (create, update, archive, restore, list, search).
- `src/statements.rs` — the statements that store and change entities.
- `src/queries.rs` — the SQL text and parameters of listings and searches.
- `src/tag_management.rs` — tag usage counts, rename, merge, cleanup.
- `src/db.rs` — the schema and its migration.
- `src/sql.rs` — the SQLite calls (through `rusqlite`) behind trusted items.
- `app/` — the Tauri shell: commands, database setup, serializable records.
- `tests/` — scenario tests against an in-memory database, and rule tests.
