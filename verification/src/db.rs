//! The database schema and bringing a database up to date with it.
use vstd::prelude::*;
use rusqlite::Connection;
use crate::entities::text_option;
use crate::sql::{database_failure, failure, one_param, statement_is, Session, SqlStatement};
use crate::statements::id_statement;

verus! {

/// The id under which the initial schema is recorded as applied.
pub const INITIAL_MIGRATION_ID: &'static str = "0001_initial";

/// The initial schema: entities, their properties and contents, tags and tag
/// links, links between entities, file records, reminders, revisions, index
/// jobs, and the full-text index. Every statement is idempotent, so the schema can
/// be applied to a database that already holds it.
pub const INITIAL_MIGRATION: &'static str = "
CREATE TABLE IF NOT EXISTS entities (
  id TEXT PRIMARY KEY,
  type TEXT NOT NULL CHECK (type IN ('note', 'task', 'event', 'knowledge', 'file')),
  title TEXT NOT NULL,
  summary TEXT,
  created_at TEXT NOT NULL DEFAULT (strftime('%Y-%m-%dT%H:%M:%fZ', 'now')),
  updated_at TEXT NOT NULL DEFAULT (strftime('%Y-%m-%dT%H:%M:%fZ', 'now')),
  archived_at TEXT
);

CREATE INDEX IF NOT EXISTS idx_entities_type ON entities (type);
CREATE INDEX IF NOT EXISTS idx_entities_updated_at ON entities (updated_at);

CREATE TABLE IF NOT EXISTS entity_contents (
  entity_id TEXT PRIMARY KEY REFERENCES entities (id) ON DELETE CASCADE,
  body TEXT NOT NULL,
  format TEXT NOT NULL DEFAULT 'markdown',
  updated_at TEXT NOT NULL DEFAULT (strftime('%Y-%m-%dT%H:%M:%fZ', 'now'))
);

CREATE TABLE IF NOT EXISTS entity_properties (
  entity_id TEXT NOT NULL REFERENCES entities (id) ON DELETE CASCADE,
  key TEXT NOT NULL,
  value TEXT,
  PRIMARY KEY (entity_id, key)
);

CREATE TABLE IF NOT EXISTS tags (
  id TEXT PRIMARY KEY,
  name TEXT NOT NULL UNIQUE
);

CREATE TABLE IF NOT EXISTS entity_tags (
  entity_id TEXT NOT NULL REFERENCES entities (id) ON DELETE CASCADE,
  tag_id TEXT NOT NULL REFERENCES tags (id) ON DELETE CASCADE,
  PRIMARY KEY (entity_id, tag_id)
);

CREATE TABLE IF NOT EXISTS entity_links (
  source_id TEXT NOT NULL REFERENCES entities (id) ON DELETE CASCADE,
  target_id TEXT NOT NULL REFERENCES entities (id) ON DELETE CASCADE,
  relation TEXT NOT NULL DEFAULT 'related',
  created_at TEXT NOT NULL DEFAULT (strftime('%Y-%m-%dT%H:%M:%fZ', 'now')),
  PRIMARY KEY (source_id, target_id, relation)
);

CREATE TABLE IF NOT EXISTS file_index (
  entity_id TEXT PRIMARY KEY REFERENCES entities (id) ON DELETE CASCADE,
  path TEXT NOT NULL,
  size INTEGER,
  modified_at TEXT
);

CREATE TABLE IF NOT EXISTS reminders (
  id TEXT PRIMARY KEY,
  entity_id TEXT NOT NULL REFERENCES entities (id) ON DELETE CASCADE,
  remind_at TEXT NOT NULL,
  triggered_at TEXT
);

CREATE TABLE IF NOT EXISTS revisions (
  id TEXT PRIMARY KEY,
  entity_id TEXT NOT NULL REFERENCES entities (id) ON DELETE CASCADE,
  title TEXT NOT NULL,
  summary TEXT,
  content TEXT,
  created_at TEXT NOT NULL DEFAULT (strftime('%Y-%m-%dT%H:%M:%fZ', 'now'))
);

CREATE TABLE IF NOT EXISTS search_index_jobs (
  id INTEGER PRIMARY KEY AUTOINCREMENT,
  entity_id TEXT NOT NULL REFERENCES entities (id) ON DELETE CASCADE,
  created_at TEXT NOT NULL DEFAULT (strftime('%Y-%m-%dT%H:%M:%fZ', 'now')),
  done_at TEXT
);

CREATE VIRTUAL TABLE IF NOT EXISTS search_index USING fts5 (
  entity_id UNINDEXED,
  title,
  summary,
  content,
  tags
);
";

/// Turns on foreign keys and creates the table that records applied migrations.
pub const MIGRATIONS_TABLE: &'static str = "
PRAGMA foreign_keys = ON;

CREATE TABLE IF NOT EXISTS schema_migrations (
  id TEXT PRIMARY KEY,
  applied_at TEXT NOT NULL DEFAULT (strftime('%Y-%m-%dT%H:%M:%fZ', 'now'))
);
";

/// The lookup of a recorded migration.
pub const FIND_MIGRATION: &'static str = "SELECT id FROM schema_migrations WHERE id = ?1";

/// Records a migration as applied.
pub const RECORD_MIGRATION: &'static str = "INSERT OR IGNORE INTO schema_migrations (id) VALUES (?1)";

/// Whether the initial schema must be applied: only when the lookup of its
/// record found none.
pub fn migration_needed(found: &Option<String>) -> (r: bool)
    ensures
        r == found is None,
{
    found.is_none()
}

/// The statement that records the initial schema as applied.
pub fn record_migration_statement() -> (s: SqlStatement)
    ensures
        statement_is(
            s,
            "record database migration 0001_initial"@,
            RECORD_MIGRATION@,
            seq![Some(INITIAL_MIGRATION_ID@)],
        ),
{
    id_statement("record database migration 0001_initial", RECORD_MIGRATION, INITIAL_MIGRATION_ID)
}

/// What bringing the schema up to date sends, given what the lookup of the
/// initial schema's record found: the migrations table first, then the
/// lookup, and then, only when no record was found, the initial schema and
/// its record.
pub open spec fn migration_sent(
    log: Seq<(Seq<char>, Seq<Option<Seq<char>>>)>,
    found: Option<Seq<char>>,
) -> bool {
    log == seq![
        (MIGRATIONS_TABLE@, Seq::<Option<Seq<char>>>::empty()),
        (FIND_MIGRATION@, seq![Some(INITIAL_MIGRATION_ID@)]),
    ] + if found is None {
        seq![
            (INITIAL_MIGRATION@, Seq::<Option<Seq<char>>>::empty()),
            (RECORD_MIGRATION@, seq![Some(INITIAL_MIGRATION_ID@)]),
        ]
    } else {
        Seq::empty()
    }
}

/// The end of a migration run that sent what `migration_sent` asks.
fn migrated(session: Session, found: &Option<String>) -> (r: Result<(), String>)
    requires
        migration_sent(session.log(), text_option(*found)),
    ensures
        r is Ok,
{
    Ok(())
}

/// Brings the schema up to date: applies the initial schema unless it is
/// recorded as applied, then records it.
pub fn run_migrations(connection: &Connection) -> (r: Result<(), String>)
    ensures
        r matches Err(m) ==> database_failure(m@),
{
    let mut session = Session::open(connection);
    match session.run_script(MIGRATIONS_TABLE) {
        Ok(()) => {},
        Err(e) => return Err(failure("prepare database migrations", &e)),
    }
    let lookup = one_param(INITIAL_MIGRATION_ID);
    let found = match session.find_text(FIND_MIGRATION, &lookup) {
        Ok(found) => found,
        Err(e) => return Err(failure("inspect database migrations", &e)),
    };
    assert(lookup@.map_values(|p: String| Some(p@)) =~= seq![Some(INITIAL_MIGRATION_ID@)]);
    if migration_needed(&found) {
        match session.run_script(INITIAL_MIGRATION) {
            Ok(()) => {},
            Err(e) => return Err(failure("run database migration 0001_initial", &e)),
        }
        session.run(&record_migration_statement())?;
    }
    assert(session.log() =~= seq![
        (MIGRATIONS_TABLE@, Seq::<Option<Seq<char>>>::empty()),
        (FIND_MIGRATION@, seq![Some(INITIAL_MIGRATION_ID@)]),
    ] + if found is None {
        seq![
            (INITIAL_MIGRATION@, Seq::<Option<Seq<char>>>::empty()),
            (RECORD_MIGRATION@, seq![Some(INITIAL_MIGRATION_ID@)]),
        ]
    } else {
        Seq::<(Seq<char>, Seq<Option<Seq<char>>>)>::empty()
    });
    migrated(session, &found)
}

/// The initial schema is applied exactly when the lookup found no record of
/// it, and whenever it is applied its record is written right after; when a
/// record is found, nothing is sent after the lookup.
pub proof fn lemma_schema_applied_once(log: Seq<(Seq<char>, Seq<Option<Seq<char>>>)>, found: Option<Seq<char>>)
    requires
        migration_sent(log, found),
    ensures
        log[0].0 == MIGRATIONS_TABLE@,
        log[1] == (FIND_MIGRATION@, seq![Some(INITIAL_MIGRATION_ID@)]),
        found is Some ==> log.len() == 2,
        found is None ==> log.len() == 4 && log[2].0 == INITIAL_MIGRATION@ && log[3] == (
            RECORD_MIGRATION@,
            seq![Some(INITIAL_MIGRATION_ID@)],
        ),
{
}

} // verus!
