use myman::db::{run_migrations, INITIAL_MIGRATION, INITIAL_MIGRATION_ID};
use rusqlite::Connection;

fn migration_count(connection: &Connection) -> i64 {
    connection
        .query_row("SELECT COUNT(*) FROM schema_migrations", [], |row| row.get(0))
        .expect("migration count")
}

#[test]
fn runs_migrations_on_empty_database() {
    let connection = Connection::open_in_memory().expect("open in-memory database");

    run_migrations(&connection).expect("run migrations");

    let entity_count: i64 = connection
        .query_row("SELECT COUNT(*) FROM entities", [], |row| row.get(0))
        .expect("entities table exists");
    assert_eq!(entity_count, 0);
    assert_eq!(migration_count(&connection), 1);
}

#[test]
fn records_initial_migration_for_legacy_database() {
    let connection = Connection::open_in_memory().expect("open in-memory database");
    connection
        .execute_batch(INITIAL_MIGRATION)
        .expect("create legacy schema without migration table");

    run_migrations(&connection).expect("run migrations");

    let migration_id: String = connection
        .query_row("SELECT id FROM schema_migrations", [], |row| row.get(0))
        .expect("migration row");
    assert_eq!(migration_id, INITIAL_MIGRATION_ID);
}

#[test]
fn running_migrations_twice_records_once() {
    let connection = Connection::open_in_memory().expect("open in-memory database");
    run_migrations(&connection).expect("first run");
    run_migrations(&connection).expect("second run");
    assert_eq!(migration_count(&connection), 1);
}

#[test]
fn schema_holds_every_table_of_the_data_model() {
    let connection = Connection::open_in_memory().expect("open in-memory database");
    run_migrations(&connection).expect("run migrations");
    for table in [
        "entities",
        "entity_properties",
        "entity_contents",
        "tags",
        "entity_tags",
        "entity_links",
        "file_index",
        "reminders",
        "revisions",
        "search_index_jobs",
        "search_index",
    ] {
        let count: i64 = connection
            .query_row("SELECT COUNT(*) FROM sqlite_master WHERE name = ?1", [table], |row| row.get(0))
            .expect("schema lookup");
        assert_eq!(count, 1, "{table}");
    }
}
