use myman::db::{migration_needed, record_migration_statement, run_migrations, RECORD_MIGRATION};
use myman::entities::{
    archive_entity, create_entity, dashboard_summary, list_entities, restore_entity, update_entity,
};
use myman::models::{CreateEntityRequest, EntityType, ListEntitiesRequest, UpdateEntityRequest};
use myman::tag_management::{
    check_rename_target, cleanup_statement, index_tags_statement, indexed_tags, merge_statements,
    merge_tags, normalize, removed_count, rename_statement, rename_tag, source_tag_id, CLEANUP_TAGS,
    DELETE_TAG, DELETE_TAG_LINKS, MOVE_TAG_LINKS, RENAME_TAG, RENAME_TAG_BY_ID, UPDATE_INDEX_TAGS,
};
use rusqlite::Connection;

fn test_connection() -> Connection {
    let connection = Connection::open_in_memory().expect("open in-memory database");
    run_migrations(&connection).expect("run migrations");
    connection
}

fn note(connection: &mut Connection, title: &str, tags: &[&str]) -> String {
    create_entity(
        connection,
        CreateEntityRequest {
            entity_type: EntityType::Note,
            title: title.to_owned(),
            summary: Some("  ".to_owned()),
            content: None,
            tags: tags.iter().map(|t| (*t).to_owned()).collect(),
        },
    )
    .expect("create note")
    .id
}

#[test]
fn created_entity_drops_blank_summary_and_missing_content() {
    let mut connection = test_connection();
    let id = note(&mut connection, "  Plain  ", &[]);
    let page = list_entities(&connection, ListEntitiesRequest::default()).expect("list");
    assert_eq!(page.items[0].id, id);
    assert_eq!(page.items[0].title, "Plain");
    assert_eq!(page.items[0].summary, None);
    assert_eq!(page.items[0].content, None);
    assert!(page.items[0].tags.is_empty());
}

#[test]
fn archiving_twice_and_restoring_active_entities_fail() {
    let mut connection = test_connection();
    let id = note(&mut connection, "Once", &[]);
    assert_eq!(
        restore_entity(&connection, &id),
        Err(format!("Entity not found or not archived: {id}"))
    );
    archive_entity(&connection, &id).expect("archive");
    assert_eq!(
        archive_entity(&connection, &id),
        Err(format!("Entity not found or already archived: {id}"))
    );
    assert_eq!(
        archive_entity(&connection, "missing"),
        Err("Entity not found or already archived: missing".to_owned())
    );
}

#[test]
fn updating_missing_or_archived_entities_fails() {
    let mut connection = test_connection();
    let request = |id: &str| UpdateEntityRequest {
        id: id.to_owned(),
        title: "New".to_owned(),
        summary: None,
        content: None,
        tags: Vec::new(),
    };
    assert_eq!(
        update_entity(&mut connection, request("nope")).err(),
        Some("Entity not found: nope".to_owned())
    );
    let id = note(&mut connection, "Old", &["keep"]);
    archive_entity(&connection, &id).expect("archive");
    assert_eq!(
        update_entity(&mut connection, request(&id)).err(),
        Some(format!("Entity not found: {id}"))
    );
    let mut blank = request(&id);
    blank.title = "  ".to_owned();
    assert_eq!(update_entity(&mut connection, blank).err(), Some("Title is required".to_owned()));
}

#[test]
fn update_without_content_removes_it() {
    let mut connection = test_connection();
    let created = create_entity(
        &mut connection,
        CreateEntityRequest {
            entity_type: EntityType::Task,
            title: "Task".to_owned(),
            summary: None,
            content: Some("Body".to_owned()),
            tags: vec!["a".to_owned()],
        },
    )
    .expect("create");
    assert_eq!(created.content.as_deref(), Some("Body"));
    let updated = update_entity(
        &mut connection,
        UpdateEntityRequest {
            id: created.id.clone(),
            title: "Task".to_owned(),
            summary: None,
            content: None,
            tags: Vec::new(),
        },
    )
    .expect("update");
    assert_eq!(updated.content, None);
    assert!(updated.tags.is_empty());
}

#[test]
fn dashboard_counts_active_entities_by_type() {
    let mut connection = test_connection();
    note(&mut connection, "One", &[]);
    let two = note(&mut connection, "Two", &[]);
    archive_entity(&connection, &two).expect("archive");
    let summary = dashboard_summary(&connection).expect("summary");
    assert_eq!(summary.notes, 1);
    assert_eq!(summary.tasks, 0);
    assert_eq!(summary.events, 0);
    assert_eq!(summary.knowledge, 0);
    assert_eq!(summary.files, 0);
    assert_eq!(summary.reminders_due_today, 0);
}

#[test]
fn tag_names_are_normalized_before_use() {
    assert_eq!(normalize(" Work "), Ok("work".to_owned()));
    assert_eq!(normalize("  "), Err("Tag name cannot be empty".to_owned()));
    let connection = test_connection();
    assert_eq!(rename_tag(&connection, " ", "x"), Err("Tag name cannot be empty".to_owned()));
    assert_eq!(rename_tag(&connection, "x", ""), Err("Tag name cannot be empty".to_owned()));
    assert_eq!(
        rename_tag(&connection, "Work", " work"),
        Err("New tag name must be different".to_owned())
    );
    assert_eq!(
        merge_tags(&connection, "WORK", "work "),
        Err("Source and target tags must differ".to_owned())
    );
}

#[test]
fn renaming_onto_a_taken_or_from_a_missing_name_fails() {
    let mut connection = test_connection();
    note(&mut connection, "Tagged", &["alpha", "beta"]);
    assert_eq!(
        rename_tag(&connection, "alpha", "Beta"),
        Err("Tag already exists: beta. Use merge instead.".to_owned())
    );
    assert_eq!(rename_tag(&connection, "gamma", "delta"), Err("Tag not found: gamma".to_owned()));
    assert_eq!(merge_tags(&connection, "gamma", "alpha"), Err("Tag not found: gamma".to_owned()));
    assert_eq!(check_rename_target(&None, "x"), Ok(()));
}

#[test]
fn merging_into_a_missing_target_renames_the_source() {
    let mut connection = test_connection();
    note(&mut connection, "Tagged", &["old"]);
    merge_tags(&connection, "old", "new").expect("merge");
    let page = list_entities(
        &connection,
        ListEntitiesRequest { tag: Some("new".to_owned()), ..Default::default() },
    )
    .expect("list");
    assert_eq!(page.total, 1);
    assert_eq!(page.items[0].tags, vec!["new".to_owned()]);
}

#[test]
fn merge_and_rename_statements() {
    let rename = rename_statement("old", "new");
    assert_eq!((rename.sql, rename.params), (RENAME_TAG, vec![Some("new".to_owned()), Some("old".to_owned())]));
    assert_eq!(source_tag_id("gone", None), Err("Tag not found: gone".to_owned()));
    assert_eq!(source_tag_id("s", Some("sid".to_owned())), Ok("sid".to_owned()));
    let into_existing = merge_statements("target", "sid", Some("tid".to_owned()));
    assert_eq!(into_existing.len(), 3);
    assert_eq!(
        (into_existing[0].sql, into_existing[0].params.clone()),
        (MOVE_TAG_LINKS, vec![Some("tid".to_owned()), Some("sid".to_owned())])
    );
    assert_eq!((into_existing[1].sql, into_existing[1].params.clone()), (DELETE_TAG_LINKS, vec![Some("sid".to_owned())]));
    assert_eq!((into_existing[2].sql, into_existing[2].params.clone()), (DELETE_TAG, vec![Some("sid".to_owned())]));
    let into_new = merge_statements("target", "sid", None);
    assert_eq!(into_new.len(), 1);
    assert_eq!(
        (into_new[0].sql, into_new[0].params.clone()),
        (RENAME_TAG_BY_ID, vec![Some("target".to_owned()), Some("sid".to_owned())])
    );
    let cleanup = cleanup_statement();
    assert_eq!((cleanup.sql, cleanup.params.len()), (CLEANUP_TAGS, 0));
    assert_eq!(removed_count(4), 4);
    assert_eq!(indexed_tags(Some("a b".to_owned())), Ok("a b".to_owned()));
    assert_eq!(
        indexed_tags(None),
        Err("Failed to rebuild indexed tags: Query returned no rows".to_owned())
    );
    let index = index_tags_statement("e1", "a b");
    assert_eq!((index.sql, index.params), (UPDATE_INDEX_TAGS, vec![Some("a b".to_owned()), Some("e1".to_owned())]));
}

#[test]
fn migration_runs_only_when_unrecorded() {
    assert!(migration_needed(&None));
    assert!(!migration_needed(&Some("0001_initial".to_owned())));
    let record = record_migration_statement();
    assert_eq!((record.sql, record.params), (RECORD_MIGRATION, vec![Some("0001_initial".to_owned())]));
}
