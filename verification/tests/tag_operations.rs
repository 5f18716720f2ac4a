use myman::db::run_migrations;
use myman::entities::{create_entity, list_entities, search_entities};
use myman::models::{CreateEntityRequest, EntityType, ListEntitiesRequest, SearchEntitiesRequest, SearchMode};
use myman::tag_management::{cleanup_unused_tags, list_tag_summaries, merge_tags, rename_tag};
use rusqlite::Connection;

fn test_connection() -> Connection {
    let connection = Connection::open_in_memory().expect("open in-memory database");
    run_migrations(&connection).expect("run migrations");
    connection
}

fn create_tagged_entity(connection: &mut Connection, title: &str, tags: &[&str]) -> String {
    create_entity(
        connection,
        CreateEntityRequest {
            entity_type: EntityType::Note,
            title: title.to_owned(),
            summary: None,
            content: None,
            tags: tags.iter().map(|tag| (*tag).to_owned()).collect(),
        },
    )
    .expect("create tagged entity")
    .id
}

fn search_by_tag_text(connection: &Connection, query: &str) -> i64 {
    search_entities(
        connection,
        SearchEntitiesRequest {
            query: query.to_owned(),
            search_mode: SearchMode::And,
            entity_type: None,
            tag: None,
            archived: false,
            limit: None,
            offset: None,
        },
    )
    .expect("search entities")
    .total
}

#[test]
fn renames_tag_and_refreshes_entity_and_search_results() {
    let mut connection = test_connection();
    create_tagged_entity(&mut connection, "Tagged item", &["oldlabel"]);

    rename_tag(&connection, "oldlabel", "newlabel").expect("rename tag");

    let page = list_entities(
        &connection,
        ListEntitiesRequest { tag: Some("newlabel".to_owned()), ..Default::default() },
    )
    .expect("filter renamed tag");
    assert_eq!(page.total, 1);
    assert_eq!(page.items[0].tags, vec!["newlabel"]);
    assert_eq!(search_by_tag_text(&connection, "oldlabel"), 0);
    assert_eq!(search_by_tag_text(&connection, "newlabel"), 1);
    assert!(rename_tag(&connection, "newlabel", "newlabel").is_err());
}

#[test]
fn merges_tag_links_without_duplicates_and_refreshes_search() {
    let mut connection = test_connection();
    create_tagged_entity(&mut connection, "Source only", &["sourcelabel"]);
    create_tagged_entity(&mut connection, "Target only", &["targetlabel"]);
    let both_id = create_tagged_entity(&mut connection, "Both labels", &["sourcelabel", "targetlabel"]);

    merge_tags(&connection, "sourcelabel", "targetlabel").expect("merge tags");

    let page = list_entities(
        &connection,
        ListEntitiesRequest { tag: Some("targetlabel".to_owned()), ..Default::default() },
    )
    .expect("filter merged tag");
    assert_eq!(page.total, 3);
    assert_eq!(search_by_tag_text(&connection, "sourcelabel"), 0);
    assert_eq!(search_by_tag_text(&connection, "targetlabel"), 3);

    let duplicate_count: i64 = connection
        .query_row(
            "SELECT COUNT(*) FROM entity_tags et JOIN tags t ON t.id = et.tag_id WHERE et.entity_id = ?1 AND t.name = 'targetlabel'",
            [both_id.as_str()],
            |row| row.get(0),
        )
        .expect("count merged links");
    assert_eq!(duplicate_count, 1);
    assert!(merge_tags(&connection, "missing", "targetlabel").is_err());
}

#[test]
fn lists_usage_counts_and_removes_only_unused_tags() {
    let mut connection = test_connection();
    let active_id = create_tagged_entity(&mut connection, "Active", &["used"]);
    let archived_id = create_tagged_entity(&mut connection, "Archived", &["used"]);
    connection
        .execute(
            "UPDATE entities SET archived_at = strftime('%Y-%m-%dT%H:%M:%fZ', 'now') WHERE id = ?1",
            [archived_id.as_str()],
        )
        .expect("archive entity directly");
    let orphan_id = uuid::Uuid::new_v4().to_string();
    connection
        .execute("INSERT INTO tags (id, name) VALUES (?1, 'orphan')", [orphan_id.as_str()])
        .expect("insert orphan tag");

    let summaries = list_tag_summaries(&connection).expect("list tag summaries");
    let used = summaries.iter().find(|tag| tag.name == "used").expect("used summary");
    assert_eq!(used.active_count, 1);
    assert_eq!(used.archived_count, 1);
    let orphan = summaries.iter().find(|tag| tag.name == "orphan").expect("orphan summary");
    assert_eq!(orphan.active_count, 0);
    assert_eq!(orphan.archived_count, 0);

    assert_eq!(cleanup_unused_tags(&connection).expect("cleanup tags"), 1);
    let summaries = list_tag_summaries(&connection).expect("list summaries after cleanup");
    assert!(!summaries.iter().any(|tag| tag.name == "orphan"));
    assert!(summaries.iter().any(|tag| tag.name == "used"));

    let active_exists: i64 = connection
        .query_row("SELECT COUNT(*) FROM entities WHERE id = ?1", [active_id.as_str()], |row| row.get(0))
        .expect("check active entity");
    assert_eq!(active_exists, 1);
}
