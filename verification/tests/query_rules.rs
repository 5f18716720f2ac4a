use myman::entities::{
    dashboard_from_counts, entities_from_rows, entity_from_rows, map_entity_row, require_changed,
    stored_fields,
};
use myman::statements::{
    archive_statement, clear_search_index_statement, clear_tags_statement, create_tag_statement,
    dashboard_types, insert_content_statement, insert_entity_statement, link_tag_statement,
    loaded_tag_id, restore_statement, search_index_statement, update_content_statement,
    update_entity_statement, ARCHIVE_ENTITY, CLEAR_ENTITY_TAGS, CLEAR_SEARCH_INDEX, DELETE_CONTENT,
    INSERT_CONTENT, INSERT_ENTITY, INSERT_SEARCH_INDEX, INSERT_TAG, LINK_TAG, REPLACE_CONTENT,
    RESTORE_ENTITY, UPDATE_ENTITY,
};
use myman::models::{EntityType, ListEntitiesRequest, SearchEntitiesRequest, SearchMode};
use myman::queries::{
    append_entity_filters, archive_condition, entity_select_sql, list_entities_query,
    search_entities_query, search_listing, search_query, ENTITY_SELECT_COLUMNS, LIST_COUNT, LIST_FROM, LIST_PAGE, SEARCH_COUNT,
    TAG_FILTER, TYPE_FILTER,
};
use myman::sql::{step_failure, EntityRow};

fn search(query: &str) -> SearchEntitiesRequest {
    SearchEntitiesRequest {
        query: query.to_owned(),
        search_mode: SearchMode::Or,
        entity_type: Some(EntityType::Task),
        tag: Some(" Work ".to_owned()),
        archived: true,
        limit: Some(5),
        offset: Some(10),
    }
}

#[test]
fn archive_conditions_split_archived_from_active() {
    assert_eq!(archive_condition(true), "e.archived_at IS NOT NULL");
    assert_eq!(archive_condition(false), "e.archived_at IS NULL");
}

#[test]
fn filters_add_type_and_normalized_tag() {
    let mut sql = String::from("X");
    let mut params = Vec::new();
    append_entity_filters(&mut sql, &mut params, Some(EntityType::Event), &Some(" WORK ".to_owned()));
    assert_eq!(sql, format!("X{TYPE_FILTER}{TAG_FILTER}"));
    assert_eq!(params, vec!["event".to_owned(), "work".to_owned()]);
}

#[test]
fn blank_tag_filter_adds_nothing() {
    let mut sql = String::from("X");
    let mut params = Vec::new();
    append_entity_filters(&mut sql, &mut params, None, &Some("   ".to_owned()));
    assert_eq!(sql, "X");
    assert!(params.is_empty());
}

#[test]
fn default_listing_queries() {
    let q = list_entities_query(&ListEntitiesRequest::default());
    assert_eq!(q.count_sql, format!("{LIST_COUNT}e.archived_at IS NULL"));
    assert!(q.count_params.is_empty());
    assert_eq!(
        q.page_sql,
        format!("{ENTITY_SELECT_COLUMNS} {LIST_FROM}e.archived_at IS NULL{LIST_PAGE}")
    );
    assert_eq!(q.page_params, vec!["50".to_owned(), "0".to_owned()]);
    assert_eq!(entity_select_sql("FROM x"), format!("{ENTITY_SELECT_COLUMNS} FROM x"));
}

#[test]
fn search_queries_carry_match_filters_and_page() {
    let q = search_entities_query(&search(" alpha beta ")).expect("search text");
    assert_eq!(
        q.count_sql,
        format!("{SEARCH_COUNT}e.archived_at IS NOT NULL{TYPE_FILTER}{TAG_FILTER}")
    );
    let fts = "\"alpha\"* OR \"beta\"*".to_owned();
    assert_eq!(q.count_params, vec![fts.clone(), "task".to_owned(), "work".to_owned()]);
    assert_eq!(
        q.page_params,
        vec![fts, "task".to_owned(), "work".to_owned(), "5".to_owned(), "10".to_owned()]
    );
}

#[test]
fn blank_search_is_a_listing_with_the_same_filters() {
    assert!(search_entities_query(&search("  \t ")).is_none());
    let listing = search_listing(&search("  "));
    assert_eq!(listing.entity_type, Some(EntityType::Task));
    assert_eq!(listing.tag, Some(" Work ".to_owned()));
    assert!(listing.archived);
    assert_eq!(listing.limit, Some(5));
    assert_eq!(listing.offset, Some(10));
    let blank = search_query(&search(" "));
    let listed = list_entities_query(&listing);
    assert_eq!(blank.count_sql, listed.count_sql);
    assert_eq!(blank.count_params, listed.count_params);
    assert_eq!(blank.page_sql, listed.page_sql);
    assert_eq!(blank.page_params, listed.page_params);
    assert_eq!(blank.page_params, vec!["task".to_owned(), "work".to_owned(), "5".to_owned(), "10".to_owned()]);
    let full = search_query(&search(" alpha "));
    assert!(full.count_sql.starts_with(SEARCH_COUNT));
}

#[test]
fn unchanged_rows_report_the_missing_entity() {
    assert_eq!(require_changed(0, "gone".to_owned()), Err("gone".to_owned()));
    assert_eq!(require_changed(2, "gone".to_owned()), Ok(()));
}

fn row(entity_type: &str, tags: Option<&str>) -> EntityRow {
    EntityRow {
        id: "id-1".to_owned(),
        entity_type: entity_type.to_owned(),
        title: "Title".to_owned(),
        summary: None,
        content: Some("Body".to_owned()),
        tags: tags.map(|t| t.to_owned()),
        created_at: "c".to_owned(),
        updated_at: "u".to_owned(),
    }
}

#[test]
fn maps_rows_to_entities() {
    let entity = map_entity_row(row("file", Some("work,home"))).ok().expect("valid row");
    assert_eq!(entity.entity_type, EntityType::File);
    assert_eq!(entity.tags, vec!["home".to_owned(), "work".to_owned()]);
    assert_eq!(entity.content.as_deref(), Some("Body"));
    let error = map_entity_row(row("memo", None)).err().expect("invalid type");
    assert_eq!(error.message(), "Invalid entity type: memo");
}

#[test]
fn rows_become_entities_in_order() {
    let entities = entities_from_rows(vec![row("task", Some(" b ,a,,")), row("note", None)], None)
        .ok()
        .expect("valid rows");
    assert_eq!(entities.len(), 2);
    assert_eq!(entities[0].entity_type, EntityType::Task);
    assert_eq!(entities[0].tags, vec!["a".to_owned(), "b".to_owned()]);
    assert_eq!(entities[1].entity_type, EntityType::Note);
    assert!(entities[1].tags.is_empty());
    assert!(entities_from_rows(Vec::new(), None).ok().expect("no rows").is_empty());
}

#[test]
fn the_first_row_of_no_type_fails_the_read() {
    assert_eq!(
        entities_from_rows(vec![row("event", None), row("memo", None), row("bogus", None)], None).err(),
        Some("Failed to read entities: Conversion error from type Text at index: 1, Invalid entity type: memo".to_owned())
    );
    let unread = Some("Failed to read entities: disk I/O error".to_owned());
    assert_eq!(entities_from_rows(vec![row("event", None)], unread.clone()).err(), unread.clone());
    assert_eq!(entities_from_rows(Vec::new(), unread.clone()).err(), unread);
    assert_eq!(
        entities_from_rows(vec![row("memo", None)], Some("Failed to read entities: later".to_owned())).err(),
        Some("Failed to read entities: Conversion error from type Text at index: 1, Invalid entity type: memo".to_owned())
    );
}

#[test]
fn a_lookup_reads_its_first_row() {
    assert_eq!(entity_from_rows("x", Vec::new(), None).err(), Some("Entity not found: x".to_owned()));
    let entity = entity_from_rows("id-1", vec![row("knowledge", Some("z,y")), row("memo", None)], None)
        .ok()
        .expect("first row is valid");
    assert_eq!(entity.entity_type, EntityType::Knowledge);
    assert_eq!(entity.id, "id-1");
    assert_eq!(entity.tags, vec!["y".to_owned(), "z".to_owned()]);
    assert_eq!(
        entity_from_rows("id-1", vec![row("memo", None)], None).err(),
        Some("Failed to load entity: Conversion error from type Text at index: 1, Invalid entity type: memo".to_owned())
    );
    let unread = Some("Failed to load entity: disk I/O error".to_owned());
    assert_eq!(entity_from_rows("x", Vec::new(), unread.clone()).err(), unread.clone());
    assert!(entity_from_rows("id-1", vec![row("note", None)], unread).is_ok());
}

#[test]
fn failures_name_the_step() {
    assert_eq!(step_failure("load tag", "Query returned no rows"), "Failed to load tag: Query returned no rows");
}

#[test]
fn stored_fields_and_statements() {
    let fields = stored_fields(
        "  Title ",
        &Some(" sum ".to_owned()),
        &Some("   ".to_owned()),
        &vec!["B".to_owned(), " a ".to_owned(), "b".to_owned()],
    )
    .ok()
    .expect("title present");
    assert_eq!(fields.title, "Title");
    assert_eq!(fields.summary.as_deref(), Some("sum"));
    assert_eq!(fields.content, None);
    assert_eq!(fields.tags, vec!["a".to_owned(), "b".to_owned()]);

    let insert = insert_entity_statement("id", EntityType::Event, &fields);
    assert_eq!(insert.step, "create entity");
    assert_eq!(insert.sql, INSERT_ENTITY);
    assert_eq!(
        insert.params,
        vec![Some("id".to_owned()), Some("event".to_owned()), Some("Title".to_owned()), Some("sum".to_owned())]
    );
    assert!(insert_content_statement("id", &fields).is_none());

    let update = update_entity_statement("id", &fields);
    assert_eq!(update.sql, UPDATE_ENTITY);
    assert_eq!(update.params, vec![Some("Title".to_owned()), Some("sum".to_owned()), Some("id".to_owned())]);

    let content = update_content_statement("id", &fields);
    assert_eq!(content.sql, DELETE_CONTENT);
    assert_eq!(content.params, vec![Some("id".to_owned())]);

    let index = search_index_statement("id", "Title", &fields.summary, &fields.content, &fields.tags);
    assert_eq!(index.sql, INSERT_SEARCH_INDEX);
    assert_eq!(
        index.params,
        vec![Some("id".to_owned()), Some("Title".to_owned()), Some("sum".to_owned()), None, Some("a b".to_owned())]
    );
    assert_eq!(
        stored_fields(" ", &None, &None, &Vec::new()).err(),
        Some("Title is required".to_owned())
    );
}

#[test]
fn content_is_replaced_when_present() {
    let fields = stored_fields("T", &None, &Some(" body ".to_owned()), &Vec::new()).ok().expect("fields");
    let created = insert_content_statement("id", &fields).expect("content statement");
    assert_eq!(created.sql, INSERT_CONTENT);
    assert_eq!(created.params, vec![Some("id".to_owned()), Some("body".to_owned())]);
    let updated = update_content_statement("id", &fields);
    assert_eq!(updated.sql, REPLACE_CONTENT);
    assert_eq!(updated.params, vec![Some("id".to_owned()), Some("body".to_owned())]);
}

#[test]
fn archive_restore_and_tag_statements() {
    let archive = archive_statement("e1");
    assert_eq!((archive.sql, archive.params), (ARCHIVE_ENTITY, vec![Some("e1".to_owned())]));
    let restore = restore_statement("e1");
    assert_eq!((restore.sql, restore.params), (RESTORE_ENTITY, vec![Some("e1".to_owned())]));
    let clear = clear_tags_statement("e1");
    assert_eq!((clear.sql, clear.params), (CLEAR_ENTITY_TAGS, vec![Some("e1".to_owned())]));
    let create = create_tag_statement("t1", "work");
    assert_eq!((create.sql, create.params), (INSERT_TAG, vec![Some("t1".to_owned()), Some("work".to_owned())]));
    let link = link_tag_statement("e1", "t1");
    assert_eq!((link.sql, link.params), (LINK_TAG, vec![Some("e1".to_owned()), Some("t1".to_owned())]));
    let index = clear_search_index_statement("e1");
    assert_eq!((index.sql, index.params), (CLEAR_SEARCH_INDEX, vec![Some("e1".to_owned())]));
    assert_eq!(loaded_tag_id(Some("t1".to_owned())), Ok("t1".to_owned()));
    assert_eq!(loaded_tag_id(None), Err("Failed to load tag: Query returned no rows".to_owned()));
    assert_eq!(
        dashboard_types(),
        vec![EntityType::Note, EntityType::Task, EntityType::Event, EntityType::Knowledge, EntityType::File]
    );
    let summary = dashboard_from_counts(&vec![1, 2, 3, 4, 5], 6);
    assert_eq!(
        (summary.notes, summary.tasks, summary.events, summary.knowledge, summary.files, summary.reminders_due_today),
        (1, 2, 3, 4, 5, 6)
    );
}
