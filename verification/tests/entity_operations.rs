use myman::db::run_migrations;
use myman::entities::{
    archive_entity, create_entity, list_entities, list_tags, restore_entity, search_entities,
    update_entity,
};
use myman::models::{
    CreateEntityRequest, EntityPage, EntityType, ListEntitiesRequest, SearchEntitiesRequest,
    SearchMode, UpdateEntityRequest,
};
use rusqlite::Connection;
use std::collections::BTreeSet;

fn test_connection() -> Connection {
    let connection = Connection::open_in_memory().expect("open in-memory database");
    run_migrations(&connection).expect("run migrations");
    connection
}

fn create_request(entity_type: EntityType, title: &str, content: &str, tags: &[&str]) -> CreateEntityRequest {
    CreateEntityRequest {
        entity_type,
        title: title.to_owned(),
        summary: Some(content.to_owned()),
        content: Some(content.to_owned()),
        tags: tags.iter().map(|tag| (*tag).to_owned()).collect(),
    }
}

fn update_request(id: &str, title: &str, content: &str, tags: &[&str]) -> UpdateEntityRequest {
    UpdateEntityRequest {
        id: id.to_owned(),
        title: title.to_owned(),
        summary: Some(content.to_owned()),
        content: Some(content.to_owned()),
        tags: tags.iter().map(|tag| (*tag).to_owned()).collect(),
    }
}

fn search_request(query: &str, search_mode: SearchMode) -> SearchEntitiesRequest {
    SearchEntitiesRequest {
        query: query.to_owned(),
        search_mode,
        entity_type: None,
        tag: None,
        archived: false,
        limit: None,
        offset: None,
    }
}

fn titles(page: EntityPage) -> BTreeSet<String> {
    page.items.into_iter().map(|entity| entity.title).collect()
}

#[test]
fn creates_updates_archives_and_restores_entities() {
    let mut connection = test_connection();

    let created = create_entity(
        &mut connection,
        create_request(EntityType::Note, "  First note  ", "Body", &["Work"]),
    )
    .expect("create entity");
    assert_eq!(created.title, "First note");
    assert_eq!(created.entity_type, EntityType::Note);
    assert_eq!(created.tags, vec!["work"]);

    let listed = list_entities(&connection, ListEntitiesRequest::default()).expect("list entities");
    assert_eq!(listed.total, 1);
    assert_eq!(listed.items.len(), 1);

    let updated = update_entity(
        &mut connection,
        update_request(&created.id, "Updated note", "Updated body", &["Home"]),
    )
    .expect("update entity");
    assert_eq!(updated.title, "Updated note");
    assert_eq!(updated.content.as_deref(), Some("Updated body"));
    assert_eq!(updated.tags, vec!["home"]);

    archive_entity(&connection, &created.id).expect("archive entity");
    let visible = list_entities(&connection, ListEntitiesRequest::default()).expect("list visible");
    assert_eq!(visible.total, 0);

    let archived = list_entities(
        &connection,
        ListEntitiesRequest { archived: true, ..Default::default() },
    )
    .expect("list archived");
    assert_eq!(archived.total, 1);
    assert_eq!(archived.items[0].id, created.id);

    restore_entity(&connection, &created.id).expect("restore entity");
    let restored = list_entities(&connection, ListEntitiesRequest::default()).expect("list restored");
    assert_eq!(restored.total, 1);
    assert!(restore_entity(&connection, &created.id).is_err());
}

#[test]
fn rejects_blank_titles_and_invalid_entity_types() {
    let mut connection = test_connection();

    let blank_title = create_entity(&mut connection, create_request(EntityType::Task, "   ", "Body", &[]));
    assert_eq!(blank_title.expect_err("blank title error"), "Title is required");

    let invalid_type = EntityType::from_db_value("unknown");
    assert!(invalid_type.is_err());
}

#[test]
fn normalizes_and_filters_tags_and_types() {
    let mut connection = test_connection();

    let note = create_entity(
        &mut connection,
        create_request(EntityType::Note, "Tagged note", "Alpha body", &[" Work ", "work", "Home"]),
    )
    .expect("create note");
    create_entity(
        &mut connection,
        create_request(EntityType::Task, "Tagged task", "Beta body", &["work"]),
    )
    .expect("create task");

    assert_eq!(note.tags, vec!["home", "work"]);
    assert_eq!(list_tags(&connection).expect("list tags"), vec!["home", "work"]);

    let work_entities = list_entities(
        &connection,
        ListEntitiesRequest { tag: Some("WORK".to_owned()), ..Default::default() },
    )
    .expect("filter by tag");
    assert_eq!(work_entities.total, 2);

    let note_entities = list_entities(
        &connection,
        ListEntitiesRequest {
            entity_type: Some(EntityType::Note),
            tag: Some("work".to_owned()),
            ..Default::default()
        },
    )
    .expect("filter by type and tag");
    assert_eq!(note_entities.total, 1);
    assert_eq!(note_entities.items[0].title, "Tagged note");

    archive_entity(&connection, &note.id).expect("archive tagged note");
    assert_eq!(list_tags(&connection).expect("active tags"), vec!["work"]);
}

#[test]
fn paginates_entities_and_reports_total() {
    let mut connection = test_connection();
    for title in ["First", "Second", "Third"] {
        create_entity(&mut connection, create_request(EntityType::Note, title, "Body", &[]))
            .expect("create entity");
    }

    let first_page = list_entities(
        &connection,
        ListEntitiesRequest { limit: Some(2), offset: Some(0), ..Default::default() },
    )
    .expect("first page");
    let second_page = list_entities(
        &connection,
        ListEntitiesRequest { limit: Some(2), offset: Some(2), ..Default::default() },
    )
    .expect("second page");

    assert_eq!(first_page.total, 3);
    assert_eq!(first_page.items.len(), 2);
    assert_eq!(second_page.total, 3);
    assert_eq!(second_page.items.len(), 1);
    assert_ne!(first_page.items[0].id, second_page.items[0].id);
    assert_ne!(first_page.items[1].id, second_page.items[0].id);
}

#[test]
fn searches_with_and_or_modes_and_filters() {
    let mut connection = test_connection();

    create_entity(
        &mut connection,
        create_request(EntityType::Note, "Alpha beta note", "Shared words", &["project"]),
    )
    .expect("create note");
    create_entity(
        &mut connection,
        create_request(EntityType::Task, "Alpha task", "Gamma words", &["work"]),
    )
    .expect("create task");
    create_entity(
        &mut connection,
        create_request(EntityType::Knowledge, "Beta guide", "Reference", &["project"]),
    )
    .expect("create knowledge");

    let and_results =
        search_entities(&connection, search_request("alpha beta", SearchMode::And)).expect("and search");
    assert_eq!(and_results.total, 1);
    assert_eq!(titles(and_results), BTreeSet::from(["Alpha beta note".to_owned()]));

    let or_results =
        search_entities(&connection, search_request("alpha beta", SearchMode::Or)).expect("or search");
    assert_eq!(or_results.total, 3);
    assert_eq!(
        titles(or_results),
        BTreeSet::from([
            "Alpha beta note".to_owned(),
            "Alpha task".to_owned(),
            "Beta guide".to_owned(),
        ])
    );

    let mut filtered_by_type_request = search_request("alpha", SearchMode::And);
    filtered_by_type_request.entity_type = Some(EntityType::Task);
    let filtered_by_type =
        search_entities(&connection, filtered_by_type_request).expect("type filtered search");
    assert_eq!(titles(filtered_by_type), BTreeSet::from(["Alpha task".to_owned()]));

    let mut filtered_by_tag_request = search_request("beta", SearchMode::And);
    filtered_by_tag_request.tag = Some("project".to_owned());
    let filtered_by_tag =
        search_entities(&connection, filtered_by_tag_request).expect("tag filtered search");
    assert_eq!(
        titles(filtered_by_tag),
        BTreeSet::from(["Alpha beta note".to_owned(), "Beta guide".to_owned()])
    );
}

#[test]
fn empty_search_uses_list_filters_and_paging() {
    let mut connection = test_connection();

    create_entity(&mut connection, create_request(EntityType::Note, "Visible note", "Body", &["work"]))
        .expect("create note");
    create_entity(&mut connection, create_request(EntityType::Task, "Hidden task", "Body", &["work"]))
        .expect("create task");

    let results = search_entities(
        &connection,
        SearchEntitiesRequest {
            query: "   ".to_owned(),
            search_mode: SearchMode::And,
            entity_type: Some(EntityType::Note),
            tag: Some("work".to_owned()),
            archived: false,
            limit: Some(1),
            offset: Some(0),
        },
    )
    .expect("empty search");

    assert_eq!(results.total, 1);
    assert_eq!(titles(results), BTreeSet::from(["Visible note".to_owned()]));
}
