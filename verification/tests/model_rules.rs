use myman::models::{EntityType, ListEntitiesRequest, SearchMode};

const ALL_TYPES: [EntityType; 5] = [
    EntityType::Note,
    EntityType::Task,
    EntityType::Event,
    EntityType::Knowledge,
    EntityType::File,
];

#[test]
fn entity_types_read_back_from_their_text() {
    for t in ALL_TYPES {
        assert_eq!(EntityType::from_db_value(t.as_str()).ok(), Some(t));
    }
    assert_eq!(EntityType::Knowledge.as_str(), "knowledge");
}

#[test]
fn rejects_unknown_entity_type_text_naming_it() {
    let error = EntityType::from_db_value("Note").err().expect("case matters");
    assert_eq!(error.message(), "Invalid entity type: Note");
    assert!(EntityType::from_db_value("").is_err());
}

#[test]
fn search_modes_join_with_their_operator() {
    assert_eq!(SearchMode::And.operator(), " AND ");
    assert_eq!(SearchMode::Or.operator(), " OR ");
    assert_eq!(SearchMode::default(), SearchMode::And);
}

#[test]
fn default_listing_is_the_first_page_of_active_entities() {
    let request = ListEntitiesRequest::default();
    assert!(request.entity_type.is_none());
    assert!(request.tag.is_none());
    assert!(!request.archived);
    assert!(request.limit.is_none());
    assert!(request.offset.is_none());
}
