//! The statements that store and change entities: the SQL text and the
//! parameters of each, built from the values a request stores.
use vstd::prelude::*;
use crate::entities::{text_option, StoredFields};
use crate::models::{entity_type_text, EntityType};
use crate::sql::{param_texts, statement_is, step_failure, SqlStatement};
use crate::text::{join_texts, joined, texts};

verus! {

/// Adds an entity.
pub const INSERT_ENTITY: &'static str = "INSERT INTO entities (id, type, title, summary) VALUES (?1, ?2, ?3, ?4)";

/// Adds the content of a new entity.
pub const INSERT_CONTENT: &'static str = "INSERT INTO entity_contents (entity_id, body, format) VALUES (?1, ?2, 'markdown')";

/// Changes the title and summary of an entity that is not archived.
pub const UPDATE_ENTITY: &'static str = "UPDATE entities SET title = ?1, summary = ?2, updated_at = strftime('%Y-%m-%dT%H:%M:%fZ', 'now') WHERE id = ?3 AND archived_at IS NULL";

/// Sets the content of an entity.
pub const REPLACE_CONTENT: &'static str = "INSERT OR REPLACE INTO entity_contents (entity_id, body, format, updated_at) VALUES (?1, ?2, 'markdown', strftime('%Y-%m-%dT%H:%M:%fZ', 'now'))";

/// Removes the content of an entity.
pub const DELETE_CONTENT: &'static str = "DELETE FROM entity_contents WHERE entity_id = ?1";

/// Archives an entity that is not archived.
pub const ARCHIVE_ENTITY: &'static str = "UPDATE entities SET archived_at = strftime('%Y-%m-%dT%H:%M:%fZ', 'now'), updated_at = strftime('%Y-%m-%dT%H:%M:%fZ', 'now') WHERE id = ?1 AND archived_at IS NULL";

/// Restores an archived entity.
pub const RESTORE_ENTITY: &'static str = "UPDATE entities SET archived_at = NULL, updated_at = strftime('%Y-%m-%dT%H:%M:%fZ', 'now') WHERE id = ?1 AND archived_at IS NOT NULL";

/// Removes every tag link of an entity.
pub const CLEAR_ENTITY_TAGS: &'static str = "DELETE FROM entity_tags WHERE entity_id = ?1";

/// Adds a tag unless one has its name.
pub const INSERT_TAG: &'static str = "INSERT OR IGNORE INTO tags (id, name) VALUES (?1, ?2)";

/// The id of the tag with a given name.
pub const TAG_ID: &'static str = "SELECT id FROM tags WHERE name = ?1";

/// Links an entity to a tag unless it is linked already.
pub const LINK_TAG: &'static str = "INSERT OR IGNORE INTO entity_tags (entity_id, tag_id) VALUES (?1, ?2)";

/// Adds the full-text index row of an entity.
pub const INSERT_SEARCH_INDEX: &'static str = "INSERT INTO search_index (entity_id, title, summary, content, tags) VALUES (?1, ?2, ?3, ?4, ?5)";

/// Removes the full-text index row of an entity.
pub const CLEAR_SEARCH_INDEX: &'static str = "DELETE FROM search_index WHERE entity_id = ?1";

/// The number of entities of one type that are not archived.
pub const COUNT_TYPE: &'static str = "SELECT COUNT(*) FROM entities WHERE type = ?1 AND archived_at IS NULL";

/// A copy of an optional text.
pub fn copy_text_option(o: &Option<String>) -> (r: Option<String>)
    ensures
        r == *o,
{
    match o {
        Some(s) => Some(s.clone()),
        None => None,
    }
}

/// The statement that adds an entity: id, type, title, summary.
pub fn insert_entity_statement(id: &str, entity_type: EntityType, fields: &StoredFields) -> (s: SqlStatement)
    ensures
        statement_is(
            s,
            "create entity"@,
            INSERT_ENTITY@,
            seq![Some(id@), Some(entity_type_text(entity_type)), Some(fields.title@), text_option(fields.summary)],
        ),
{
    let mut params: Vec<Option<String>> = Vec::new();
    params.push(Some(id.to_owned()));
    params.push(Some(entity_type.as_str().to_owned()));
    params.push(Some(fields.title.clone()));
    params.push(copy_text_option(&fields.summary));
    let s = SqlStatement { step: "create entity", sql: INSERT_ENTITY, params };
    assert(param_texts(s.params@) =~= seq![Some(id@), Some(entity_type_text(entity_type)), Some(fields.title@), text_option(fields.summary)]);
    s
}

/// The statement that adds a new entity's content: none when it has no content.
pub fn insert_content_statement(id: &str, fields: &StoredFields) -> (s: Option<SqlStatement>)
    ensures
        s is Some <==> fields.content is Some,
        s matches Some(s) ==> statement_is(
            s,
            "create entity content"@,
            INSERT_CONTENT@,
            seq![Some(id@), text_option(fields.content)],
        ),
{
    if fields.content.is_none() {
        return None;
    }
    let mut params: Vec<Option<String>> = Vec::new();
    params.push(Some(id.to_owned()));
    params.push(copy_text_option(&fields.content));
    let s = SqlStatement { step: "create entity content", sql: INSERT_CONTENT, params };
    assert(param_texts(s.params@) =~= seq![Some(id@), text_option(fields.content)]);
    Some(s)
}

/// The statement that changes an entity that is not archived: title, summary, id.
pub fn update_entity_statement(id: &str, fields: &StoredFields) -> (s: SqlStatement)
    ensures
        statement_is(
            s,
            "update entity"@,
            UPDATE_ENTITY@,
            seq![Some(fields.title@), text_option(fields.summary), Some(id@)],
        ),
{
    let mut params: Vec<Option<String>> = Vec::new();
    params.push(Some(fields.title.clone()));
    params.push(copy_text_option(&fields.summary));
    params.push(Some(id.to_owned()));
    let s = SqlStatement { step: "update entity", sql: UPDATE_ENTITY, params };
    assert(param_texts(s.params@) =~= seq![Some(fields.title@), text_option(fields.summary), Some(id@)]);
    s
}

/// The statement that sets a changed entity's content: it is replaced when
/// the request has content, and removed when it has none.
pub fn update_content_statement(id: &str, fields: &StoredFields) -> (s: SqlStatement)
    ensures
        fields.content is Some ==> statement_is(
            s,
            "update entity content"@,
            REPLACE_CONTENT@,
            seq![Some(id@), text_option(fields.content)],
        ),
        fields.content is None ==> statement_is(
            s,
            "remove entity content"@,
            DELETE_CONTENT@,
            seq![Some(id@)],
        ),
{
    let mut params: Vec<Option<String>> = Vec::new();
    params.push(Some(id.to_owned()));
    if fields.content.is_some() {
        params.push(copy_text_option(&fields.content));
        let s = SqlStatement { step: "update entity content", sql: REPLACE_CONTENT, params };
        assert(param_texts(s.params@) =~= seq![Some(id@), text_option(fields.content)]);
        s
    } else {
        let s = SqlStatement { step: "remove entity content", sql: DELETE_CONTENT, params };
        assert(param_texts(s.params@) =~= seq![Some(id@)]);
        s
    }
}

/// A statement that takes one id: `sql`, performing `step`.
pub fn id_statement(step: &'static str, sql: &'static str, id: &str) -> (s: SqlStatement)
    ensures
        statement_is(s, step@, sql@, seq![Some(id@)]),
{
    let mut params: Vec<Option<String>> = Vec::new();
    params.push(Some(id.to_owned()));
    let s = SqlStatement { step, sql, params };
    assert(param_texts(s.params@) =~= seq![Some(id@)]);
    s
}

/// The statement that archives an entity that is not archived.
pub fn archive_statement(id: &str) -> (s: SqlStatement)
    ensures
        statement_is(s, "archive entity"@, ARCHIVE_ENTITY@, seq![Some(id@)]),
{
    id_statement("archive entity", ARCHIVE_ENTITY, id)
}

/// The statement that restores an archived entity.
pub fn restore_statement(id: &str) -> (s: SqlStatement)
    ensures
        statement_is(s, "restore entity"@, RESTORE_ENTITY@, seq![Some(id@)]),
{
    id_statement("restore entity", RESTORE_ENTITY, id)
}

/// The statement that removes an entity's row of the full-text index.
pub fn clear_search_index_statement(id: &str) -> (s: SqlStatement)
    ensures
        statement_is(s, "clear search index"@, CLEAR_SEARCH_INDEX@, seq![Some(id@)]),
{
    id_statement("clear search index", CLEAR_SEARCH_INDEX, id)
}

/// The statement that removes every tag link of an entity.
pub fn clear_tags_statement(entity_id: &str) -> (s: SqlStatement)
    ensures
        statement_is(s, "clear tags"@, CLEAR_ENTITY_TAGS@, seq![Some(entity_id@)]),
{
    id_statement("clear tags", CLEAR_ENTITY_TAGS, entity_id)
}

/// A statement that takes two texts: `sql`, performing `step`.
pub fn pair_statement(step: &'static str, sql: &'static str, first: &str, second: &str) -> (s: SqlStatement)
    ensures
        statement_is(s, step@, sql@, seq![Some(first@), Some(second@)]),
{
    let mut params: Vec<Option<String>> = Vec::new();
    params.push(Some(first.to_owned()));
    params.push(Some(second.to_owned()));
    let s = SqlStatement { step, sql, params };
    assert(param_texts(s.params@) =~= seq![Some(first@), Some(second@)]);
    s
}

/// The statement that adds the tag `name` with the id `tag_id`, unless a tag has that name.
pub fn create_tag_statement(tag_id: &str, name: &str) -> (s: SqlStatement)
    ensures
        statement_is(s, "create tag"@, INSERT_TAG@, seq![Some(tag_id@), Some(name@)]),
{
    pair_statement("create tag", INSERT_TAG, tag_id, name)
}

/// The statement that links an entity to a tag.
pub fn link_tag_statement(entity_id: &str, tag_id: &str) -> (s: SqlStatement)
    ensures
        statement_is(s, "link tag"@, LINK_TAG@, seq![Some(entity_id@), Some(tag_id@)]),
{
    pair_statement("link tag", LINK_TAG, entity_id, tag_id)
}

/// The id that the lookup of a just-created tag found, or the error when it found none.
pub fn loaded_tag_id(found: Option<String>) -> (r: Result<String, String>)
    ensures
        match found {
            Some(id) => r == Ok::<String, String>(id),
            None => r matches Err(m) && m@ == "Failed to load tag: Query returned no rows"@,
        },
{
    match found {
        Some(id) => Ok(id),
        None => {
            let m = step_failure("load tag", "Query returned no rows");
            proof {
                reveal_strlit("Failed to load tag: Query returned no rows");
                reveal_strlit("Failed to ");
                reveal_strlit("load tag");
                reveal_strlit(": ");
                reveal_strlit("Query returned no rows");
                assert(m@ =~= "Failed to load tag: Query returned no rows"@);
            }
            Err(m)
        },
    }
}

/// The statement that adds an entity's row of the full-text index: its id,
/// title, summary, content, and its tags joined by spaces.
pub fn search_index_statement(
    entity_id: &str,
    title: &str,
    summary: &Option<String>,
    content: &Option<String>,
    tags: &Vec<String>,
) -> (s: SqlStatement)
    ensures
        statement_is(
            s,
            "update search index"@,
            INSERT_SEARCH_INDEX@,
            seq![
                Some(entity_id@),
                Some(title@),
                text_option(*summary),
                text_option(*content),
                Some(joined(texts(tags@), " "@)),
            ],
        ),
{
    let mut params: Vec<Option<String>> = Vec::new();
    params.push(Some(entity_id.to_owned()));
    params.push(Some(title.to_owned()));
    params.push(copy_text_option(summary));
    params.push(copy_text_option(content));
    params.push(Some(join_texts(tags, " ")));
    let s = SqlStatement { step: "update search index", sql: INSERT_SEARCH_INDEX, params };
    assert(param_texts(s.params@) =~= seq![
        Some(entity_id@),
        Some(title@),
        text_option(*summary),
        text_option(*content),
        Some(joined(texts(tags@), " "@)),
    ]);
    s
}

/// The entity types whose counts the dashboard shows, in the order of its fields.
pub fn dashboard_types() -> (r: Vec<EntityType>)
    ensures
        r@ == seq![EntityType::Note, EntityType::Task, EntityType::Event, EntityType::Knowledge, EntityType::File],
{
    let mut r: Vec<EntityType> = Vec::new();
    r.push(EntityType::Note);
    r.push(EntityType::Task);
    r.push(EntityType::Event);
    r.push(EntityType::Knowledge);
    r.push(EntityType::File);
    assert(r@ =~= seq![EntityType::Note, EntityType::Task, EntityType::Event, EntityType::Knowledge, EntityType::File]);
    r
}

} // verus!
