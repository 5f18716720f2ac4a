//! The records and requests that the library exchanges with its callers.
use vstd::prelude::*;

verus! {

/// The kinds of record the assistant keeps.
#[derive(Debug, Clone, Copy, PartialEq, Eq, Structural)]
pub enum EntityType {
    Note,
    Task,
    Event,
    Knowledge,
    File,
}

/// The text under which an entity type is stored.
pub open spec fn entity_type_text(t: EntityType) -> Seq<char> {
    match t {
        EntityType::Note => "note"@,
        EntityType::Task => "task"@,
        EntityType::Event => "event"@,
        EntityType::Knowledge => "knowledge"@,
        EntityType::File => "file"@,
    }
}

/// The entity type stored under the text `s`, if any.
pub open spec fn entity_type_of(s: Seq<char>) -> Option<EntityType> {
    if s == "note"@ {
        Some(EntityType::Note)
    } else if s == "task"@ {
        Some(EntityType::Task)
    } else if s == "event"@ {
        Some(EntityType::Event)
    } else if s == "knowledge"@ {
        Some(EntityType::Knowledge)
    } else if s == "file"@ {
        Some(EntityType::File)
    } else {
        None
    }
}

/// The text of a rejected entity type.
pub struct EntityTypeParseError {
    value: String,
}

impl EntityTypeParseError {
    /// The text that was not an entity type.
    pub closed spec fn rejected(self) -> Seq<char> {
        self.value@
    }

    /// The message that describes this error.
    pub fn message(&self) -> (r: String)
        ensures
            r@ == "Invalid entity type: "@ + self.rejected(),
    {
        let mut r = String::from_str("Invalid entity type: ");
        r.append(self.value.as_str());
        r
    }
}

impl EntityType {
    /// The stored text of this entity type.
    pub fn as_str(self) -> (r: &'static str)
        ensures
            r@ == entity_type_text(self),
    {
        match self {
            EntityType::Note => "note",
            EntityType::Task => "task",
            EntityType::Event => "event",
            EntityType::Knowledge => "knowledge",
            EntityType::File => "file",
        }
    }

    /// The entity type stored under `value`, or the error that names `value`.
    pub fn from_db_value(value: &str) -> (r: Result<EntityType, EntityTypeParseError>)
        ensures
            match r {
                Ok(t) => entity_type_of(value@) == Some(t),
                Err(e) => entity_type_of(value@) is None && e.rejected() == value@,
            },
    {
        if crate::text::same_text(value, "note") {
            Ok(EntityType::Note)
        } else if crate::text::same_text(value, "task") {
            Ok(EntityType::Task)
        } else if crate::text::same_text(value, "event") {
            Ok(EntityType::Event)
        } else if crate::text::same_text(value, "knowledge") {
            Ok(EntityType::Knowledge)
        } else if crate::text::same_text(value, "file") {
            Ok(EntityType::File)
        } else {
            Err(EntityTypeParseError { value: value.to_owned() })
        }
    }
}

/// Each entity type is stored under its own text, and that text is read back
/// as the same entity type.
pub proof fn lemma_entity_type_round_trip(t: EntityType)
    ensures
        entity_type_of(entity_type_text(t)) == Some(t),
{
    reveal_strlit("note");
    reveal_strlit("task");
    reveal_strlit("event");
    reveal_strlit("knowledge");
    reveal_strlit("file");
    match t {
        EntityType::Note => {},
        EntityType::Task => {
            assert("task"@[0] != "note"@[0]);
        },
        EntityType::Event => {
            assert("event"@.len() != "note"@.len());
            assert("event"@.len() != "task"@.len());
        },
        EntityType::Knowledge => {
            assert("knowledge"@.len() != "note"@.len());
            assert("knowledge"@.len() != "task"@.len());
            assert("knowledge"@.len() != "event"@.len());
        },
        EntityType::File => {
            assert("file"@[0] != "note"@[0]);
            assert("file"@[0] != "task"@[0]);
            assert("file"@.len() != "event"@.len());
            assert("file"@.len() != "knowledge"@.len());
        },
    }
}

/// A text is read as an entity type only when it is that type's stored text.
pub proof fn lemma_entity_type_text_read_back(s: Seq<char>, t: EntityType)
    requires
        entity_type_of(s) == Some(t),
    ensures
        entity_type_text(t) == s,
{
}

/// A request to create an entity.
#[derive(Debug, Clone)]
pub struct CreateEntityRequest {
    pub entity_type: EntityType,
    pub title: String,
    pub summary: Option<String>,
    pub content: Option<String>,
    pub tags: Vec<String>,
}

/// A request to change an entity.
#[derive(Debug, Clone)]
pub struct UpdateEntityRequest {
    pub id: String,
    pub title: String,
    pub summary: Option<String>,
    pub content: Option<String>,
    pub tags: Vec<String>,
}

/// A request for one page of entities.
#[derive(Debug, Clone)]
pub struct ListEntitiesRequest {
    pub entity_type: Option<EntityType>,
    pub tag: Option<String>,
    pub archived: bool,
    pub limit: Option<u32>,
    pub offset: Option<u32>,
}

impl Default for ListEntitiesRequest {
    /// Every entity that is not archived, first page.
    fn default() -> (r: ListEntitiesRequest)
        ensures
            r.entity_type is None,
            r.tag is None,
            !r.archived,
            r.limit is None,
            r.offset is None,
    {
        ListEntitiesRequest { entity_type: None, tag: None, archived: false, limit: None, offset: None }
    }
}

/// How the words of a search combine.
#[derive(Debug, Clone, Copy, PartialEq, Eq, Structural)]
pub enum SearchMode {
    And,
    Or,
}

impl Default for SearchMode {
    /// Every word must match.
    fn default() -> (r: SearchMode)
        ensures
            r == SearchMode::And,
    {
        SearchMode::And
    }
}

/// The full-text operator that joins the words of a search.
pub open spec fn search_operator(m: SearchMode) -> Seq<char> {
    match m {
        SearchMode::And => " AND "@,
        SearchMode::Or => " OR "@,
    }
}

impl SearchMode {
    /// The full-text operator that joins the words of a search.
    pub fn operator(self) -> (r: &'static str)
        ensures
            r@ == search_operator(self),
    {
        match self {
            SearchMode::And => " AND ",
            SearchMode::Or => " OR ",
        }
    }
}

/// A request for one page of search results.
#[derive(Debug, Clone)]
pub struct SearchEntitiesRequest {
    pub query: String,
    pub search_mode: SearchMode,
    pub entity_type: Option<EntityType>,
    pub tag: Option<String>,
    pub archived: bool,
    pub limit: Option<u32>,
    pub offset: Option<u32>,
}

/// A stored entity as read back.
#[derive(Debug, Clone)]
pub struct Entity {
    pub id: String,
    pub entity_type: EntityType,
    pub title: String,
    pub summary: Option<String>,
    pub content: Option<String>,
    pub tags: Vec<String>,
    pub created_at: String,
    pub updated_at: String,
}

/// One page of entities and the number of entities on all pages, with the
/// queries that were run for them: the count text and parameters, then the
/// page text and parameters.
#[derive(Clone)]
pub struct EntityPage {
    pub items: Vec<Entity>,
    pub total: i64,
    pub plan: Ghost<(Seq<char>, Seq<Seq<char>>, Seq<char>, Seq<Seq<char>>)>,
}

/// The number of active entities of each type, and of reminders due today.
#[derive(Debug, Clone)]
pub struct DashboardSummary {
    pub notes: i64,
    pub tasks: i64,
    pub events: i64,
    pub knowledge: i64,
    pub files: i64,
    pub reminders_due_today: i64,
}

/// A tag and the number of active and of archived entities that carry it.
#[derive(Debug, Clone)]
pub struct TagSummary {
    pub name: String,
    pub active_count: i64,
    pub archived_count: i64,
}

} // verus!
