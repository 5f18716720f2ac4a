//! Tag management: usage counts, renaming, merging and removing unused tags.
use vstd::prelude::*;
use rusqlite::Connection;
use crate::entities::{normalize_filter_tag, normalized_tag, require_changed, text_option};
use crate::models::TagSummary;
use crate::sql::{
    log_extends, reports, statement_sent, Batch, Session, database_failure, failure, message, one_param,
    param_texts, query_failure, statement_is, step_failure,
    SqlStatement,
};
use crate::statements::{copy_text_option, id_statement, pair_statement};

verus! {

/// Each tag with the number of active and of archived entities that carry it,
/// in order of name.
pub const TAG_SUMMARIES: &'static str = "SELECT t.name, COALESCE(SUM(CASE WHEN e.id IS NOT NULL AND e.archived_at IS NULL THEN 1 ELSE 0 END), 0) AS active_count, COALESCE(SUM(CASE WHEN e.id IS NOT NULL AND e.archived_at IS NOT NULL THEN 1 ELSE 0 END), 0) AS archived_count FROM tags t LEFT JOIN entity_tags et ON et.tag_id = t.id LEFT JOIN entities e ON e.id = et.entity_id GROUP BY t.id, t.name ORDER BY t.name";

/// The id of the tag with a given name, whatever its letter case.
pub const FIND_TAG: &'static str = "SELECT id FROM tags WHERE name = ?1 COLLATE NOCASE";

/// The tags of one entity, joined by spaces.
pub const ENTITY_TAG_TEXT: &'static str = "SELECT COALESCE(group_concat(t.name, ' '), '') FROM entity_tags et JOIN tags t ON t.id = et.tag_id WHERE et.entity_id = ?1";

/// The message for a tag name that is blank.
pub open spec fn empty_name_message() -> Seq<char> {
    "Tag name cannot be empty"@
}

/// A tag name as stored and compared: trimmed and lowercased; an error when blank.
pub fn normalize(value: &str) -> (r: Result<String, String>)
    ensures
        match r {
            Ok(n) => normalized_tag(value@) == Some(n@),
            Err(e) => normalized_tag(value@) is None && e@ == empty_name_message(),
        },
{
    match normalize_filter_tag(value) {
        Some(n) => Ok(n),
        None => Err("Tag name cannot be empty".to_owned()),
    }
}

/// Each tag with the number of active and of archived entities that carry it.
pub fn list_tag_summaries(connection: &Connection) -> (r: Result<Vec<TagSummary>, String>)
    ensures
        r matches Err(m) ==> database_failure(m@),
{
    let mut session = Session::open(connection);
    match session.tag_counts(TAG_SUMMARIES) {
        Ok(v) => Ok(summaries_listed(session, v)),
        Err(e) => Err(query_failure(&e, "prepare tag summary query", "list tag summaries", "read tag summaries")),
    }
}

/// The tag summaries that a session read by sending exactly the query of
/// every tag with its active and archived counts.
fn summaries_listed(session: Session, summaries: Vec<TagSummary>) -> (r: Vec<TagSummary>)
    requires
        session.log() == seq![(TAG_SUMMARIES@, Seq::<Option<Seq<char>>>::empty())],
    ensures
        r == summaries,
{
    summaries
}

/// The message for a rename onto a name that a tag already has.
pub open spec fn taken_message(name: Seq<char>) -> Seq<char> {
    "Tag already exists: "@ + name + ". Use merge instead."@
}

/// `Ok(())` when no tag has the new name yet; otherwise the error that says so.
pub fn check_rename_target(existing: &Option<String>, new_name: &str) -> (r: Result<(), String>)
    ensures
        existing is None ==> r is Ok,
        existing is Some ==> (r matches Err(m) && m@ == taken_message(new_name@)),
{
    match existing {
        Some(_) => {
            let mut m = message("Tag already exists: ", new_name);
            m.append(". Use merge instead.");
            Err(m)
        },
        None => Ok(()),
    }
}

/// Renames the tag whose name is `old_name`, whatever its letter case.
pub const RENAME_TAG: &'static str = "UPDATE tags SET name = ?1 WHERE name = ?2 COLLATE NOCASE";

/// Gives the tag `?1` every entity of the tag `?2`, skipping links it has.
pub const MOVE_TAG_LINKS: &'static str = "INSERT OR IGNORE INTO entity_tags (entity_id, tag_id) SELECT entity_id, ?1 FROM entity_tags WHERE tag_id = ?2";

/// Removes every link of a tag.
pub const DELETE_TAG_LINKS: &'static str = "DELETE FROM entity_tags WHERE tag_id = ?1";

/// Removes a tag.
pub const DELETE_TAG: &'static str = "DELETE FROM tags WHERE id = ?1";

/// Renames the tag with a given id.
pub const RENAME_TAG_BY_ID: &'static str = "UPDATE tags SET name = ?1 WHERE id = ?2";

/// Removes every tag that no entity carries.
pub const CLEANUP_TAGS: &'static str = "DELETE FROM tags WHERE NOT EXISTS (SELECT 1 FROM entity_tags et WHERE et.tag_id = tags.id)";

/// The ids of the entities in the full-text index.
pub const INDEXED_ENTITIES: &'static str = "SELECT entity_id FROM search_index";

/// Sets the tags column of an entity's full-text index row.
pub const UPDATE_INDEX_TAGS: &'static str = "UPDATE search_index SET tags = ?1 WHERE entity_id = ?2";

/// The statement that renames the tag `old_name` to `new_name`.
pub fn rename_statement(old_name: &str, new_name: &str) -> (s: SqlStatement)
    ensures
        statement_is(s, "rename tag"@, RENAME_TAG@, seq![Some(new_name@), Some(old_name@)]),
{
    pair_statement("rename tag", RENAME_TAG, new_name, old_name)
}

/// The id of the tag to merge from, or the error when no tag has its name.
pub fn source_tag_id(source: &str, found: Option<String>) -> (r: Result<String, String>)
    ensures
        match found {
            Some(id) => r == Ok::<String, String>(id),
            None => r matches Err(m) && m@ == "Tag not found: "@ + source@,
        },
{
    match found {
        Some(id) => Ok(id),
        None => Err(message("Tag not found: ", source)),
    }
}

/// The statements of a merge from the tag `source_id`. When a tag `target_id`
/// exists: its links gain the source's entities, then the source's links and
/// the source tag are removed. When none exists: the source tag is renamed
/// to `target`.
pub fn merge_statements(target: &str, source_id: &str, target_id: Option<String>) -> (r: Vec<SqlStatement>)
    ensures
        match target_id {
            Some(t) => {
                &&& r@.len() == 3
                &&& statement_is(r@[0], "move tag links"@, MOVE_TAG_LINKS@, seq![Some(t@), Some(source_id@)])
                &&& statement_is(r@[1], "remove old tag links"@, DELETE_TAG_LINKS@, seq![Some(source_id@)])
                &&& statement_is(r@[2], "remove source tag"@, DELETE_TAG@, seq![Some(source_id@)])
            },
            None => {
                &&& r@.len() == 1
                &&& statement_is(r@[0], "rename source tag"@, RENAME_TAG_BY_ID@, seq![Some(target@), Some(source_id@)])
            },
        },
{
    let mut r: Vec<SqlStatement> = Vec::new();
    match target_id {
        Some(t) => {
            r.push(pair_statement("move tag links", MOVE_TAG_LINKS, t.as_str(), source_id));
            r.push(id_statement("remove old tag links", DELETE_TAG_LINKS, source_id));
            r.push(id_statement("remove source tag", DELETE_TAG, source_id));
        },
        None => {
            r.push(pair_statement("rename source tag", RENAME_TAG_BY_ID, target, source_id));
        },
    }
    r
}

/// The statement that removes every tag that no entity carries.
pub fn cleanup_statement() -> (s: SqlStatement)
    ensures
        statement_is(s, "cleanup tags"@, CLEANUP_TAGS@, seq![]),
{
    let s = SqlStatement { step: "cleanup tags", sql: CLEANUP_TAGS, params: Vec::new() };
    assert(param_texts(s.params@) =~= seq![]);
    s
}

/// The number of tags removed, from the number of rows the removal changed.
pub fn removed_count(rows: usize) -> (r: u64)
    ensures
        r == rows,
{
    rows as u64
}

/// The tags text that the lookup of an entity's tags found, or the error when it found none.
pub fn indexed_tags(found: Option<String>) -> (r: Result<String, String>)
    ensures
        match found {
            Some(t) => r == Ok::<String, String>(t),
            None => r matches Err(m) && m@ == "Failed to "@ + "rebuild indexed tags"@ + ": "@
                + "Query returned no rows"@ && database_failure(m@),
        },
{
    match found {
        Some(t) => Ok(t),
        None => Err(step_failure("rebuild indexed tags", "Query returned no rows")),
    }
}

/// The statement that sets the tags column of an entity's full-text index row.
pub fn index_tags_statement(entity_id: &str, tags: &str) -> (s: SqlStatement)
    ensures
        statement_is(s, "update indexed tags"@, UPDATE_INDEX_TAGS@, seq![Some(tags@), Some(entity_id@)]),
{
    pair_statement("update indexed tags", UPDATE_INDEX_TAGS, tags, entity_id)
}

/// The statements of a merge from the tag `source_id`, as handed to the
/// database: when a tag `target_id` exists, its links gain the source's
/// entities, then the source's links and the source tag are removed; when none
/// exists, the source tag is renamed to `target`.
pub open spec fn merge_steps(
    target: Seq<char>,
    source_id: Seq<char>,
    target_id: Option<Seq<char>>,
) -> Seq<(Seq<char>, Seq<Option<Seq<char>>>)> {
    match target_id {
        Some(t) => seq![
            (MOVE_TAG_LINKS@, seq![Some(t), Some(source_id)]),
            (DELETE_TAG_LINKS@, seq![Some(source_id)]),
            (DELETE_TAG@, seq![Some(source_id)]),
        ],
        None => seq![(RENAME_TAG_BY_ID@, seq![Some(target), Some(source_id)])],
    }
}

/// A merge into `target` from the tag `source_id` was sent: its statements, in
/// order, directly followed by the rebuild of the full-text index's tags.
pub open spec fn merge_sent(
    log: Seq<(Seq<char>, Seq<Option<Seq<char>>>)>,
    target: Seq<char>,
    source_id: Seq<char>,
    target_id: Option<Seq<char>>,
) -> bool {
    let steps = merge_steps(target, source_id, target_id);
    exists|k: int|
        {
            &&& 0 <= k
            &&& k + steps.len() < log.len()
            &&& #[trigger] log.subrange(k, k + steps.len()) == steps
            &&& log[k + steps.len()] == (INDEXED_ENTITIES@, Seq::<Option<Seq<char>>>::empty())
        }
}

/// A rename of the tag `old_name` to `new_name` was sent, directly followed by
/// the rebuild of the full-text index's tags.
pub open spec fn rename_sent(
    log: Seq<(Seq<char>, Seq<Option<Seq<char>>>)>,
    old_name: Seq<char>,
    new_name: Seq<char>,
) -> bool {
    exists|k: int|
        {
            &&& 0 <= k
            &&& k + 1 < log.len()
            &&& #[trigger] log[k] == (RENAME_TAG@, seq![Some(new_name), Some(old_name)])
            &&& log[k + 1] == (INDEXED_ENTITIES@, Seq::<Option<Seq<char>>>::empty())
        }
}

/// Commits a merge, once the batch has sent it.
fn commit_merged(batch: Batch, target: &str, source_id: &str, target_id: &Option<String>) -> (r: Result<(), String>)
    requires
        merge_sent(batch.log(), target@, source_id@, text_option(*target_id)),
    ensures
        r matches Err(m) ==> reports(m@, "commit tag merge"@) && database_failure(m@),
{
    match batch.commit() {
        Ok(()) => Ok(()),
        Err(e) => Err(failure("commit tag merge", &e)),
    }
}

/// Commits a rename, once the batch has sent it.
fn commit_renamed(batch: Batch, old_name: &str, new_name: &str) -> (r: Result<(), String>)
    requires
        rename_sent(batch.log(), old_name@, new_name@),
    ensures
        r matches Err(m) ==> reports(m@, "commit tag rename"@) && database_failure(m@),
{
    match batch.commit() {
        Ok(()) => Ok(()),
        Err(e) => Err(failure("commit tag rename", &e)),
    }
}

/// Renames a tag. Both names are normalized first; the new name must differ
/// from the old and be free. The full-text index takes the new name.
pub fn rename_tag(connection: &Connection, old_name: &str, new_name: &str) -> (r: Result<(), String>)
    ensures
        normalized_tag(old_name@) is None || normalized_tag(new_name@) is None ==> (r matches Err(
            m,
        ) && m@ == empty_name_message()),
        (normalized_tag(old_name@) is Some && normalized_tag(new_name@) is Some) ==> ({
            let o = normalized_tag(old_name@).unwrap();
            let n = normalized_tag(new_name@).unwrap();
            if o == n {
                r matches Err(m) && m@ == "New tag name must be different"@
            } else {
                r matches Err(m) ==> {
                    ||| database_failure(m@)
                    ||| m@ == taken_message(n)
                    ||| m@ == "Tag not found: "@ + o
                }
            }
        }),
{
    let old_name = match normalize(old_name) {
        Ok(n) => n,
        Err(e) => return Err(e),
    };
    let new_name = match normalize(new_name) {
        Ok(n) => n,
        Err(e) => return Err(e),
    };
    if crate::text::same_text(old_name.as_str(), new_name.as_str()) {
        return Err("New tag name must be different".to_owned());
    }
    let mut batch = Batch::begin_shared(connection, "start tag rename transaction")?;
    let existing = match batch.find_text(FIND_TAG, &one_param(new_name.as_str())) {
        Ok(found) => found,
        Err(e) => return Err(failure("check target tag", &e)),
    };
    check_rename_target(&existing, new_name.as_str())?;
    let ghost k = batch.log().len() as int;
    let changed = batch.run(&rename_statement(old_name.as_str(), new_name.as_str()))?;
    require_changed(changed, message("Tag not found: ", old_name.as_str()))?;
    refresh_search_index_tags(&mut batch)?;
    assert(batch.log()[k] == (RENAME_TAG@, seq![Some(new_name@), Some(old_name@)]));
    commit_renamed(batch, old_name.as_str(), new_name.as_str())
}

/// Merges the tag `source` into `target`: every entity that carried the source
/// carries the target, once, and the source is gone. When no tag is named
/// `target`, the source is renamed to it. The full-text index follows.
pub fn merge_tags(connection: &Connection, source: &str, target: &str) -> (r: Result<(), String>)
    ensures
        normalized_tag(source@) is None || normalized_tag(target@) is None ==> (r matches Err(m)
            && m@ == empty_name_message()),
        (normalized_tag(source@) is Some && normalized_tag(target@) is Some) ==> ({
            let s = normalized_tag(source@).unwrap();
            let t = normalized_tag(target@).unwrap();
            if s == t {
                r matches Err(m) && m@ == "Source and target tags must differ"@
            } else {
                r matches Err(m) ==> database_failure(m@) || m@ == "Tag not found: "@ + s
            }
        }),
{
    let source = match normalize(source) {
        Ok(n) => n,
        Err(e) => return Err(e),
    };
    let target = match normalize(target) {
        Ok(n) => n,
        Err(e) => return Err(e),
    };
    if crate::text::same_text(source.as_str(), target.as_str()) {
        return Err("Source and target tags must differ".to_owned());
    }
    let mut batch = Batch::begin_shared(connection, "start tag merge transaction")?;
    let found_source = match batch.find_text(FIND_TAG, &one_param(source.as_str())) {
        Ok(found) => found,
        Err(e) => return Err(failure("find source tag", &e)),
    };
    let source_id = source_tag_id(source.as_str(), found_source)?;
    let target_id = match batch.find_text(FIND_TAG, &one_param(target.as_str())) {
        Ok(found) => found,
        Err(e) => return Err(failure("find target tag", &e)),
    };
    let statements = merge_statements(target.as_str(), source_id.as_str(), copy_text_option(&target_id));
    let ghost k = batch.log().len() as int;
    batch.run_all(&statements)?;
    refresh_search_index_tags(&mut batch)?;
    proof {
        let steps = merge_steps(target@, source_id@, text_option(target_id));
        let sent = statements@.map_values(|s: SqlStatement| statement_sent(s));
        assert(sent =~= steps);
        assert(batch.log().subrange(k, k + steps.len()) =~= steps);
    }
    commit_merged(batch, target.as_str(), source_id.as_str(), &target_id)
}

/// Removes every tag that no entity carries, and returns how many were removed.
pub fn cleanup_unused_tags(connection: &Connection) -> (r: Result<u64, String>)
    ensures
        r matches Err(m) ==> database_failure(m@),
{
    let mut session = Session::open(connection);
    let statement = cleanup_statement();
    let rows = session.run(&statement)?;
    assert(param_texts(statement.params@) =~= Seq::<Option<Seq<char>>>::empty());
    Ok(tags_removed(session, rows))
}

/// The number of tags removed by a session that sent exactly the removal of
/// every tag that no entity carries.
fn tags_removed(session: Session, rows: usize) -> (r: u64)
    requires
        session.log() == seq![(CLEANUP_TAGS@, Seq::<Option<Seq<char>>>::empty())],
    ensures
        r == rows,
{
    removed_count(rows)
}

/// Rewrites the tags column of every row of the full-text index from the
/// entity's current tags. The first request it sends is the lookup of the
/// indexed entities.
pub fn refresh_search_index_tags(batch: &mut Batch) -> (r: Result<(), String>)
    ensures
        log_extends(old(batch).log(), final(batch).log()),
        final(batch).log().len() > old(batch).log().len(),
        final(batch).log()[old(batch).log().len() as int] == (
            INDEXED_ENTITIES@,
            Seq::<Option<Seq<char>>>::empty(),
        ),
        r matches Err(m) ==> database_failure(m@),
{
    let ghost start = batch.log();
    let none: Vec<String> = Vec::new();
    let found = batch.find_texts(INDEXED_ENTITIES, &none);
    assert(none@.map_values(|p: String| Some(p@)) =~= Seq::<Option<Seq<char>>>::empty());
    let entity_ids = match found {
        Ok(ids) => ids,
        Err(e) => return Err(query_failure(
            &e,
            "prepare search index refresh",
            "query indexed entities",
            "read indexed entities",
        )),
    };
    let mut i: usize = 0;
    while i < entity_ids.len()
        invariant
            i <= entity_ids.len(),
            start == old(batch).log(),
            log_extends(start, batch.log()),
            batch.log().len() > start.len(),
            batch.log()[start.len() as int] == (INDEXED_ENTITIES@, Seq::<Option<Seq<char>>>::empty()),
        decreases entity_ids.len() - i,
    {
        let entity_id = &entity_ids[i];
        let found = match batch.find_text(ENTITY_TAG_TEXT, &one_param(entity_id.as_str())) {
            Ok(found) => found,
            Err(e) => return Err(failure("rebuild indexed tags", &e)),
        };
        let tags = indexed_tags(found)?;
        batch.run(&index_tags_statement(entity_id.as_str(), tags.as_str()))?;
        i = i + 1;
    }
    Ok(())
}

/// A merge into an existing tag leaves no source tag behind: the source's
/// links are copied to the target, then the source's links are removed, then
/// the source tag itself is deleted, and the full-text index's tags are
/// rebuilt right after. Into a name that no tag has, the source tag is renamed
/// to it, and the index rebuilt right after.
pub proof fn lemma_merge_removes_source(
    log: Seq<(Seq<char>, Seq<Option<Seq<char>>>)>,
    target: Seq<char>,
    source_id: Seq<char>,
    target_id: Option<Seq<char>>,
)
    requires
        merge_sent(log, target, source_id, target_id),
    ensures
        target_id matches Some(t) ==> exists|k: int|
            {
                &&& 0 <= k
                &&& k + 3 < log.len()
                &&& #[trigger] log[k] == (MOVE_TAG_LINKS@, seq![Some(t), Some(source_id)])
                &&& log[k + 1] == (DELETE_TAG_LINKS@, seq![Some(source_id)])
                &&& log[k + 2] == (DELETE_TAG@, seq![Some(source_id)])
                &&& log[k + 3].0 == INDEXED_ENTITIES@
            },
        target_id is None ==> exists|k: int|
            {
                &&& 0 <= k
                &&& k + 1 < log.len()
                &&& #[trigger] log[k] == (RENAME_TAG_BY_ID@, seq![Some(target), Some(source_id)])
                &&& log[k + 1].0 == INDEXED_ENTITIES@
            },
{
    let steps = merge_steps(target, source_id, target_id);
    let k = choose|k: int|
        {
            &&& 0 <= k
            &&& k + steps.len() < log.len()
            &&& #[trigger] log.subrange(k, k + steps.len()) == steps
            &&& log[k + steps.len()] == (INDEXED_ENTITIES@, Seq::<Option<Seq<char>>>::empty())
        };
    assert forall|i: int| 0 <= i < steps.len() implies log[k + i] == steps[i] by {
        assert(log.subrange(k, k + steps.len())[i] == log[k + i]);
    }
    if let Some(t) = target_id {
        assert(log[k + 0] == steps[0]);
        assert(log[k + 1] == steps[1]);
        assert(log[k + 2] == steps[2]);
    } else {
        assert(log[k + 0] == steps[0]);
    }
}

/// A rename is followed directly by the rebuild of the full-text index's tags,
/// so that the index takes the new name.
pub proof fn lemma_rename_refreshes_index(
    log: Seq<(Seq<char>, Seq<Option<Seq<char>>>)>,
    old_name: Seq<char>,
    new_name: Seq<char>,
)
    requires
        rename_sent(log, old_name, new_name),
    ensures
        exists|k: int|
            0 <= k && k + 1 < log.len() && (#[trigger] log[k]).0 == RENAME_TAG@ && log[k].1 == seq![
                Some(new_name),
                Some(old_name),
            ] && log[k + 1].0 == INDEXED_ENTITIES@,
{
    let k = choose|k: int|
        {
            &&& 0 <= k
            &&& k + 1 < log.len()
            &&& #[trigger] log[k] == (RENAME_TAG@, seq![Some(new_name), Some(old_name)])
            &&& log[k + 1] == (INDEXED_ENTITIES@, Seq::<Option<Seq<char>>>::empty())
        };
    assert(log[k].0 == RENAME_TAG@);
}

} // verus!
