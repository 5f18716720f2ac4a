//! Entities: the rules by which a request becomes stored values (titles, tags,
//! search text, pages), and the operations that store and read them.
use vstd::prelude::*;
use crate::models::{
    entity_type_of, entity_type_text, CreateEntityRequest, DashboardSummary, Entity, EntityPage, EntityType,
    EntityTypeParseError, ListEntitiesRequest, SearchEntitiesRequest, UpdateEntityRequest,
};
use crate::sql::{
    given_texts, log_extends, query_sent, Batch, Session, database_failure, failure, message, new_id,
    query_entity_rows, query_failure, reports, one_param, step_failure,
    EntityRow,
};
use crate::queries::{
    entity_select_sql, list_entities_query, list_plan, search_plan, search_query, EntityQuery, ACTIVE_TAGS,
    DUE_REMINDERS, LOAD_FROM,
};
use crate::statements::{
    archive_statement, clear_search_index_statement, clear_tags_statement, create_tag_statement,
    dashboard_types, insert_content_statement, insert_entity_statement, link_tag_statement,
    loaded_tag_id, restore_statement, search_index_statement, update_content_statement,
    update_entity_statement, ARCHIVE_ENTITY, CLEAR_ENTITY_TAGS, RESTORE_ENTITY, CLEAR_SEARCH_INDEX, COUNT_TYPE, DELETE_CONTENT,
    INSERT_CONTENT, INSERT_ENTITY, INSERT_SEARCH_INDEX, REPLACE_CONTENT, TAG_ID, UPDATE_ENTITY,
};
use rusqlite::Connection;
use crate::text::{
    joined, lowercase_of, pieces, strictly_ascending, texts, trimmed, words,
    insert_unique, trim_text, to_lowercase, ascending, insert_sorted, split_text, chars_of,
    push_char, split_words, join_texts, lemma_trimmed_idempotent, lemma_split_joined,
    lemma_strictly_ascending_unique, leading_space, trailing_space, lemma_ascending_unique,
    lemma_text_before_asymmetric, text_before,
};

verus! {

/// The page size when a request names none.
pub const DEFAULT_PAGE_LIMIT: u32 = 50;

/// The largest page size a request can ask for.
pub const MAX_PAGE_LIMIT: u32 = 200;

/// The text of an optional `String`.
pub open spec fn text_option(o: Option<String>) -> Option<Seq<char>> {
    match o {
        Some(s) => Some(s@),
        None => None,
    }
}

/// A tag as it is stored and compared: trimmed, then lowercased; `None` when
/// nothing is left.
pub open spec fn normalized_tag(t: Seq<char>) -> Option<Seq<char>> {
    let n = lowercase_of(trimmed(t));
    if n.len() == 0 {
        None
    } else {
        Some(n)
    }
}

/// The stored tags that a list of requested tags stands for.
pub open spec fn normalized_tags(tags: Seq<Seq<char>>) -> Set<Seq<char>> {
    Set::new(|x: Seq<char>| exists|i: int| 0 <= i < tags.len() && normalized_tag(tags[i]) == Some(x))
}

/// A requested title as stored: trimmed; `None` when it is blank.
pub open spec fn title_of(t: Seq<char>) -> Option<Seq<char>> {
    if trimmed(t).len() == 0 {
        None
    } else {
        Some(trimmed(t))
    }
}

/// An optional text as stored: trimmed; `None` when absent or blank.
pub open spec fn optional_text(o: Option<Seq<char>>) -> Option<Seq<char>> {
    match o {
        Some(v) => if trimmed(v).len() == 0 {
            None
        } else {
            Some(trimmed(v))
        },
        None => None,
    }
}

/// The trimmed, non-blank pieces of `ps`, in order.
pub open spec fn kept_pieces(ps: Seq<Seq<char>>) -> Seq<Seq<char>>
    decreases ps.len(),
{
    if ps.len() == 0 {
        seq![]
    } else {
        let rest = kept_pieces(ps.drop_last());
        let t = trimmed(ps.last());
        if t.len() == 0 {
            rest
        } else {
            rest.push(t)
        }
    }
}

/// A tag as read back: not blank, and with no whitespace at either end.
pub open spec fn clean_tag(t: Seq<char>) -> bool {
    t.len() > 0 && trimmed(t) == t
}

/// The kept pieces of a list are clean tags.
pub proof fn lemma_kept_pieces_clean(ps: Seq<Seq<char>>)
    ensures
        forall|i: int| 0 <= i < kept_pieces(ps).len() ==> clean_tag(#[trigger] kept_pieces(ps)[i]),
    decreases ps.len(),
{
    if ps.len() > 0 {
        lemma_kept_pieces_clean(ps.drop_last());
        lemma_trimmed_idempotent(ps.last());
        let rest = kept_pieces(ps.drop_last());
        assert forall|i: int| 0 <= i < kept_pieces(ps).len() implies clean_tag(
            #[trigger] kept_pieces(ps)[i],
        ) by {
            if i < rest.len() {
                assert(kept_pieces(ps)[i] == rest[i]);
            }
        }
    }
}

/// The tags in a comma-separated list as the database returns it.
pub open spec fn listed_tags(s: Option<Seq<char>>) -> Seq<Seq<char>> {
    match s {
        Some(s) => kept_pieces(pieces(s, ',')),
        None => seq![],
    }
}

/// A search term with each double quote doubled.
pub open spec fn escaped(t: Seq<char>) -> Seq<char>
    decreases t.len(),
{
    if t.len() == 0 {
        seq![]
    } else if t.last() == '"' {
        escaped(t.drop_last()) + seq!['"', '"']
    } else {
        escaped(t.drop_last()).push(t.last())
    }
}

/// A word as a quoted prefix term of a full-text query.
pub open spec fn fts_term(t: Seq<char>) -> Seq<char> {
    seq!['"'] + escaped(t) + seq!['"', '*']
}

/// The full-text query for `q`: one prefix term per word, joined by `operator`.
pub open spec fn fts_query(q: Seq<char>, operator: Seq<char>) -> Seq<char> {
    joined(words(q).map_values(|w: Seq<char>| fts_term(w)), operator)
}

/// The page size for a requested limit: the default when absent, kept within
/// `1..=MAX_PAGE_LIMIT`.
pub open spec fn page_limit(limit: Option<u32>) -> u32 {
    let l = match limit {
        Some(l) => l,
        None => DEFAULT_PAGE_LIMIT,
    };
    if l < 1 {
        1
    } else if l > MAX_PAGE_LIMIT {
        MAX_PAGE_LIMIT
    } else {
        l
    }
}

/// The number of entities to skip for a requested offset.
pub open spec fn page_offset(offset: Option<u32>) -> u32 {
    match offset {
        Some(o) => o,
        None => 0,
    }
}

/// The page size and offset for a request.
pub fn pagination(limit: Option<u32>, offset: Option<u32>) -> (r: (u32, u32))
    ensures
        r.0 == page_limit(limit),
        r.1 == page_offset(offset),
{
    let l = match limit {
        Some(l) => l,
        None => DEFAULT_PAGE_LIMIT,
    };
    let l = if l < 1 {
        1
    } else if l > MAX_PAGE_LIMIT {
        MAX_PAGE_LIMIT
    } else {
        l
    };
    let o = match offset {
        Some(o) => o,
        None => 0,
    };
    (l, o)
}

/// The stored title for a requested one, or the error for a blank title.
pub fn required_title(title: &str) -> (r: Result<String, String>)
    ensures
        match r {
            Ok(t) => title_of(title@) == Some(t@),
            Err(e) => title_of(title@) is None && e@ == "Title is required"@,
        },
{
    let t = trim_text(title);
    if t.as_str().is_empty() {
        return Err("Title is required".to_owned());
    }
    Ok(t)
}

/// The stored form of an optional text: trimmed, and absent when blank.
pub fn optional_trimmed(value: &Option<String>) -> (r: Option<String>)
    ensures
        text_option(r) == optional_text(text_option(*value)),
{
    match value {
        Some(v) => {
            let t = trim_text(v.as_str());
            if t.as_str().is_empty() {
                None
            } else {
                Some(t)
            }
        },
        None => None,
    }
}

/// The stored form of a tag: trimmed and lowercased; `None` when blank.
pub fn normalize_filter_tag(tag: &str) -> (r: Option<String>)
    ensures
        text_option(r) == normalized_tag(tag@),
{
    let t = trim_text(tag);
    let t = to_lowercase(t.as_str());
    if t.as_str().is_empty() {
        None
    } else {
        Some(t)
    }
}

/// The stored tags for a list of requested ones: normalized, without blanks
/// and repeats, in ascending order.
pub fn normalize_tags(tags: &Vec<String>) -> (r: Vec<String>)
    ensures
        strictly_ascending(texts(r@)),
        texts(r@).to_set() == normalized_tags(texts(tags@)),
{
    let mut out: Vec<String> = Vec::new();
    let mut i: usize = 0;
    while i < tags.len()
        invariant
            i <= tags.len(),
            strictly_ascending(texts(out@)),
            texts(out@).to_set() == normalized_tags(texts(tags@).take(i as int)),
        decreases tags.len() - i,
    {
        let ghost before = texts(out@).to_set();
        let n = normalize_filter_tag(tags[i].as_str());
        match n {
            Some(t) => {
                let ghost tv = t@;
                insert_unique(&mut out, t);
                assert(texts(out@).to_set() =~= normalized_tags(texts(tags@).take(i + 1))) by {
                    let pre = texts(tags@).take(i as int);
                    let post = texts(tags@).take(i + 1);
                    assert forall|x: Seq<char>| normalized_tags(post).contains(x) implies texts(out@).to_set().contains(x) by {
                        let j = choose|j: int| 0 <= j < post.len() && normalized_tag(post[j]) == Some(x);
                        if j < i {
                            assert(pre[j] == post[j]);
                            assert(normalized_tags(pre).contains(x));
                        }
                    }
                    assert forall|x: Seq<char>| texts(out@).to_set().contains(x) implies normalized_tags(post).contains(x) by {
                        if x == tv {
                            assert(post[i as int] == tags@[i as int]@);
                        } else {
                            assert(normalized_tags(pre).contains(x));
                            let j = choose|j: int| 0 <= j < pre.len() && normalized_tag(pre[j]) == Some(x);
                            assert(pre[j] == post[j]);
                        }
                    }
                }
            },
            None => {
                assert(texts(out@).to_set() =~= normalized_tags(texts(tags@).take(i + 1))) by {
                    let pre = texts(tags@).take(i as int);
                    let post = texts(tags@).take(i + 1);
                    assert forall|x: Seq<char>| normalized_tags(post).contains(x) implies normalized_tags(pre).contains(x) by {
                        let j = choose|j: int| 0 <= j < post.len() && normalized_tag(post[j]) == Some(x);
                        assert(post[i as int] == tags@[i as int]@);
                        assert(pre[j] == post[j]);
                    }
                    assert forall|x: Seq<char>| normalized_tags(pre).contains(x) implies normalized_tags(post).contains(x) by {
                        let j = choose|j: int| 0 <= j < pre.len() && normalized_tag(pre[j]) == Some(x);
                        assert(pre[j] == post[j]);
                    }
                }
            },
        }
        i += 1;
    }
    assert(texts(tags@).take(tags.len() as int) =~= texts(tags@));
    out
}

/// The tags of a comma-separated list read from the database: trimmed, blanks
/// dropped, sorted. No tag is dropped for being a repeat.
pub fn parse_tags(tags: Option<String>) -> (r: Vec<String>)
    ensures
        ascending(texts(r@)),
        texts(r@).to_multiset() == listed_tags(text_option(tags)).to_multiset(),
        forall|i: int| 0 <= i < r.len() ==> clean_tag(#[trigger] r@[i]@),
{
    let mut out: Vec<String> = Vec::new();
    match tags {
        None => {
            proof {
                broadcast use vstd::seq_lib::group_to_multiset_ensures;
                assert(texts(out@) =~= Seq::<Seq<char>>::empty());
            }
            out
        },
        Some(value) => {
            let parts = split_text(value.as_str(), ',');
            let ghost ps = texts(parts@);
            let mut i: usize = 0;
            proof {
                broadcast use vstd::seq_lib::group_to_multiset_ensures;
                assert(ps.take(0) =~= seq![]);
                assert(texts(out@) =~= Seq::<Seq<char>>::empty());
            }
            while i < parts.len()
                invariant
                    i <= parts.len(),
                    ps == texts(parts@),
                    ascending(texts(out@)),
                    texts(out@).to_multiset() == kept_pieces(ps.take(i as int)).to_multiset(),
                decreases parts.len() - i,
            {
                let t = trim_text(parts[i].as_str());
                assert(ps.take(i + 1).drop_last() =~= ps.take(i as int));
                if !t.as_str().is_empty() {
                    proof {
                        broadcast use vstd::seq_lib::group_to_multiset_ensures;
                    }
                    insert_sorted(&mut out, t);
                }
                i += 1;
            }
            assert(ps.take(parts.len() as int) =~= ps);
            proof {
                lemma_kept_pieces_clean(ps);
                broadcast use vstd::seq_lib::group_to_multiset_ensures;
                assert forall|k: int| 0 <= k < out.len() implies clean_tag(#[trigger] out@[k]@) by {
                    let x = texts(out@)[k];
                    assert(texts(out@).contains(x));
                    assert(texts(out@).to_multiset().count(x) > 0);
                    assert(kept_pieces(ps).contains(x));
                }
            }
            out
        },
    }
}

/// A word as a quoted prefix term: double quotes doubled, then wrapped as `"word"*`.
pub fn quote_term(word: &str) -> (r: String)
    ensures
        r@ == fts_term(word@),
{
    let v = chars_of(word);
    let mut r = String::new();
    push_char(&mut r, '"');
    let mut i: usize = 0;
    assert(v@.take(0) =~= seq![]);
    while i < v.len()
        invariant
            v@ == word@,
            i <= v.len(),
            r@ == seq!['"'] + escaped(v@.take(i as int)),
        decreases v.len() - i,
    {
        let c = v[i];
        assert(v@.take(i + 1).drop_last() =~= v@.take(i as int));
        push_char(&mut r, c);
        if c == '"' {
            push_char(&mut r, '"');
        }
        assert(r@ =~= seq!['"'] + escaped(v@.take(i + 1)));
        i += 1;
    }
    assert(v@.take(v.len() as int) =~= v@);
    push_char(&mut r, '"');
    push_char(&mut r, '*');
    assert(r@ =~= fts_term(word@));
    r
}

/// The full-text query for a search text: each word as a quoted prefix term,
/// the terms joined by `operator`.
pub fn build_fts_query(query: &str, operator: &str) -> (r: String)
    ensures
        r@ == fts_query(query@, operator@),
{
    let ws = split_words(query);
    let mut terms: Vec<String> = Vec::new();
    let mut i: usize = 0;
    while i < ws.len()
        invariant
            i <= ws.len(),
            texts(ws@) == words(query@),
            texts(terms@) == texts(ws@).take(i as int).map_values(|w: Seq<char>| fts_term(w)),
        decreases ws.len() - i,
    {
        let t = quote_term(ws[i].as_str());
        let ghost before = texts(terms@);
        assert(texts(ws@)[i as int] == ws@[i as int]@);
        terms.push(t);
        assert(texts(terms@) =~= before.push(fts_term(texts(ws@)[i as int])));
        assert(texts(terms@) =~= texts(ws@).take(i + 1).map_values(|w: Seq<char>| fts_term(w)));
        i += 1;
    }
    assert(texts(ws@).take(ws.len() as int) =~= texts(ws@));
    join_texts(&terms, operator)
}

/// An entity as read back: its tags are clean and in ascending order.
pub open spec fn entity_well_formed(e: Entity) -> bool {
    &&& ascending(texts(e.tags@))
    &&& forall|i: int| 0 <= i < e.tags.len() ==> clean_tag(#[trigger] e.tags@[i]@)
}

/// Every entity of `v` is well formed.
pub open spec fn all_well_formed(v: Seq<Entity>) -> bool {
    forall|i: int| 0 <= i < v.len() ==> entity_well_formed(#[trigger] v[i])
}

/// Whether the type column of a row holds one of the entity types.
pub open spec fn row_is_valid(row: EntityRow) -> bool {
    entity_type_of(row.entity_type@) is Some
}

/// `e` is the entity that the row `row` holds: the row's columns, its type
/// read as an entity type, and its listed tags parsed and sorted.
pub open spec fn row_entity(row: EntityRow, e: Entity) -> bool {
    &&& entity_type_of(row.entity_type@) == Some(e.entity_type)
    &&& e.id == row.id
    &&& e.title == row.title
    &&& e.summary == row.summary
    &&& e.content == row.content
    &&& e.created_at == row.created_at
    &&& e.updated_at == row.updated_at
    &&& texts(e.tags@).to_multiset() == listed_tags(text_option(row.tags)).to_multiset()
    &&& entity_well_formed(e)
}

/// The message for a row whose type column holds `rejected`, in the step `step`.
pub open spec fn conversion_message(step: Seq<char>, rejected: Seq<char>) -> Seq<char> {
    "Failed to "@ + step + ": "@ + "Conversion error from type Text at index: 1, "@
        + "Invalid entity type: "@ + rejected
}

/// The entity that a row of an entity query holds, or the error for a row
/// whose type column holds no entity type.
pub fn map_entity_row(row: EntityRow) -> (r: Result<Entity, EntityTypeParseError>)
    ensures
        match r {
            Ok(e) => row_entity(row, e),
            Err(err) => !row_is_valid(row) && err.rejected() == row.entity_type@,
        },
{
    let ghost original = row;
    let entity_type = match EntityType::from_db_value(row.entity_type.as_str()) {
        Ok(t) => t,
        Err(e) => return Err(e),
    };
    let e = Entity {
        id: row.id,
        entity_type,
        title: row.title,
        summary: row.summary,
        content: row.content,
        tags: parse_tags(row.tags),
        created_at: row.created_at,
        updated_at: row.updated_at,
    };
    assert(row_entity(original, e));
    Ok(e)
}

/// The message for a row whose type column holds no entity type.
pub fn conversion_failure(step: &str, error: &EntityTypeParseError) -> (r: String)
    ensures
        r@ == conversion_message(step@, error.rejected()),
        reports(r@, step@),
        database_failure(r@),
{
    let mut detail = String::from_str("Conversion error from type Text at index: 1, ");
    let reason = error.message();
    detail.append(reason.as_str());
    let r = step_failure(step, detail.as_str());
    assert(r@ =~= conversion_message(step@, error.rejected()));
    r
}

/// The entities that the rows of an entity query hold, in order. The rows are
/// those read before the first row that could not be read, and `unread` is the
/// error for that row, if any. At the first row whose type column holds no
/// entity type the read fails with the error for it; when every row read has
/// a type, an unread row fails it with `unread`.
pub fn entities_from_rows(rows: Vec<EntityRow>, unread: Option<String>) -> (r: Result<Vec<Entity>, String>)
    ensures
        r is Ok <==> unread is None && forall|i: int| 0 <= i < rows.len() ==> row_is_valid(#[trigger] rows@[i]),
        match r {
            Ok(v) => {
                &&& v.len() == rows.len()
                &&& forall|i: int| 0 <= i < rows.len() ==> row_entity(#[trigger] rows@[i], v@[i])
            },
            Err(m) => {
                ||| exists|i: int|
                    {
                        &&& 0 <= i < rows.len()
                        &&& !row_is_valid(#[trigger] rows@[i])
                        &&& forall|j: int| 0 <= j < i ==> row_is_valid(#[trigger] rows@[j])
                        &&& m@ == conversion_message("read entities"@, rows@[i].entity_type@)
                    }
                ||| (forall|i: int| 0 <= i < rows.len() ==> row_is_valid(#[trigger] rows@[i]))
                    && unread == Some(m)
            },
        },
{
    let ghost rs = rows@;
    let mut rest = rows;
    let mut out: Vec<Entity> = Vec::new();
    while rest.len() > 0
        invariant
            rs == rows@,
            out.len() + rest.len() == rs.len(),
            rest@ == rs.skip(out.len() as int),
            forall|i: int| 0 <= i < out.len() ==> row_entity(#[trigger] rs[i], out@[i]),
            forall|i: int| 0 <= i < out.len() ==> row_is_valid(#[trigger] rs[i]),
        decreases rest.len(),
    {
        let k = out.len();
        let row = rest.remove(0);
        assert(row == rs[k as int]);
        assert(rest@ =~= rs.skip(k + 1));
        match map_entity_row(row) {
            Ok(e) => {
                out.push(e);
            },
            Err(e) => {
                let m = conversion_failure("read entities", &e);
                assert(rs == rows@);
                assert(!row_is_valid(rows@[k as int]));
                assert(forall|j: int| 0 <= j < k ==> row_is_valid(#[trigger] rows@[j]));
                assert(m@ == conversion_message("read entities"@, rows@[k as int].entity_type@));
                return Err(m);
            },
        }
    }
    assert(rs == rows@);
    assert(out.len() == rows.len());
    match unread {
        Some(m) => Err(m),
        None => Ok(out),
    }
}

/// Runs an entity query and reads its rows as entities.
pub fn query_entities(session: &mut Session, sql: &str, params: &Vec<String>) -> (r: Result<
    Vec<Entity>,
    String,
>)
    ensures
        final(session).log() == old(session).log().push(query_sent(sql@, params@)),
        match r {
            Ok(v) => all_well_formed(v@),
            Err(m) => database_failure(m@),
        },
{
    let (rows, unread) = match session.entity_rows(sql, params) {
        Ok(found) => found,
        Err(e) => return Err(query_failure(&e, "prepare entity query", "list entities", "read entities")),
    };
    let unread = match unread {
        Some(e) => Some(failure("read entities", &e)),
        None => None,
    };
    let ghost rs = rows@;
    let r = entities_from_rows(rows, unread);
    if let Ok(v) = &r {
        assert forall|i: int| 0 <= i < v.len() implies entity_well_formed(#[trigger] v@[i]) by {
            assert(row_entity(rs[i], v@[i]));
        }
    }
    r
}

/// Runs a count query.
pub fn query_count(session: &mut Session, sql: &str, params: &Vec<String>) -> (r: Result<
    i64,
    String,
>)
    ensures
        final(session).log() == old(session).log().push(query_sent(sql@, params@)),
        r matches Err(m) ==> reports(m@, "count entities"@) && database_failure(m@),
{
    match session.count(sql, params) {
        Ok(n) => Ok(n),
        Err(e) => Err(failure("count entities", &e)),
    }
}

/// `Ok(())` when a statement changed some row; otherwise the error `missing`.
pub fn require_changed(rows: usize, missing: String) -> (r: Result<(), String>)
    ensures
        rows == 0 ==> r == Err::<(), String>(missing),
        rows > 0 ==> r is Ok,
{
    if rows == 0 {
        Err(missing)
    } else {
        Ok(())
    }
}

/// Reads the entity with the given id.
pub fn load_entity(connection: &Connection, id: &str) -> (r: Result<Entity, String>)
    ensures
        match r {
            Ok(e) => entity_well_formed(e),
            Err(m) => database_failure(m@) || m@ == "Entity not found: "@ + id@,
        },
{
    let sql = entity_select_sql(LOAD_FROM);
    let mut params: Vec<String> = Vec::new();
    params.push(id.to_owned());
    let (rows, unread) = match query_entity_rows(connection, sql.as_str(), &params) {
        Ok(found) => found,
        Err(e) => return Err(query_failure(&e, "load entity", "load entity", "load entity")),
    };
    let unread = match unread {
        Some(e) => Some(failure("load entity", &e)),
        None => None,
    };
    entity_from_rows(id, rows, unread)
}

/// The entity that the first row of a lookup by id holds, or the error for it
/// when its type column holds no entity type. With no row read, the error
/// `unread` for a first row that could not be read, else the not-found error.
pub fn entity_from_rows(id: &str, rows: Vec<EntityRow>, unread: Option<String>) -> (r: Result<Entity, String>)
    ensures
        rows.len() == 0 && unread is Some ==> r == Err::<Entity, String>(unread.unwrap()),
        rows.len() == 0 && unread is None ==> (r matches Err(m) && m@ == "Entity not found: "@ + id@),
        rows.len() > 0 ==> match r {
            Ok(e) => row_entity(rows@[0], e),
            Err(m) => !row_is_valid(rows@[0]) && m@ == conversion_message("load entity"@, rows@[0].entity_type@),
        },
        rows.len() > 0 ==> (r is Ok <==> row_is_valid(rows@[0])),
{
    let mut rows = rows;
    if rows.len() == 0 {
        return match unread {
            Some(m) => Err(m),
            None => Err(message("Entity not found: ", id)),
        };
    }
    let row = rows.remove(0);
    match map_entity_row(row) {
        Ok(e) => Ok(e),
        Err(e) => Err(conversion_failure("load entity", &e)),
    }
}

/// Replaces the tags of an entity: its links are cleared, then each tag is
/// created unless it exists, and linked.
pub fn replace_tags(batch: &mut Batch, entity_id: &str, tags: &Vec<String>) -> (r: Result<(), String>)
    ensures
        log_extends(old(batch).log(), final(batch).log()),
        final(batch).log().len() > old(batch).log().len(),
        final(batch).log()[old(batch).log().len() as int] == (CLEAR_ENTITY_TAGS@, seq![Some(entity_id@)]),
        r matches Err(m) ==> database_failure(m@),
{
    let ghost start = batch.log();
    batch.run(&clear_tags_statement(entity_id))?;
    let mut i: usize = 0;
    while i < tags.len()
        invariant
            i <= tags.len(),
            start == old(batch).log(),
            log_extends(start, batch.log()),
            batch.log().len() > start.len(),
            batch.log()[start.len() as int] == (CLEAR_ENTITY_TAGS@, seq![Some(entity_id@)]),
        decreases tags.len() - i,
    {
        let tag = &tags[i];
        let tag_id = new_id();
        batch.run(&create_tag_statement(tag_id.as_str(), tag.as_str()))?;
        let found = match batch.find_text(TAG_ID, &one_param(tag.as_str())) {
            Ok(found) => found,
            Err(e) => return Err(failure("load tag", &e)),
        };
        let existing = match loaded_tag_id(found) {
            Ok(id) => id,
            Err(m) => {
                proof {
                    reveal_strlit("Failed to load tag: Query returned no rows");
                    reveal_strlit("Failed to ");
                    assert(m@.subrange(0, 10) =~= "Failed to "@);
                }
                return Err(m);
            },
        };
        batch.run(&link_tag_statement(entity_id, existing.as_str()))?;
        i = i + 1;
    }
    Ok(())
}

/// The full-text row of an entity, as handed to the database: its id, title,
/// summary and content, and the tags that `requested` normalizes to, in order,
/// joined by spaces.
pub open spec fn index_row(
    id: Seq<char>,
    title: Seq<char>,
    summary: Option<Seq<char>>,
    content: Option<Seq<char>>,
    requested: Seq<Seq<char>>,
    sent: (Seq<char>, Seq<Option<Seq<char>>>),
) -> bool {
    exists|stored: Seq<Seq<char>>|
        {
            &&& strictly_ascending(stored)
            &&& #[trigger] stored.to_set() == normalized_tags(requested)
            &&& sent == (
                INSERT_SEARCH_INDEX@,
                seq![Some(id), Some(title), summary, content, Some(joined(stored, " "@))],
            )
        }
}

/// Adds the full-text index row of an entity.
pub fn insert_search_index(
    batch: &mut Batch,
    entity_id: &str,
    title: &str,
    summary: &Option<String>,
    content: &Option<String>,
    tags: &Vec<String>,
) -> (r: Result<(), String>)
    ensures
        final(batch).log() == old(batch).log().push(
            (
                INSERT_SEARCH_INDEX@,
                seq![
                    Some(entity_id@),
                    Some(title@),
                    text_option(*summary),
                    text_option(*content),
                    Some(joined(texts(tags@), " "@)),
                ],
            ),
        ),
        r matches Err(m) ==> reports(m@, "update search index"@) && database_failure(m@),
{
    batch.run(&search_index_statement(entity_id, title, summary, content, tags))?;
    Ok(())
}

/// The values that a create or update request stores: the trimmed title, the
/// trimmed optional summary and content, and the normalized tags.
pub struct StoredFields {
    pub title: String,
    pub summary: Option<String>,
    pub content: Option<String>,
    pub tags: Vec<String>,
}

/// The values that a request stores, or the error for a blank title.
pub fn stored_fields(
    title: &str,
    summary: &Option<String>,
    content: &Option<String>,
    tags: &Vec<String>,
) -> (r: Result<StoredFields, String>)
    ensures
        match r {
            Ok(f) => {
                &&& title_of(title@) == Some(f.title@)
                &&& text_option(f.summary) == optional_text(text_option(*summary))
                &&& text_option(f.content) == optional_text(text_option(*content))
                &&& strictly_ascending(texts(f.tags@))
                &&& texts(f.tags@).to_set() == normalized_tags(texts(tags@))
            },
            Err(e) => title_of(title@) is None && e@ == "Title is required"@,
        },
{
    let title = required_title(title)?;
    let summary = optional_trimmed(summary);
    let content = optional_trimmed(content);
    let tags = normalize_tags(tags);
    Ok(StoredFields { title, summary, content, tags })
}

/// What a create of the entity `id` hands the database, as `request` asks:
/// first the entity row, with the request's type and its trimmed title and
/// summary; then, when the request has content, the trimmed content; later the
/// clearing of the entity's tag links; and last its full-text row, made of the
/// same stored values and the normalized tags.
pub open spec fn create_sent(
    log: Seq<(Seq<char>, Seq<Option<Seq<char>>>)>,
    request: CreateEntityRequest,
    id: Seq<char>,
) -> bool {
    let title = title_of(request.title@).unwrap();
    let summary = optional_text(text_option(request.summary));
    let content = optional_text(text_option(request.content));
    &&& log.len() >= 3
    &&& log[0] == (
        INSERT_ENTITY@,
        seq![Some(id), Some(entity_type_text(request.entity_type)), Some(title), summary],
    )
    &&& content is Some ==> log[1] == (INSERT_CONTENT@, seq![Some(id), content])
    &&& exists|k: int| 0 < k < log.len() - 1 && #[trigger] log[k] == (CLEAR_ENTITY_TAGS@, seq![Some(id)])
    &&& index_row(id, title, summary, content, texts(request.tags@), log.last())
}

/// What an update hands the database, as `request` asks: first the new
/// trimmed title and summary, for an entity that is not archived; then its
/// content replaced by the trimmed content, or removed when there is none;
/// then the entity's old full-text row removed; and last, directly after, its
/// new full-text row, made of the stored values and the normalized tags.
pub open spec fn update_sent(log: Seq<(Seq<char>, Seq<Option<Seq<char>>>)>, request: UpdateEntityRequest) -> bool {
    let id = request.id@;
    let title = title_of(request.title@).unwrap();
    let summary = optional_text(text_option(request.summary));
    let content = optional_text(text_option(request.content));
    &&& log.len() >= 4
    &&& log[0] == (UPDATE_ENTITY@, seq![Some(title), summary, Some(id)])
    &&& log[1] == match content {
        Some(c) => (REPLACE_CONTENT@, seq![Some(id), Some(c)]),
        None => (DELETE_CONTENT@, seq![Some(id)]),
    }
    &&& log[log.len() - 2] == (CLEAR_SEARCH_INDEX@, seq![Some(id)])
    &&& index_row(id, title, summary, content, texts(request.tags@), log.last())
}

/// Commits a create, once the batch has sent what the request asks.
fn commit_created(batch: Batch, request: &CreateEntityRequest, id: &str) -> (r: Result<(), String>)
    requires
        create_sent(batch.log(), *request, id@),
    ensures
        r matches Err(m) ==> reports(m@, "commit entity"@) && database_failure(m@),
{
    match batch.commit() {
        Ok(()) => Ok(()),
        Err(e) => Err(failure("commit entity", &e)),
    }
}

/// Commits an update, once the batch has sent what the request asks.
fn commit_updated(batch: Batch, request: &UpdateEntityRequest) -> (r: Result<(), String>)
    requires
        update_sent(batch.log(), *request),
    ensures
        r matches Err(m) ==> reports(m@, "commit entity update"@) && database_failure(m@),
{
    match batch.commit() {
        Ok(()) => Ok(()),
        Err(e) => Err(failure("commit entity update", &e)),
    }
}

/// Creates an entity and reads it back. A blank title is refused before the
/// database is touched; what is sent is `create_sent`.
pub fn create_entity(connection: &mut Connection, request: CreateEntityRequest) -> (r: Result<
    Entity,
    String,
>)
    ensures
        title_of(request.title@) is None ==> (r matches Err(e) && e@ == "Title is required"@),
        title_of(request.title@) is Some ==> match r {
            Ok(e) => entity_well_formed(e),
            Err(m) => database_failure(m@) || "Entity not found: "@.is_prefix_of(m@),
        },
{
    let fields = stored_fields(request.title.as_str(), &request.summary, &request.content, &request.tags)?;
    let id = new_id();
    {
        let mut batch = Batch::begin(connection, "start database transaction")?;
        batch.run(&insert_entity_statement(id.as_str(), request.entity_type, &fields))?;
        if let Some(content) = insert_content_statement(id.as_str(), &fields) {
            batch.run(&content)?;
        }
        let ghost before_tags = batch.log();
        replace_tags(&mut batch, id.as_str(), &fields.tags)?;
        let ghost k = before_tags.len() as int;
        insert_search_index(&mut batch, id.as_str(), fields.title.as_str(), &fields.summary, &fields.content, &fields.tags)?;
        proof {
            let log = batch.log();
            assert(log[k] == (CLEAR_ENTITY_TAGS@, seq![Some(id@)]));
            assert(index_row(
                id@,
                fields.title@,
                text_option(fields.summary),
                text_option(fields.content),
                texts(request.tags@),
                log.last(),
            )) by {
                assert(texts(fields.tags@).to_set() == normalized_tags(texts(request.tags@)));
            }
        }
        commit_created(batch, &request, id.as_str())?;
    }
    proof {
        reveal_strlit("Entity not found: ");
    }
    let r = load_entity(connection, id.as_str());
    assert(r matches Err(m) ==> database_failure(m@) || "Entity not found: "@.is_prefix_of(m@)) by {
        if let Err(m) = r {
            if !database_failure(m@) {
                assert(m@.subrange(0, "Entity not found: "@.len() as int) =~= "Entity not found: "@);
            }
        }
    }
    r
}

/// Changes an entity that is not archived and reads it back. A blank title is
/// refused before the database is touched; what is sent is `update_sent`.
pub fn update_entity(connection: &mut Connection, request: UpdateEntityRequest) -> (r: Result<
    Entity,
    String,
>)
    ensures
        title_of(request.title@) is None ==> (r matches Err(e) && e@ == "Title is required"@),
        title_of(request.title@) is Some ==> match r {
            Ok(e) => entity_well_formed(e),
            Err(m) => database_failure(m@) || m@ == "Entity not found: "@ + request.id@,
        },
{
    let fields = stored_fields(request.title.as_str(), &request.summary, &request.content, &request.tags)?;
    {
        let mut batch = Batch::begin(connection, "start database transaction")?;
        let rows = batch.run(&update_entity_statement(request.id.as_str(), &fields))?;
        require_changed(rows, message("Entity not found: ", request.id.as_str()))?;
        batch.run(&update_content_statement(request.id.as_str(), &fields))?;
        replace_tags(&mut batch, request.id.as_str(), &fields.tags)?;
        let ghost k = batch.log().len() as int;
        batch.run(&clear_search_index_statement(request.id.as_str()))?;
        insert_search_index(
            &mut batch,
            request.id.as_str(),
            fields.title.as_str(),
            &fields.summary,
            &fields.content,
            &fields.tags,
        )?;
        proof {
            let log = batch.log();
            assert(log[log.len() - 2] == (CLEAR_SEARCH_INDEX@, seq![Some(request.id@)]));
            assert(index_row(
                request.id@,
                fields.title@,
                text_option(fields.summary),
                text_option(fields.content),
                texts(request.tags@),
                log.last(),
            )) by {
                assert(texts(fields.tags@).to_set() == normalized_tags(texts(request.tags@)));
            }
        }
        commit_updated(batch, &request)?;
    }
    load_entity(connection, request.id.as_str())
}

/// The outcome of an archive that sent exactly the archive of `id`: an error
/// when it changed no row.
fn archived(session: Session, id: &str, rows: usize) -> (r: Result<(), String>)
    requires
        session.log() == seq![(ARCHIVE_ENTITY@, seq![Some(id@)])],
    ensures
        rows == 0 ==> (r matches Err(m) && m@ == "Entity not found or already archived: "@ + id@),
        rows > 0 ==> r is Ok,
{
    require_changed(rows, message("Entity not found or already archived: ", id))
}

/// The outcome of a restore that sent exactly the restore of `id`: an error
/// when it changed no row.
fn restored(session: Session, id: &str, rows: usize) -> (r: Result<(), String>)
    requires
        session.log() == seq![(RESTORE_ENTITY@, seq![Some(id@)])],
    ensures
        rows == 0 ==> (r matches Err(m) && m@ == "Entity not found or not archived: "@ + id@),
        rows > 0 ==> r is Ok,
{
    require_changed(rows, message("Entity not found or not archived: ", id))
}

/// Archives an entity that is not archived yet: it sends exactly the
/// statement that sets the archive time of `id` when it is not set.
pub fn archive_entity(connection: &Connection, id: &str) -> (r: Result<(), String>)
    ensures
        r matches Err(m) ==> reports(m@, "archive entity"@) && database_failure(m@) || m@
            == "Entity not found or already archived: "@ + id@,
{
    let mut session = Session::open(connection);
    let rows = session.run(&archive_statement(id))?;
    archived(session, id, rows)
}

/// Restores an archived entity: it sends exactly the statement that clears
/// the archive time of `id` when it is set.
pub fn restore_entity(connection: &Connection, id: &str) -> (r: Result<(), String>)
    ensures
        r matches Err(m) ==> reports(m@, "restore entity"@) && database_failure(m@) || m@
            == "Entity not found or not archived: "@ + id@,
{
    let mut session = Session::open(connection);
    let rows = session.run(&restore_statement(id))?;
    restored(session, id, rows)
}

/// The queries that a session ran for a page: the count query, then the page
/// query, each as its text and the texts of its parameters.
pub open spec fn plan_of(
    log: Seq<(Seq<char>, Seq<Option<Seq<char>>>)>,
) -> (Seq<char>, Seq<Seq<char>>, Seq<char>, Seq<Seq<char>>) {
    (log[0].0, given_texts(log[0].1), log[1].0, given_texts(log[1].1))
}

/// The page of `items` out of `total`, recording the count and page queries
/// that `session` ran for them.
fn page_of(session: Session, items: Vec<Entity>, total: i64) -> (p: EntityPage)
    requires
        session.log().len() == 2,
    ensures
        p.items == items,
        p.total == total,
        p.plan@ == plan_of(session.log()),
{
    EntityPage { items, total, plan: Ghost(plan_of(session.log())) }
}

/// Runs the count and page queries of a listing or search; the page records them.
pub fn run_entity_query(connection: &Connection, query: &EntityQuery) -> (r: Result<EntityPage, String>)
    ensures
        match r {
            Ok(page) => all_well_formed(page.items@) && page.plan@ == query@,
            Err(m) => database_failure(m@),
        },
{
    let mut session = Session::open(connection);
    let total = query_count(&mut session, query.count_sql.as_str(), &query.count_params)?;
    let items = query_entities(&mut session, query.page_sql.as_str(), &query.page_params)?;
    proof {
        let log = session.log();
        assert(given_texts(log[0].1) =~= texts(query.count_params@));
        assert(given_texts(log[1].1) =~= texts(query.page_params@));
    }
    Ok(page_of(session, items, total))
}

/// One page of entities that pass the request's filters, the most recently
/// updated first, and the number of entities on all pages: the queries
/// `list_plan(request)`, run.
pub fn list_entities(connection: &Connection, request: ListEntitiesRequest) -> (r: Result<
    EntityPage,
    String,
>)
    ensures
        match r {
            Ok(page) => all_well_formed(page.items@) && page.plan@ == list_plan(request),
            Err(m) => database_failure(m@),
        },
{
    run_entity_query(connection, &list_entities_query(&request))
}

/// One page of entities that match the search text and pass the request's
/// filters, best match first, and the number of matches on all pages: the
/// queries `search_plan(request)`, run. A blank search text lists with the
/// same filters and page (`lemma_blank_search_is_listing`).
pub fn search_entities(connection: &Connection, request: SearchEntitiesRequest) -> (r: Result<
    EntityPage,
    String,
>)
    ensures
        match r {
            Ok(page) => all_well_formed(page.items@) && page.plan@ == search_plan(request),
            Err(m) => database_failure(m@),
        },
{
    run_entity_query(connection, &search_query(&request))
}

/// The names of the tags that some entity that is not archived carries, in order.
pub fn list_tags(connection: &Connection) -> (r: Result<Vec<String>, String>)
    ensures
        r matches Err(m) ==> database_failure(m@),
{
    let mut session = Session::open(connection);
    let params: Vec<String> = Vec::new();
    let found = session.texts(ACTIVE_TAGS, &params);
    assert(params@.map_values(|p: String| Some(p@)) =~= Seq::<Option<Seq<char>>>::empty());
    match found {
        Ok(tags) => Ok(tags_listed(session, tags)),
        Err(e) => Err(query_failure(&e, "prepare tag query", "list tags", "read tags")),
    }
}

/// The tag names that a session read by sending exactly the query of the
/// tags of active entities.
fn tags_listed(session: Session, tags: Vec<String>) -> (r: Vec<String>)
    requires
        session.log() == seq![(ACTIVE_TAGS@, Seq::<Option<Seq<char>>>::empty())],
    ensures
        r == tags,
{
    tags
}

/// The number of entities of one type that are not archived.
pub fn count_type(session: &mut Session, entity_type: EntityType) -> (r: Result<i64, String>)
    ensures
        final(session).log() == old(session).log().push(
            (COUNT_TYPE@, seq![Some(entity_type_text(entity_type))]),
        ),
        r matches Err(m) ==> database_failure(m@),
{
    let param = one_param(entity_type.as_str());
    let r = session.count(COUNT_TYPE, &param);
    assert(param@.map_values(|p: String| Some(p@)) =~= seq![Some(entity_type_text(entity_type))]);
    match r {
        Ok(n) => Ok(n),
        Err(e) => {
            let step = message("count ", entity_type.as_str());
            Err(failure(step.as_str(), &e))
        },
    }
}

/// The count query of one entity type, as handed to the database.
pub open spec fn type_count_sent(t: EntityType) -> (Seq<char>, Seq<Option<Seq<char>>>) {
    (COUNT_TYPE@, seq![Some(entity_type_text(t))])
}

/// What the dashboard sends: the count of reminders due, then the count of
/// each entity type in the order of the dashboard's fields.
pub open spec fn dashboard_sent(log: Seq<(Seq<char>, Seq<Option<Seq<char>>>)>) -> bool {
    log == seq![
        (DUE_REMINDERS@, Seq::<Option<Seq<char>>>::empty()),
        type_count_sent(EntityType::Note),
        type_count_sent(EntityType::Task),
        type_count_sent(EntityType::Event),
        type_count_sent(EntityType::Knowledge),
        type_count_sent(EntityType::File),
    ]
}

/// The dashboard of counts that a session read in the order `dashboard_sent` asks.
fn dashboard_of(session: Session, counts: &Vec<i64>, reminders_due_today: i64) -> (r: DashboardSummary)
    requires
        counts.len() == 5,
        dashboard_sent(session.log()),
    ensures
        r.notes == counts@[0],
        r.tasks == counts@[1],
        r.events == counts@[2],
        r.knowledge == counts@[3],
        r.files == counts@[4],
        r.reminders_due_today == reminders_due_today,
{
    dashboard_from_counts(counts, reminders_due_today)
}

/// The dashboard made of the counts of `dashboard_types()`, in order, and the
/// number of reminders due.
pub fn dashboard_from_counts(counts: &Vec<i64>, reminders_due_today: i64) -> (r: DashboardSummary)
    requires
        counts.len() == 5,
    ensures
        r.notes == counts@[0],
        r.tasks == counts@[1],
        r.events == counts@[2],
        r.knowledge == counts@[3],
        r.files == counts@[4],
        r.reminders_due_today == reminders_due_today,
{
    DashboardSummary {
        notes: counts[0],
        tasks: counts[1],
        events: counts[2],
        knowledge: counts[3],
        files: counts[4],
        reminders_due_today,
    }
}

/// The number of active entities of each type, and of reminders due today or earlier.
pub fn dashboard_summary(connection: &Connection) -> (r: Result<DashboardSummary, String>)
    ensures
        r matches Err(m) ==> database_failure(m@),
{
    let mut session = Session::open(connection);
    let none: Vec<String> = Vec::new();
    let reminders = session.count(DUE_REMINDERS, &none);
    assert(none@.map_values(|p: String| Some(p@)) =~= Seq::<Option<Seq<char>>>::empty());
    let reminders_due_today = match reminders {
        Ok(n) => n,
        Err(e) => return Err(failure("count reminders", &e)),
    };
    let types = dashboard_types();
    let ghost start = session.log();
    let mut counts: Vec<i64> = Vec::new();
    let mut i: usize = 0;
    while i < types.len()
        invariant
            i <= types.len(),
            types.len() == 5,
            counts.len() == i,
            session.log() == start + types@.subrange(0, i as int).map_values(|t: EntityType| type_count_sent(t)),
        decreases types.len() - i,
    {
        let n = count_type(&mut session, types[i])?;
        assert(types@.subrange(0, i + 1).map_values(|t: EntityType| type_count_sent(t))
            =~= types@.subrange(0, i as int).map_values(|t: EntityType| type_count_sent(t)).push(
            type_count_sent(types@[i as int]),
        ));
        counts.push(n);
        i = i + 1;
    }
    assert(types@.subrange(0, 5) =~= types@);
    assert(session.log() =~= seq![
        (DUE_REMINDERS@, Seq::<Option<Seq<char>>>::empty()),
        type_count_sent(EntityType::Note),
        type_count_sent(EntityType::Task),
        type_count_sent(EntityType::Event),
        type_count_sent(EntityType::Knowledge),
        type_count_sent(EntityType::File),
    ]);
    Ok(dashboard_of(session, &counts, reminders_due_today))
}

/// Each field of the dashboard counts its own entity type: the n-th type
/// count sent is the count of the type of the n-th field, and the reminders
/// are counted first.
pub proof fn lemma_dashboard_counts_each_type(log: Seq<(Seq<char>, Seq<Option<Seq<char>>>)>)
    requires
        dashboard_sent(log),
    ensures
        log.len() == 6,
        log[0].0 == DUE_REMINDERS@,
        forall|i: int| 1 <= i < 6 ==> (#[trigger] log[i]).0 == COUNT_TYPE@,
        log[1].1 == seq![Some("note"@)],
        log[2].1 == seq![Some("task"@)],
        log[3].1 == seq![Some("event"@)],
        log[4].1 == seq![Some("knowledge"@)],
        log[5].1 == seq![Some("file"@)],
{
}

/// Clean pieces are kept as they are.
pub proof fn lemma_kept_pieces_of_clean(ps: Seq<Seq<char>>)
    requires
        forall|i: int| 0 <= i < ps.len() ==> clean_tag(#[trigger] ps[i]),
    ensures
        kept_pieces(ps) == ps,
    decreases ps.len(),
{
    if ps.len() > 0 {
        let d = ps.drop_last();
        assert forall|i: int| 0 <= i < d.len() implies clean_tag(#[trigger] d[i]) by {
            assert(d[i] == ps[i]);
        }
        lemma_kept_pieces_of_clean(d);
        assert(clean_tag(ps[ps.len() - 1]));
        assert(d.push(ps.last()) =~= ps);
    }
}

/// Clean tags without commas, joined by commas as the database lists them,
/// read back as the same tags in the same order.
pub proof fn lemma_tags_read_back(tags: Seq<Seq<char>>)
    requires
        forall|i: int| 0 <= i < tags.len() ==> clean_tag(#[trigger] tags[i]) && !tags[i].contains(','),
    ensures
        listed_tags(Some(joined(tags, ","@))) == tags,
{
    reveal_strlit(",");
    assert(","@ =~= seq![',']);
    if tags.len() == 0 {
        assert(pieces(seq![], ',') =~= seq![Seq::<char>::empty()]);
        let e = Seq::<char>::empty();
        assert(leading_space(e) == 0);
        assert(trimmed(e) =~= e);
        assert(trailing_space(e) == 0);
        assert(trimmed(seq![e].last()).len() == 0);
        assert(seq![e].drop_last() =~= Seq::<Seq<char>>::empty());
        assert(kept_pieces(seq![e].drop_last()) =~= Seq::<Seq<char>>::empty());
        assert(kept_pieces(seq![e]) =~= Seq::<Seq<char>>::empty());
    } else {
        lemma_split_joined(tags, ',');
        lemma_kept_pieces_of_clean(tags);
    }
}

/// The page size is within `1..=MAX_PAGE_LIMIT`, and is the default when no
/// limit is asked for; the offset is 0 when none is asked for.
pub proof fn lemma_page_bounds(limit: Option<u32>, offset: Option<u32>)
    ensures
        1 <= page_limit(limit) <= MAX_PAGE_LIMIT,
        limit is None ==> page_limit(limit) == DEFAULT_PAGE_LIMIT,
        (limit is Some && 1 <= limit.unwrap() <= MAX_PAGE_LIMIT) ==> page_limit(limit) == limit.unwrap(),
        offset is None ==> page_offset(offset) == 0,
{
}

/// Two requests whose tags normalize to the same set store the same tags: the
/// order, letter case, surrounding spaces and repeats of requested tags do not
/// matter.
pub proof fn lemma_stored_tags_determined(
    requested_a: Seq<Seq<char>>,
    requested_b: Seq<Seq<char>>,
    stored_a: Seq<Seq<char>>,
    stored_b: Seq<Seq<char>>,
)
    requires
        strictly_ascending(stored_a),
        stored_a.to_set() == normalized_tags(requested_a),
        strictly_ascending(stored_b),
        stored_b.to_set() == normalized_tags(requested_b),
        normalized_tags(requested_a) == normalized_tags(requested_b),
    ensures
        stored_a == stored_b,
{
    lemma_strictly_ascending_unique(stored_a, stored_b);
}

/// Stored tags read back as themselves: when clean, comma-free tags in
/// ascending order are listed joined by commas, in whatever order the database
/// lists them, the sorted tags that `parse_tags` makes of the list are exactly
/// the stored tags.
pub proof fn lemma_parsed_tags_equal_stored(
    stored: Seq<Seq<char>>,
    listed: Seq<Seq<char>>,
    parsed: Seq<Seq<char>>,
)
    requires
        strictly_ascending(stored),
        forall|i: int| 0 <= i < stored.len() ==> clean_tag(#[trigger] stored[i]) && !stored[i].contains(','),
        listed.to_multiset() == stored.to_multiset(),
        ascending(parsed),
        parsed.to_multiset() == listed_tags(Some(joined(listed, ","@))).to_multiset(),
    ensures
        parsed == stored,
{
    broadcast use vstd::seq_lib::group_to_multiset_ensures;

    assert forall|i: int| 0 <= i < listed.len() implies clean_tag(#[trigger] listed[i])
        && !listed[i].contains(',') by {
        assert(listed.to_multiset().count(listed[i]) > 0);
        assert(stored.to_multiset().count(listed[i]) > 0);
        assert(stored.contains(listed[i]));
        let k = choose|k: int| 0 <= k < stored.len() && stored[k] == listed[i];
        assert(clean_tag(stored[k]) && !stored[k].contains(','));
    }
    lemma_tags_read_back(listed);
    assert forall|i: int, j: int| 0 <= i < j < stored.len() implies !text_before(
        #[trigger] stored[j],
        #[trigger] stored[i],
    ) by {
        lemma_text_before_asymmetric(stored[i], stored[j]);
    }
    lemma_ascending_unique(parsed, stored);
}

/// A create stores what the request asks: the entity row carries the
/// request's type and its trimmed title and summary, the content row (when
/// the request has content) its trimmed content, and the full-text row, sent
/// last, indexes the very title, summary and content that were stored.
pub proof fn lemma_create_stores_request(
    log: Seq<(Seq<char>, Seq<Option<Seq<char>>>)>,
    request: CreateEntityRequest,
    id: Seq<char>,
)
    requires
        title_of(request.title@) is Some,
        create_sent(log, request, id),
    ensures
        log[0].0 == INSERT_ENTITY@,
        log[0].1[1] == Some(entity_type_text(request.entity_type)),
        log[0].1[2] == title_of(request.title@),
        log[0].1[3] == optional_text(text_option(request.summary)),
        optional_text(text_option(request.content)) is Some ==> log[1] == (
            INSERT_CONTENT@,
            seq![Some(id), optional_text(text_option(request.content))],
        ),
        log.last().0 == INSERT_SEARCH_INDEX@,
        log.last().1[0] == Some(id),
        log.last().1[1] == log[0].1[2],
        log.last().1[2] == log[0].1[3],
        log.last().1[3] == optional_text(text_option(request.content)),
{
    let stored = choose|stored: Seq<Seq<char>>|
        {
            &&& strictly_ascending(stored)
            &&& #[trigger] stored.to_set() == normalized_tags(texts(request.tags@))
            &&& log.last() == (
                INSERT_SEARCH_INDEX@,
                seq![
                    Some(id),
                    Some(title_of(request.title@).unwrap()),
                    optional_text(text_option(request.summary)),
                    optional_text(text_option(request.content)),
                    Some(joined(stored, " "@)),
                ],
            )
        };
}

/// An update leaves the entity one full-text row, built from the new values:
/// its old row is removed, and the only request after that removal writes the
/// new row, with the request's trimmed title, summary and content and its
/// normalized tags. The entity row takes the same title and summary.
pub proof fn lemma_update_replaces_index_row(
    log: Seq<(Seq<char>, Seq<Option<Seq<char>>>)>,
    request: UpdateEntityRequest,
)
    requires
        title_of(request.title@) is Some,
        update_sent(log, request),
    ensures
        exists|k: int|
            0 <= k < log.len() && #[trigger] log[k] == (CLEAR_SEARCH_INDEX@, seq![Some(request.id@)])
                && forall|j: int| k < j < log.len() ==> (#[trigger] log[j]).0 == INSERT_SEARCH_INDEX@ ==> j == log.len() - 1,
        log.last().0 == INSERT_SEARCH_INDEX@,
        log.last().1[0] == Some(request.id@),
        log.last().1[1] == title_of(request.title@),
        log.last().1[2] == optional_text(text_option(request.summary)),
        log.last().1[3] == optional_text(text_option(request.content)),
        log[0] == (UPDATE_ENTITY@, seq![log.last().1[1], log.last().1[2], Some(request.id@)]),
{
    let k = log.len() - 2;
    assert(log[k] == (CLEAR_SEARCH_INDEX@, seq![Some(request.id@)]));
    let stored = choose|stored: Seq<Seq<char>>|
        {
            &&& strictly_ascending(stored)
            &&& #[trigger] stored.to_set() == normalized_tags(texts(request.tags@))
            &&& log.last() == (
                INSERT_SEARCH_INDEX@,
                seq![
                    Some(request.id@),
                    Some(title_of(request.title@).unwrap()),
                    optional_text(text_option(request.summary)),
                    optional_text(text_option(request.content)),
                    Some(joined(stored, " "@)),
                ],
            )
        };
}

} // verus!
