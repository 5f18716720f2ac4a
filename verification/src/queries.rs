//! The SQL text and parameters of the entity list and search queries.
use vstd::prelude::*;
use crate::models::{
    entity_type_text, search_operator, EntityType, ListEntitiesRequest, SearchEntitiesRequest,
    SearchMode,
};
use crate::entities::{
    build_fts_query, fts_query, normalize_filter_tag, normalized_tag, normalized_tags, page_limit,
    page_offset, pagination, text_option,
};
use crate::statements::copy_text_option;
use crate::text::{decimal, decimal_text, texts, trim_text, trimmed};

verus! {

/// The columns that every entity query selects, in the order `EntityRow` reads them.
pub const ENTITY_SELECT_COLUMNS: &'static str = "SELECT e.id, e.type, e.title, e.summary, c.body, COALESCE(group_concat(t.name, ','), '') AS tags, e.created_at, e.updated_at";

/// The tables that a listing reads, up to its conditions.
pub const LIST_FROM: &'static str = "FROM entities e LEFT JOIN entity_contents c ON c.entity_id = e.id LEFT JOIN entity_tags et ON et.entity_id = e.id LEFT JOIN tags t ON t.id = et.tag_id WHERE ";

/// The tables and condition that read one entity by id.
pub const LOAD_FROM: &'static str = "FROM entities e LEFT JOIN entity_contents c ON c.entity_id = e.id LEFT JOIN entity_tags et ON et.entity_id = e.id LEFT JOIN tags t ON t.id = et.tag_id WHERE e.id = ?1 GROUP BY e.id";





/// The names of the tags that some entity that is not archived carries.
pub const ACTIVE_TAGS: &'static str = "SELECT DISTINCT t.name FROM tags t JOIN entity_tags et ON et.tag_id = t.id JOIN entities e ON e.id = et.entity_id WHERE e.archived_at IS NULL ORDER BY t.name";

/// The number of reminders not yet triggered, due today or earlier, of active entities.
pub const DUE_REMINDERS: &'static str = "SELECT COUNT(*) FROM reminders r JOIN entities e ON e.id = r.entity_id WHERE r.triggered_at IS NULL AND e.archived_at IS NULL AND date(r.remind_at, 'localtime') <= date('now', 'localtime')";

/// The count of a listing, up to its conditions.
pub const LIST_COUNT: &'static str = "SELECT COUNT(*) FROM entities e WHERE ";

/// The order and page of a listing: the most recently updated first.
pub const LIST_PAGE: &'static str = " GROUP BY e.id ORDER BY e.updated_at DESC LIMIT ? OFFSET ?";

/// The tables that a search reads, up to its conditions after the full-text match.
pub const SEARCH_FROM: &'static str = "FROM search_index si JOIN entities e ON e.id = si.entity_id LEFT JOIN entity_contents c ON c.entity_id = e.id LEFT JOIN entity_tags et ON et.entity_id = e.id LEFT JOIN tags t ON t.id = et.tag_id WHERE search_index MATCH ? AND ";

/// The count of a search, up to its conditions after the full-text match.
pub const SEARCH_COUNT: &'static str = "SELECT COUNT(DISTINCT e.id) FROM search_index si JOIN entities e ON e.id = si.entity_id WHERE search_index MATCH ? AND ";

/// The order and page of a search: the best full-text rank first.
pub const SEARCH_PAGE: &'static str = " GROUP BY e.id ORDER BY rank LIMIT ? OFFSET ?";

/// The condition on entity type.
pub const TYPE_FILTER: &'static str = " AND e.type = ?";

/// The condition on a tag.
pub const TAG_FILTER: &'static str = " AND e.id IN (SELECT et2.entity_id FROM entity_tags et2 JOIN tags t2 ON t2.id = et2.tag_id WHERE t2.name = ?)";

/// The condition that keeps archived entities (`true`) or the others (`false`).
pub open spec fn archive_condition_text(archived: bool) -> Seq<char> {
    if archived {
        "e.archived_at IS NOT NULL"@
    } else {
        "e.archived_at IS NULL"@
    }
}

/// The tag that a requested tag filter compares with: `None` when absent or blank.
pub open spec fn tag_filter(tag: Option<Seq<char>>) -> Option<Seq<char>> {
    match tag {
        Some(t) => normalized_tag(t),
        None => None,
    }
}

/// The conditions for an entity type and a tag filter.
pub open spec fn filter_clause(entity_type: Option<EntityType>, tag: Option<Seq<char>>) -> Seq<char> {
    (if entity_type is Some {
        TYPE_FILTER@
    } else {
        seq![]
    }) + (if tag_filter(tag) is Some {
        TAG_FILTER@
    } else {
        seq![]
    })
}

/// The parameters of the conditions for an entity type and a tag filter.
pub open spec fn filter_params(entity_type: Option<EntityType>, tag: Option<Seq<char>>) -> Seq<Seq<char>> {
    (match entity_type {
        Some(t) => seq![entity_type_text(t)],
        None => seq![],
    }) + (match tag_filter(tag) {
        Some(n) => seq![n],
        None => seq![],
    })
}

/// The parameters of a page: its size and offset as decimal text.
pub open spec fn paging_params(limit: Option<u32>, offset: Option<u32>) -> Seq<Seq<char>> {
    seq![decimal(page_limit(limit) as nat), decimal(page_offset(offset) as nat)]
}

/// The columns of an entity query followed by `from`.
pub open spec fn select_sql(from: Seq<char>) -> Seq<char> {
    ENTITY_SELECT_COLUMNS@ + " "@ + from
}

/// The columns that every entity query selects.
pub fn entity_select_columns() -> (r: &'static str)
    ensures
        r@ == ENTITY_SELECT_COLUMNS@,
{
    ENTITY_SELECT_COLUMNS
}

/// An entity query: the selected columns, then `from_clause`.
pub fn entity_select_sql(from_clause: &str) -> (r: String)
    ensures
        r@ == select_sql(from_clause@),
{
    let mut r = String::from_str(entity_select_columns());
    r.append(" ");
    r.append(from_clause);
    r
}

/// The condition that keeps archived entities (`true`) or the others (`false`).
pub fn archive_condition(archived: bool) -> (r: &'static str)
    ensures
        r@ == archive_condition_text(archived),
{
    if archived {
        "e.archived_at IS NOT NULL"
    } else {
        "e.archived_at IS NULL"
    }
}

/// Appends the archive condition to `sql`.
pub fn append_archive_filter(sql: &mut String, archived: bool)
    ensures
        final(sql)@ == old(sql)@ + archive_condition_text(archived),
{
    sql.append(archive_condition(archived));
}

/// Appends the conditions for an entity type and a tag filter to `sql`, and
/// their parameters to `params`. A blank tag filter adds nothing.
pub fn append_entity_filters(
    sql: &mut String,
    params: &mut Vec<String>,
    entity_type: Option<EntityType>,
    tag: &Option<String>,
)
    ensures
        final(sql)@ == old(sql)@ + filter_clause(entity_type, text_option(*tag)),
        texts(final(params)@) == texts(old(params)@) + filter_params(entity_type, text_option(*tag)),
{
    let ghost sql0 = sql@;
    let ghost params0 = texts(params@);
    if let Some(t) = entity_type {
        sql.append(TYPE_FILTER);
        params.push(t.as_str().to_owned());
    }
    assert(texts(params@) =~= params0 + (match entity_type {
        Some(t) => seq![entity_type_text(t)],
        None => Seq::<Seq<char>>::empty(),
    }));
    let ghost sql1 = sql@;
    let ghost params1 = texts(params@);
    match tag {
        Some(tag) => {
            match normalize_filter_tag(tag.as_str()) {
                Some(n) => {
                    sql.append(TAG_FILTER);
                    params.push(n);
                },
                None => {},
            }
        },
        None => {},
    }
    assert(sql@ =~= sql0 + filter_clause(entity_type, text_option(*tag)));
    assert(texts(params@) =~= params0 + filter_params(entity_type, text_option(*tag)));
}

/// The SQL text and parameters of a count query and of a page query.
pub struct EntityQuery {
    pub count_sql: String,
    pub count_params: Vec<String>,
    pub page_sql: String,
    pub page_params: Vec<String>,
}

/// What a query hands to the database: the count text and its parameters,
/// then the page text and its parameters.
impl View for EntityQuery {
    type V = (Seq<char>, Seq<Seq<char>>, Seq<char>, Seq<Seq<char>>);

    open spec fn view(&self) -> Self::V {
        (self.count_sql@, texts(self.count_params@), self.page_sql@, texts(self.page_params@))
    }
}

/// The count query of a listing.
pub open spec fn list_count_sql(r: ListEntitiesRequest) -> Seq<char> {
    LIST_COUNT@ + archive_condition_text(r.archived) + filter_clause(r.entity_type, text_option(r.tag))
}

/// The page query of a listing.
pub open spec fn list_page_sql(r: ListEntitiesRequest) -> Seq<char> {
    select_sql(LIST_FROM@ + archive_condition_text(r.archived)) + filter_clause(
        r.entity_type,
        text_option(r.tag),
    ) + LIST_PAGE@
}

/// The queries of a listing, as handed to the database.
pub open spec fn list_plan(r: ListEntitiesRequest) -> (Seq<char>, Seq<Seq<char>>, Seq<char>, Seq<Seq<char>>) {
    (
        list_count_sql(r),
        filter_params(r.entity_type, text_option(r.tag)),
        list_page_sql(r),
        filter_params(r.entity_type, text_option(r.tag)) + paging_params(r.limit, r.offset),
    )
}

/// The queries of a listing.
pub fn list_entities_query(request: &ListEntitiesRequest) -> (q: EntityQuery)
    ensures
        q.count_sql@ == list_count_sql(*request),
        texts(q.count_params@) == filter_params(request.entity_type, text_option(request.tag)),
        q.page_sql@ == list_page_sql(*request),
        texts(q.page_params@) == filter_params(request.entity_type, text_option(request.tag))
            + paging_params(request.limit, request.offset),
        q@ == list_plan(*request),
{
    let (limit, offset) = pagination(request.limit, request.offset);
    let mut count_sql = String::from_str(LIST_COUNT);
    append_archive_filter(&mut count_sql, request.archived);
    let mut count_params: Vec<String> = Vec::new();
    assert(texts(count_params@) =~= seq![]);
    append_entity_filters(&mut count_sql, &mut count_params, request.entity_type, &request.tag);

    let mut from = String::from_str(LIST_FROM);
    from.append(archive_condition(request.archived));
    let mut page_sql = entity_select_sql(from.as_str());
    let mut page_params: Vec<String> = Vec::new();
    assert(texts(page_params@) =~= seq![]);
    append_entity_filters(&mut page_sql, &mut page_params, request.entity_type, &request.tag);
    page_sql.append(LIST_PAGE);
    let ghost filters = texts(page_params@);
    page_params.push(decimal_text(limit));
    page_params.push(decimal_text(offset));
    assert(texts(page_params@) =~= filters + paging_params(request.limit, request.offset));
    assert(count_sql@ =~= list_count_sql(*request));
    assert(page_sql@ =~= list_page_sql(*request));
    EntityQuery { count_sql, count_params, page_sql, page_params }
}

/// The full-text query of a search request.
pub open spec fn search_match(r: SearchEntitiesRequest) -> Seq<char> {
    fts_query(trimmed(r.query@), search_operator(r.search_mode))
}

/// The count query of a search.
pub open spec fn search_count_sql(r: SearchEntitiesRequest) -> Seq<char> {
    SEARCH_COUNT@ + archive_condition_text(r.archived) + filter_clause(r.entity_type, text_option(r.tag))
}

/// The page query of a search.
pub open spec fn search_page_sql(r: SearchEntitiesRequest) -> Seq<char> {
    select_sql(SEARCH_FROM@ + archive_condition_text(r.archived)) + filter_clause(
        r.entity_type,
        text_option(r.tag),
    ) + SEARCH_PAGE@
}

/// The queries of a search; `None` when the search text is blank, as such a
/// search is a listing with the same filters and page.
pub fn search_entities_query(request: &SearchEntitiesRequest) -> (q: Option<EntityQuery>)
    ensures
        q is None <==> trimmed(request.query@).len() == 0,
        q matches Some(q) ==> {
            &&& q.count_sql@ == search_count_sql(*request)
            &&& texts(q.count_params@) == seq![search_match(*request)] + filter_params(
                request.entity_type,
                text_option(request.tag),
            )
            &&& q.page_sql@ == search_page_sql(*request)
            &&& texts(q.page_params@) == seq![search_match(*request)] + filter_params(
                request.entity_type,
                text_option(request.tag),
            ) + paging_params(request.limit, request.offset)
        },
{
    let query = trim_text(request.query.as_str());
    if query.as_str().is_empty() {
        return None;
    }
    let (limit, offset) = pagination(request.limit, request.offset);
    let fts = build_fts_query(query.as_str(), request.search_mode.operator());

    let mut count_sql = String::from_str(SEARCH_COUNT);
    append_archive_filter(&mut count_sql, request.archived);
    let mut count_params: Vec<String> = Vec::new();
    count_params.push(fts.clone());
    append_entity_filters(&mut count_sql, &mut count_params, request.entity_type, &request.tag);

    let mut from = String::from_str(SEARCH_FROM);
    from.append(archive_condition(request.archived));
    let mut page_sql = entity_select_sql(from.as_str());
    let mut page_params: Vec<String> = Vec::new();
    page_params.push(fts);
    append_entity_filters(&mut page_sql, &mut page_params, request.entity_type, &request.tag);
    page_sql.append(SEARCH_PAGE);
    let ghost filters = texts(page_params@);
    page_params.push(decimal_text(limit));
    page_params.push(decimal_text(offset));
    assert(texts(page_params@) =~= filters + paging_params(request.limit, request.offset));
    assert(count_sql@ =~= search_count_sql(*request));
    assert(page_sql@ =~= search_page_sql(*request));
    Some(EntityQuery { count_sql, count_params, page_sql, page_params })
}

/// The listing that a search with a blank text stands for: the same filters and page.
pub open spec fn listing_of(r: SearchEntitiesRequest) -> ListEntitiesRequest {
    ListEntitiesRequest {
        entity_type: r.entity_type,
        tag: r.tag,
        archived: r.archived,
        limit: r.limit,
        offset: r.offset,
    }
}

/// The listing that a search with a blank text stands for.
pub fn search_listing(request: &SearchEntitiesRequest) -> (r: ListEntitiesRequest)
    ensures
        r == listing_of(*request),
{
    ListEntitiesRequest {
        entity_type: request.entity_type,
        tag: copy_text_option(&request.tag),
        archived: request.archived,
        limit: request.limit,
        offset: request.offset,
    }
}

/// The queries of a search, as handed to the database: those of the listing
/// with the same filters and page when the search text is blank, else the
/// full-text count and page queries.
pub open spec fn search_plan(r: SearchEntitiesRequest) -> (Seq<char>, Seq<Seq<char>>, Seq<char>, Seq<Seq<char>>) {
    if trimmed(r.query@).len() == 0 {
        list_plan(listing_of(r))
    } else {
        (
            search_count_sql(r),
            seq![search_match(r)] + filter_params(r.entity_type, text_option(r.tag)),
            search_page_sql(r),
            seq![search_match(r)] + filter_params(r.entity_type, text_option(r.tag)) + paging_params(
                r.limit,
                r.offset,
            ),
        )
    }
}

/// The queries that a search runs.
pub fn search_query(request: &SearchEntitiesRequest) -> (q: EntityQuery)
    ensures
        q@ == search_plan(*request),
{
    match search_entities_query(request) {
        Some(q) => q,
        None => list_entities_query(&search_listing(request)),
    }
}

/// A search whose text is blank hands the database the very queries of the
/// listing with the same type, tag, archive and page filters, whatever its
/// search mode; a search with text runs the full-text queries, which differ
/// from every listing's.
pub proof fn lemma_blank_search_is_listing(r: SearchEntitiesRequest, mode: SearchMode)
    ensures
        trimmed(r.query@).len() == 0 ==> search_plan(r) == list_plan(listing_of(r)),
        trimmed(r.query@).len() == 0 ==> search_plan(SearchEntitiesRequest { search_mode: mode, ..r })
            == search_plan(r),
        trimmed(r.query@).len() > 0 ==> forall|l: ListEntitiesRequest| search_plan(r) != #[trigger] list_plan(l),
{
    if trimmed(r.query@).len() > 0 {
        assert forall|l: ListEntitiesRequest| search_plan(r) != #[trigger] list_plan(l) by {
            let a = search_plan(r).0;
            let b = list_plan(l).0;
            reveal_strlit("SELECT COUNT(DISTINCT e.id) FROM search_index si JOIN entities e ON e.id = si.entity_id WHERE search_index MATCH ? AND ");
            reveal_strlit("SELECT COUNT(*) FROM entities e WHERE ");
            assert(a[13] != b[13]);
        }
    }
}


/// A search keeps the archive filter: its count and page queries both carry
/// the condition for the requested archive flag, so that the entities counted
/// and listed are the archived ones exactly when archived ones are asked for;
/// and two searches that differ in that flag never run the same count query.
pub proof fn lemma_search_keeps_archive_filter(r: SearchEntitiesRequest, other: SearchEntitiesRequest)
    ensures
        exists|a: Seq<char>, b: Seq<char>|
            #[trigger] a.add(archive_condition_text(r.archived)).add(b) == search_plan(r).0,
        exists|a: Seq<char>, b: Seq<char>|
            #[trigger] a.add(archive_condition_text(r.archived)).add(b) == search_plan(r).2,
        r.archived != other.archived ==> search_plan(r).0 != search_plan(other).0,
{
    let arch = archive_condition_text(r.archived);
    let l = listing_of(r);
    let f = filter_clause(r.entity_type, text_option(r.tag));
    if trimmed(r.query@).len() == 0 {
        assert(LIST_COUNT@.add(arch).add(f) == search_plan(r).0);
        let a = ENTITY_SELECT_COLUMNS@ + " "@ + LIST_FROM@;
        assert(a.add(arch).add(f + LIST_PAGE@) =~= search_plan(r).2);
    } else {
        assert(SEARCH_COUNT@.add(arch).add(f) == search_plan(r).0);
        let a = ENTITY_SELECT_COLUMNS@ + " "@ + SEARCH_FROM@;
        assert(a.add(arch).add(f + SEARCH_PAGE@) =~= search_plan(r).2);
    }
    if r.archived != other.archived {
        reveal_strlit("SELECT COUNT(DISTINCT e.id) FROM search_index si JOIN entities e ON e.id = si.entity_id WHERE search_index MATCH ? AND ");
        reveal_strlit("SELECT COUNT(*) FROM entities e WHERE ");
        reveal_strlit("e.archived_at IS NOT NULL");
        reveal_strlit("e.archived_at IS NULL");
        let x = search_plan(r).0;
        let y = search_plan(other).0;
        let rb = trimmed(r.query@).len() == 0;
        let ob = trimmed(other.query@).len() == 0;
        if rb != ob {
            assert(x[13] != y[13]);
        } else if rb {
            let p = LIST_COUNT@.len() as int;
            assert(x[p + 18] != y[p + 18]);
        } else {
            let p = SEARCH_COUNT@.len() as int;
            assert(x[p + 18] != y[p + 18]);
        }
    }
}

/// A listing counts what it pages: its count query has the very conditions
/// of its page query (archive flag, type and tag) and the same parameters for
/// them, so that its total counts the entities that pass the filters; and two
/// listings of one type whose tag filters differ send different count
/// parameters.
pub proof fn lemma_listing_counts_what_it_pages(r: ListEntitiesRequest, other: ListEntitiesRequest)
    ensures
        ({
            let conditions = archive_condition_text(r.archived) + filter_clause(r.entity_type, text_option(r.tag));
            &&& list_plan(r).0 == LIST_COUNT@ + conditions
            &&& exists|a: Seq<char>| #[trigger] a.add(conditions).add(LIST_PAGE@) == list_plan(r).2
        }),
        list_plan(r).3 == list_plan(r).1 + paging_params(r.limit, r.offset),
        r.entity_type == other.entity_type && tag_filter(text_option(r.tag)) != tag_filter(
            text_option(other.tag),
        ) ==> list_plan(r).1 != list_plan(other).1,
{
    let conditions = archive_condition_text(r.archived) + filter_clause(r.entity_type, text_option(r.tag));
    assert(list_plan(r).0 =~= LIST_COUNT@ + conditions);
    let a = ENTITY_SELECT_COLUMNS@ + " "@ + LIST_FROM@;
    assert(a.add(conditions).add(LIST_PAGE@) =~= list_plan(r).2);
    if r.entity_type == other.entity_type && tag_filter(text_option(r.tag)) != tag_filter(text_option(other.tag)) {
        let tp: Seq<Seq<char>> = match r.entity_type {
            Some(t) => seq![entity_type_text(t)],
            None => seq![],
        };
        let g1: Seq<Seq<char>> = match tag_filter(text_option(r.tag)) {
            Some(n) => seq![n],
            None => seq![],
        };
        let g2: Seq<Seq<char>> = match tag_filter(text_option(other.tag)) {
            Some(n) => seq![n],
            None => seq![],
        };
        assert(list_plan(r).1 == tp + g1);
        assert(list_plan(other).1 == tp + g2);
        if list_plan(r).1 == list_plan(other).1 {
            assert((tp + g1).skip(tp.len() as int) =~= g1);
            assert((tp + g2).skip(tp.len() as int) =~= g2);
            assert(g1 == g2);
            if tag_filter(text_option(r.tag)) is Some {
                assert(g1.len() == 1);
                assert(g2[0] == g1[0]);
            } else {
                assert(g2.len() == 0);
            }
        }
    }
}

/// A tag filter compares with a stored tag by the rule that stores tags: a
/// filter finds the tag stored for a requested tag that normalizes as it does.
pub proof fn lemma_filter_finds_stored_tag(filter: Seq<char>, requested: Seq<Seq<char>>, i: int)
    requires
        0 <= i < requested.len(),
        normalized_tag(filter) is Some,
        normalized_tag(filter) == normalized_tag(requested[i]),
    ensures
        normalized_tags(requested).contains(normalized_tag(filter).unwrap()),
        filter_params(None, Some(filter)) == seq![normalized_tag(filter).unwrap()],
        filter_clause(None, Some(filter)) == TAG_FILTER@,
{
    assert(seq![] + seq![normalized_tag(filter).unwrap()] =~= seq![normalized_tag(filter).unwrap()]);
    assert(Seq::<char>::empty() + TAG_FILTER@ =~= TAG_FILTER@);
}

} // verus!
