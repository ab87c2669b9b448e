use vstd::prelude::*;
use crate::text::{ascii_lower_seq, eq_ignore_ascii_case};

verus! {

/// The direction of a sort.
pub enum SortOrder {
    Asc,
    Desc,
}

/// A requested ordering of media: a column name and a direction.
pub struct SortOptions {
    pub sort_by: String,
    pub sort_order: SortOrder,
}

/// Why a media query cannot be planned.
pub enum QueryError {
    /// The requested sort column is not a column of `media`.
    InvalidSortField(String),
}

impl QueryError {
    /// The message of the error, as the HTTP layer reports it.
    pub fn message(&self) -> (r: String)
        ensures
            match self {
                QueryError::InvalidSortField(f) => r@ == "Invalid sort field "@ + f@,
            },
    {
        match self {
            QueryError::InvalidSortField(f) => {
                let mut s = String::from_str("Invalid sort field ");
                s.append(f.as_str());
                s
            },
        }
    }
}

/// `s` names, ignoring ASCII case, one of the columns of the `media` table.
pub open spec fn is_sort_field(s: Seq<char>) -> bool {
    let l = ascii_lower_seq(s);
    ||| l == ascii_lower_seq("id"@)
    ||| l == ascii_lower_seq("path"@)
    ||| l == ascii_lower_seq("size"@)
    ||| l == ascii_lower_seq("mtime"@)
    ||| l == ascii_lower_seq("timestamp"@)
    ||| l == ascii_lower_seq("indexed_at"@)
    ||| l == ascii_lower_seq("taken_at"@)
    ||| l == ascii_lower_seq("width"@)
    ||| l == ascii_lower_seq("height"@)
    ||| l == ascii_lower_seq("duration"@)
    ||| l == ascii_lower_seq("missing"@)
}

/// Whether `s` names a column of `media` that the library can be sorted by.
pub fn is_valid_sort_field(s: &str) -> (r: bool)
    ensures
        r == is_sort_field(s@),
{
    eq_ignore_ascii_case("id", s) || eq_ignore_ascii_case("path", s) || eq_ignore_ascii_case(
        "size",
        s,
    ) || eq_ignore_ascii_case("mtime", s) || eq_ignore_ascii_case("timestamp", s)
        || eq_ignore_ascii_case("indexed_at", s) || eq_ignore_ascii_case("taken_at", s)
        || eq_ignore_ascii_case("width", s) || eq_ignore_ascii_case("height", s)
        || eq_ignore_ascii_case("duration", s) || eq_ignore_ascii_case("missing", s)
}

/// The SQL keyword of a direction.
pub open spec fn order_keyword(o: SortOrder) -> Seq<char> {
    match o {
        SortOrder::Asc => "ASC"@,
        SortOrder::Desc => "DESC"@,
    }
}

/// The `ORDER BY` clause for a valid sort request.
pub open spec fn order_by_text(o: SortOptions) -> Seq<char> {
    " ORDER BY m."@ + o.sort_by@ + " "@ + order_keyword(o.sort_order)
}

/// The `ORDER BY` clause of a media query: empty without a sort request, an error for a
/// column that `media` does not have.
pub fn get_order_by(sort_options: &Option<SortOptions>) -> (r: Result<String, QueryError>)
    ensures
        sort_options is None ==> (r matches Ok(s) && s@ == Seq::<char>::empty()),
        sort_options matches Some(o) ==> (r is Ok <==> is_sort_field(o.sort_by@)),
        sort_options matches Some(o) ==> (r is Ok ==> r->Ok_0@ == order_by_text(*o)),
        sort_options matches Some(o) ==> (r is Err ==> (r->Err_0 matches QueryError::InvalidSortField(
            f,
        ) && f@ == o.sort_by@)),
{
    match sort_options {
        None => Ok(String::new()),
        Some(opt) => {
            if !is_valid_sort_field(opt.sort_by.as_str()) {
                return Err(QueryError::InvalidSortField(opt.sort_by.clone()));
            }
            let order = match opt.sort_order {
                SortOrder::Asc => "ASC",
                SortOrder::Desc => "DESC",
            };
            let mut s = String::from_str(" ORDER BY m.");
            s.append(opt.sort_by.as_str());
            s.append(" ");
            s.append(order);
            Ok(s)
        },
    }
}

/// The columns a media query selects: all of them, or only those the layout needs.
pub open spec fn select_fields(layout_only: bool) -> Seq<char> {
    if layout_only {
        "m.id, m.width, m.height, m.timestamp"@
    } else {
        "m.id, m.path, m.size, m.mtime, m.timestamp, m.indexed_at, m.taken_at, m.width, m.height, m.duration, m.missing"@
    }
}

/// The join that restricts a media query to one album.
pub open spec fn album_join(album_id: Option<i64>) -> Seq<char> {
    match album_id {
        Some(_) => " INNER JOIN album_media am ON m.id = am.media_id WHERE am.album_id = ?3"@,
        None => ""@,
    }
}

/// The text of a media query with a given `ORDER BY` clause.
pub open spec fn media_query_text(album_id: Option<i64>, order_by: Seq<char>, layout_only: bool) -> Seq<
    char,
> {
    "SELECT "@ + select_fields(layout_only) + " FROM media m"@ + album_join(album_id) + order_by
        + " LIMIT ?1 OFFSET ?2;"@
}

/// `s` ends with `suffix`.
pub open spec fn ends_with(s: Seq<char>, suffix: Seq<char>) -> bool {
    suffix.len() <= s.len() && s.subrange(s.len() - suffix.len(), s.len() as int) == suffix
}

/// Whatever the album and the selected columns, a media query ends with its `ORDER BY`
/// clause followed by the page parameters: the requested order is never dropped.
pub proof fn lemma_query_ends_with_order(album_id: Option<i64>, order_by: Seq<char>, layout_only: bool)
    ensures
        ends_with(
            media_query_text(album_id, order_by, layout_only),
            order_by + " LIMIT ?1 OFFSET ?2;"@,
        ),
{
    let head = "SELECT "@ + select_fields(layout_only) + " FROM media m"@ + album_join(album_id);
    let tail = order_by + " LIMIT ?1 OFFSET ?2;"@;
    let q = media_query_text(album_id, order_by, layout_only);
    assert(q =~= head + tail);
    assert(q.subrange(q.len() - tail.len(), q.len() as int) =~= tail);
}

/// A media query for an album and one for the whole library differ only in the join: both
/// start with the same selection and end with the same order and page parameters.
pub proof fn lemma_album_only_adds_join(a: i64, order_by: Seq<char>, layout_only: bool)
    ensures
        media_query_text(Some(a), order_by, layout_only) == "SELECT "@ + select_fields(layout_only)
            + " FROM media m"@ + album_join(Some(a)) + order_by + " LIMIT ?1 OFFSET ?2;"@,
        media_query_text(None, order_by, layout_only) == "SELECT "@ + select_fields(layout_only)
            + " FROM media m"@ + order_by + " LIMIT ?1 OFFSET ?2;"@,
{
    assert(("SELECT "@ + select_fields(layout_only) + " FROM media m"@) + ""@ =~= "SELECT "@
        + select_fields(layout_only) + " FROM media m"@) by {
        reveal_strlit("");
    }
}

/// The value bound to `LIMIT`: the page size, or -1, which SQLite reads as no limit.
pub open spec fn limit_param(limit: Option<usize>) -> i64 {
    match limit {
        Some(l) => l as i64,
        None => -1i64,
    }
}

/// The parameters bound to `?1`, `?2` and, for an album, `?3`.
pub open spec fn media_query_params(limit: Option<usize>, offset: usize, album_id: Option<i64>) -> Seq<
    i64,
> {
    match album_id {
        Some(a) => seq![limit_param(limit), offset as i64, a],
        None => seq![limit_param(limit), offset as i64],
    }
}

/// A planned media query: its SQL, the values of its parameters, and which row shape
/// it reads.
pub struct MediaQuery {
    pub sql: String,
    pub params: Vec<i64>,
    pub layout_only: bool,
}

/// Plans the query behind the media listing: `limit` rows (all of them without a limit)
/// from `offset`, all media or one album's, in the requested order, full rows or layout rows.
pub fn plan_media_query(
    limit: Option<usize>,
    offset: usize,
    album_id: Option<i64>,
    sort_options: Option<SortOptions>,
    layout_only: bool,
) -> (r: Result<MediaQuery, QueryError>)
    ensures
        sort_options is None ==> r is Ok,
        sort_options matches Some(o) ==> (r is Ok <==> is_sort_field(o.sort_by@)),
        sort_options matches Some(o) ==> (r is Err ==> (r->Err_0 matches QueryError::InvalidSortField(
            f,
        ) && f@ == o.sort_by@)),
        r matches Ok(q) ==> {
            &&& q.sql@ == media_query_text(
                album_id,
                match sort_options {
                    Some(o) => order_by_text(o),
                    None => Seq::<char>::empty(),
                },
                layout_only,
            )
            &&& q.params@ == media_query_params(limit, offset, album_id)
            &&& q.layout_only == layout_only
        },
        r matches Ok(q) ==> q.sql@ == "SELECT "@ + select_fields(layout_only) + " FROM media m"@
            + album_join(album_id) + (match sort_options {
            Some(o) => order_by_text(o),
            None => Seq::<char>::empty(),
        }) + " LIMIT ?1 OFFSET ?2;"@,
        r matches Ok(q) ==> (sort_options matches Some(o) ==> ends_with(
            q.sql@,
            order_by_text(o) + " LIMIT ?1 OFFSET ?2;"@,
        )),
{
    let order_by = get_order_by(&sort_options)?;
    let fields = if layout_only {
        "m.id, m.width, m.height, m.timestamp"
    } else {
        "m.id, m.path, m.size, m.mtime, m.timestamp, m.indexed_at, m.taken_at, m.width, m.height, m.duration, m.missing"
    };
    let join = match album_id {
        Some(_) => " INNER JOIN album_media am ON m.id = am.media_id WHERE am.album_id = ?3",
        None => "",
    };
    let mut sql = String::from_str("SELECT ");
    sql.append(fields);
    sql.append(" FROM media m");
    sql.append(join);
    sql.append(order_by.as_str());
    sql.append(" LIMIT ?1 OFFSET ?2;");
    let mut params: Vec<i64> = Vec::new();
    let limit_value: i64 = match limit {
        Some(l) => l as i64,
        None => -1,
    };
    params.push(limit_value);
    params.push(offset as i64);
    match album_id {
        Some(a) => params.push(a),
        None => {},
    }
    proof {
        assert(params@ =~= media_query_params(limit, offset, album_id));
        lemma_query_ends_with_order(album_id, order_by@, layout_only);
    }
    Ok(MediaQuery { sql, params, layout_only })
}

/// A `sort` query value read as a sort request: a leading '-' asks for descending order
/// and is not part of the column name.
pub fn parse_sort_options(sort: Option<String>) -> (r: Option<SortOptions>)
    ensures
        sort is None <==> r is None,
        sort matches Some(s) ==> (r matches Some(o) && (if s@.len() > 0 && s@[0] == '-' {
            o.sort_by@ == s@.drop_first() && o.sort_order == SortOrder::Desc
        } else {
            o.sort_by@ == s@ && o.sort_order == SortOrder::Asc
        })),
{
    match sort {
        None => None,
        Some(s) => {
            let n = s.as_str().unicode_len();
            if n > 0 && s.as_str().get_char(0) == '-' {
                let rest = s.as_str().substring_char(1, n);
                let sort_by = String::from_str(rest);
                proof {
                    assert(sort_by@ =~= s@.drop_first());
                }
                Some(SortOptions { sort_by, sort_order: SortOrder::Desc })
            } else {
                Some(SortOptions { sort_by: s, sort_order: SortOrder::Asc })
            }
        },
    }
}

/// The query string of a media listing.
pub struct MediaQueryParams {
    pub limit: Option<u32>,
    pub offset: Option<u32>,
    pub sort: Option<String>,
    pub layout: Option<bool>,
}

/// The page of a listing that was asked for (`limit` is `None` for the whole listing).
pub struct Pagination {
    pub limit: Option<u32>,
    pub offset: u32,
}

/// A media listing request with its defaults filled in.
pub struct MediaRequest {
    pub limit: Option<u32>,
    pub offset: u32,
    pub layout: bool,
    pub sort_options: Option<SortOptions>,
    pub pagination: Pagination,
}

/// Fills in the defaults of a listing request: the whole listing from the start, in the
/// database's order; full rows for the library, layout rows for an album.
pub fn resolve_media_params(params: MediaQueryParams, album_id: Option<i64>) -> (r: MediaRequest)
    ensures
        r.limit == params.limit,
        r.offset == (match params.offset {
            Some(o) => o,
            None => 0,
        }),
        r.layout == (match params.layout {
            Some(b) => b,
            None => album_id is Some,
        }),
        r.pagination.limit == r.limit,
        r.pagination.offset == r.offset,
        params.sort is None <==> r.sort_options is None,
        params.sort matches Some(s) ==> (r.sort_options matches Some(o) && (if s@.len() > 0 && s@[0]
            == '-' {
            o.sort_by@ == s@.drop_first() && o.sort_order == SortOrder::Desc
        } else {
            o.sort_by@ == s@ && o.sort_order == SortOrder::Asc
        })),
{
    let limit = params.limit;
    let offset = match params.offset {
        Some(o) => o,
        None => 0,
    };
    let layout = match params.layout {
        Some(b) => b,
        None => album_id.is_some(),
    };
    let sort_options = parse_sort_options(params.sort);
    MediaRequest { limit, offset, layout, sort_options, pagination: Pagination { limit, offset } }
}

/// Whether a column may be sorted by does not depend on the case of its letters.
pub proof fn lemma_sort_field_ignores_case(s: Seq<char>)
    ensures
        is_sort_field(ascii_lower_seq(s)) == is_sort_field(s),
{
    assert(ascii_lower_seq(ascii_lower_seq(s)) =~= ascii_lower_seq(s)) by {
        assert forall|i: int| 0 <= i < s.len() implies #[trigger] crate::text::ascii_lower(
            crate::text::ascii_lower(s[i]),
        ) == crate::text::ascii_lower(s[i]) by {
            let c = s[i];
            if 'A' <= c && c <= 'Z' {
                assert(((c as int) + 32) as char as int == (c as int) + 32);
            }
        }
    }
}

} // verus!
