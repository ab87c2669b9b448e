use vstd::prelude::*;
use crate::timestamp::{Moment, parse_utc, utc_parse, utc_representable};

verus! {

/// The kind of a media file.
pub enum MediaType {
    PHOTO,
    VIDEO,
}

/// Counts over the whole library.
pub struct LibraryStats {
    pub total_items: u64,
    pub total_size: u64,
    pub photo_count: u64,
    pub video_count: u64,
}

/// What the timeline layout needs of a media item.
pub struct MediaLayout {
    pub id: i64,
    pub width: i32,
    pub height: i32,
    pub timestamp: i64,
}

/// A user-made collection of media.
pub struct Album {
    pub id: i64,
    pub title: String,
    pub created_at: Moment,
    pub latest_photo_at: i64,
    pub media_count: i64,
    /// The media shown as the album's cover: the one added last, if any.
    pub cover_id: Option<i64>,
}

/// Why a stored row cannot be read as a value of the library.
pub enum RowError {
    /// A stored text is not of the type the column should hold.
    InvalidType,
}

/// An album from the columns of its row; the creation time is stored as a UTC text, the
/// cover is the album's most recently added media.
pub fn album_from_columns(
    id: i64,
    title: String,
    created_at: &str,
    media_count: i64,
    latest_photo_at: i64,
    cover_id: Option<i64>,
) -> (r: Result<Album, RowError>)
    ensures
        r is Ok <==> utc_parse(created_at@) is Ok,
        r matches Ok(a) ==> {
            &&& a.id == id
            &&& a.title == title
            &&& utc_parse(created_at@) == Ok::<Moment, Seq<char>>(a.created_at)
            &&& utc_representable(a.created_at)
            &&& a.media_count == media_count
            &&& a.latest_photo_at == latest_photo_at
            &&& a.cover_id == cover_id
        },
{
    match parse_utc(created_at) {
        Ok(created_at) => Ok(Album { id, title, created_at, latest_photo_at, media_count, cover_id }),
        Err(_) => Err(RowError::InvalidType),
    }
}

} // verus!

verus! {

/// The sum of a sequence of sizes.
pub open spec fn size_sum(s: Seq<usize>) -> nat
    decreases s.len(),
{
    if s.len() == 0 {
        0
    } else {
        size_sum(s.drop_last()) + (s.last() as nat)
    }
}

/// The bytes a list of media items takes: the list itself (`header`), its slots
/// (`item_size` times `capacity`) and the text of each item's path (`path_capacities`);
/// `None` when that does not fit in a `usize`.
pub fn allocated_size(header: usize, item_size: usize, capacity: usize, path_capacities: &Vec<usize>) -> (r:
    Option<usize>)
    ensures
        ({
            let total = header + item_size * capacity + size_sum(path_capacities@);
            if total <= usize::MAX {
                r == Some(total as usize)
            } else {
                r is None
            }
        }),
{
    let slots = match item_size.checked_mul(capacity) {
        Some(v) => v,
        None => {
            assert(header + item_size * capacity + size_sum(path_capacities@) > usize::MAX);
            return None;
        },
    };
    let mut size = match header.checked_add(slots) {
        Some(v) => v,
        None => return None,
    };
    let mut i: usize = 0;
    while i < path_capacities.len()
        invariant
            i <= path_capacities@.len(),
            size == header + item_size * capacity + size_sum(path_capacities@.subrange(0, i as int)),
        decreases path_capacities@.len() - i,
    {
        proof {
            assert(path_capacities@.subrange(0, i + 1).drop_last() =~= path_capacities@.subrange(
                0,
                i as int,
            ));
            lemma_size_sum_prefix(path_capacities@, i + 1);
        }
        size = match size.checked_add(path_capacities[i]) {
            Some(v) => v,
            None => return None,
        };
        i = i + 1;
    }
    assert(path_capacities@.subrange(0, i as int) =~= path_capacities@);
    Some(size)
}

/// A prefix sums to no more than the whole.
proof fn lemma_size_sum_prefix(s: Seq<usize>, n: int)
    requires
        0 <= n <= s.len(),
    ensures
        size_sum(s.subrange(0, n)) <= size_sum(s),
    decreases s.len() - n,
{
    if n < s.len() {
        lemma_size_sum_prefix(s, n + 1);
        assert(s.subrange(0, n + 1).drop_last() =~= s.subrange(0, n));
    } else {
        assert(s.subrange(0, n) =~= s);
    }
}

} // verus!
