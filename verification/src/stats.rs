use vstd::prelude::*;

verus! {

/// The library's figures as the system page shows them.
pub struct LibraryStats {
    pub total_count: i32,
    pub total_size_bytes: i64,
    pub photos_count: i32,
    pub videos_count: i32,
    pub missing_files: i32,
    pub db_size_bytes: u64,
}

impl LibraryStats {
    /// The figures from the media table's count, total size and missing count, and the
    /// size of the database file; photos and videos are not counted apart.
    pub fn from_counts(total: i32, size: i64, missing: i32, db_size: u64) -> (r: LibraryStats)
        ensures
            r.total_count == total,
            r.total_size_bytes == size,
            r.photos_count == 0,
            r.videos_count == 0,
            r.missing_files == missing,
            r.db_size_bytes == db_size,
    {
        LibraryStats {
            total_count: total,
            total_size_bytes: size,
            photos_count: 0,
            videos_count: 0,
            missing_files: missing,
            db_size_bytes: db_size,
        }
    }
}

} // verus!
