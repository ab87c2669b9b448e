use vstd::prelude::*;

verus! {

/// Where the server keeps its database, thumbnails and media library.
pub struct Config {
    pub db_path: std::path::PathBuf,
    pub thumbs_dir: std::path::PathBuf,
    pub media_root: std::path::PathBuf,
}

} // verus!
