use vstd::prelude::*;
use crate::text::{ascii_lower_char, ascii_lower_seq, push_char};
use crate::timestamp::{ExifField, Moment, MediaTimestamp, exif_timestamp, get_exif_timestamp, utc_representable};

verus! {

/// The file extensions (lower case, without the dot) of the photos the library indexes.
pub open spec fn photo_extension(ext: Seq<char>) -> bool {
    ||| ext == "jpg"@
    ||| ext == "jpeg"@
    ||| ext == "tiff"@
    ||| ext == "heif"@
    ||| ext == "heic"@
    ||| ext == "png"@
    ||| ext == "webp"@
}

fn str_eq(a: &str, b: &str) -> (r: bool)
    ensures
        r == (a@ == b@),
{
    let n = a.unicode_len();
    if n != b.unicode_len() {
        return false;
    }
    let mut i: usize = 0;
    while i < n
        invariant
            n == a@.len(),
            n == b@.len(),
            i <= n,
            forall|j: int| 0 <= j < i ==> a@[j] == b@[j],
        decreases n - i,
    {
        if a.get_char(i) != b.get_char(i) {
            return false;
        }
        i = i + 1;
    }
    assert(a@ =~= b@);
    true
}

/// Whether `ext` (already lower case) is the extension of a photo the library indexes.
pub fn is_photo_extension(ext: &str) -> (r: bool)
    ensures
        r == photo_extension(ext@),
{
    str_eq(ext, "jpg") || str_eq(ext, "jpeg") || str_eq(ext, "tiff") || str_eq(ext, "heif")
        || str_eq(ext, "heic") || str_eq(ext, "png") || str_eq(ext, "webp")
}

/// `str::to_ascii_lowercase`: the text with 'A'..='Z' lowered.
pub fn to_ascii_lowercase(s: &str) -> (r: String)
    ensures
        r@ == ascii_lower_seq(s@),
{
    let n = s.unicode_len();
    let mut out = String::new();
    let mut i: usize = 0;
    while i < n
        invariant
            n == s@.len(),
            i <= n,
            out@ == ascii_lower_seq(s@.subrange(0, i as int)),
        decreases n - i,
    {
        let c = ascii_lower_char(s.get_char(i));
        push_char(&mut out, c);
        i = i + 1;
        proof {
            assert(out@ =~= ascii_lower_seq(s@.subrange(0, i as int)));
        }
    }
    assert(s@.subrange(0, n as int) =~= s@);
    out
}

/// A directory entry names a photo: it has an extension that, lowered, is a photo's.
pub open spec fn names_photo(ext: Option<String>) -> bool {
    match ext {
        Some(e) => photo_extension(ascii_lower_seq(e@)),
        None => false,
    }
}

/// How many of the extensions name photos.
pub open spec fn photo_count(exts: Seq<Option<String>>) -> nat
    decreases exts.len(),
{
    if exts.len() == 0 {
        0
    } else {
        photo_count(exts.drop_last()) + (if names_photo(exts.last()) {
            1nat
        } else {
            0nat
        })
    }
}

/// Counts the files that the indexer will consider, given the extension of each file met
/// in the library (`None` for a file without one).
pub fn count_photo_files(exts: &Vec<Option<String>>) -> (r: usize)
    ensures
        r == photo_count(exts@),
{
    let mut count: usize = 0;
    let mut i: usize = 0;
    while i < exts.len()
        invariant
            i <= exts@.len(),
            count == photo_count(exts@.subrange(0, i as int)),
            count <= i,
        decreases exts@.len() - i,
    {
        let hit = match &exts[i] {
            Some(e) => {
                let l = to_ascii_lowercase(e.as_str());
                is_photo_extension(l.as_str())
            },
            None => false,
        };
        proof {
            assert(exts@.subrange(0, i + 1).drop_last() =~= exts@.subrange(0, i as int));
        }
        if hit {
            count = count + 1;
        }
        i = i + 1;
    }
    assert(exts@.subrange(0, exts@.len() as int) =~= exts@);
    count
}

/// The Windows attribute bits of hidden and of system files.
pub const FILE_ATTRIBUTE_HIDDEN: u32 = 0x2;
pub const FILE_ATTRIBUTE_SYSTEM: u32 = 0x4;

/// Whether the walk of the library keeps an entry: directories always, files unless their
/// attributes (when they can be read) mark them hidden or system files.
pub fn keep_entry(is_file: bool, attributes: Option<u32>) -> (r: bool)
    ensures
        r == (!is_file || match attributes {
            Some(a) => a & (FILE_ATTRIBUTE_HIDDEN | FILE_ATTRIBUTE_SYSTEM) == 0,
            None => true,
        }),
{
    if !is_file {
        return true;
    }
    match attributes {
        Some(a) => a & (FILE_ATTRIBUTE_HIDDEN | FILE_ATTRIBUTE_SYSTEM) == 0,
        None => true,
    }
}

/// The EXIF orientation turns the picture on its side (values 5 to 8).
pub open spec fn sideways(orientation: Option<Vec<u16>>) -> bool {
    match orientation {
        Some(v) => v@.len() > 0 && 5 <= v@[0] <= 8,
        None => false,
    }
}

/// Whether the EXIF orientation (its SHORT values, when the field holds them) turns the
/// picture on its side.
pub fn is_exif_sideways(orientation: &Option<Vec<u16>>) -> (r: bool)
    ensures
        r == sideways(*orientation),
{
    match orientation {
        Some(v) => v.len() > 0 && 5 <= v[0] && v[0] <= 8,
        None => false,
    }
}

/// What the EXIF data of a photo contributes to its metadata.
pub struct ExifInfo {
    pub orientation: Option<Vec<u16>>,
    pub date_original: ExifField,
    pub date_digitized: ExifField,
    pub offset_original: ExifField,
    pub offset_digitized: ExifField,
}

/// The metadata of a photo: its upright size and when it was taken.
pub struct PhotoMetadata {
    pub width: i32,
    pub height: i32,
    pub taken_at: MediaTimestamp,
}

/// Why a file yields no metadata.
pub enum MetadataError {
    /// The extension is not a photo's.
    UnsupportedType(String),
    /// A side is too long for an `i32`; reported with the text of `TryFromIntError`.
    DimensionOutOfRange,
    /// The extension is a photo's but not one whose metadata is read.
    UnsupportedExtension(String),
    /// The file's modification time was needed and could not be read; the reading error's
    /// message.
    ModificationTime(String),
}

/// Checks, before the file is opened, that its extension is a photo's.
pub fn check_photo_extension(ext: &str) -> (r: Result<(), MetadataError>)
    ensures
        r is Ok <==> photo_extension(ext@),
        r matches Err(e) ==> (e matches MetadataError::UnsupportedType(x) && x@ == ext@),
{
    if is_photo_extension(ext) {
        Ok(())
    } else {
        Err(MetadataError::UnsupportedType(String::from_str(ext)))
    }
}

/// The image's pixel size as `i32`s.
pub fn photo_dimensions(width: usize, height: usize) -> (r: Result<(i32, i32), MetadataError>)
    ensures
        r is Ok <==> (width <= i32::MAX && height <= i32::MAX),
        r matches Ok(d) ==> d.0 == width && d.1 == height,
        r matches Err(e) ==> e is DimensionOutOfRange,
{
    if width > 2147483647 || height > 2147483647 {
        return Err(MetadataError::DimensionOutOfRange);
    }
    Ok((width as i32, height as i32))
}

/// The extensions whose metadata is read from the file.
pub open spec fn readable_extension(ext: Seq<char>) -> bool {
    photo_extension(ext)
}

/// Every photo extension is one whose metadata is read: no photo the indexer looks at is
/// turned away for its extension.
pub proof fn lemma_photo_extensions_readable(ext: Seq<char>)
    requires
        photo_extension(ext),
    ensures
        readable_extension(ext),
{
}

/// Completes the metadata of a photo of `width` × `height` pixels: sides swapped when the
/// EXIF orientation is sideways (HEIF sizes already account for it), taken at the EXIF
/// timestamp, else at the file's modification time.
pub fn finish_metadata(
    ext: &str,
    is_heif: bool,
    width: i32,
    height: i32,
    exif: &Option<ExifInfo>,
    mtime: Result<Moment, String>,
) -> (r: Result<PhotoMetadata, MetadataError>)
    requires
        mtime matches Ok(m) ==> utc_representable(m),
    ensures
        !readable_extension(ext@) ==> (r matches Err(e) && e matches MetadataError::UnsupportedExtension(
            x,
        ) && x@ == ext@),
        readable_extension(ext@) ==> ({
            let swap = match *exif {
                Some(x) => !is_heif && sideways(x.orientation),
                None => false,
            };
            let ts = match *exif {
                Some(x) => exif_timestamp(
                    x.date_original,
                    x.date_digitized,
                    x.offset_original,
                    x.offset_digitized,
                ),
                None => None,
            };
            let w = if swap {
                height
            } else {
                width
            };
            let h = if swap {
                width
            } else {
                height
            };
            match ts {
                Some(t) => r matches Ok(md) && md.width == w && md.height == h && md.taken_at == t,
                None => match mtime {
                    Ok(m) => r matches Ok(md) && md.width == w && md.height == h && md.taken_at
                        == MediaTimestamp::Utc(m),
                    Err(msg) => r matches Err(e) && e == MetadataError::ModificationTime(msg),
                },
            }
        }),
        r matches Ok(md) ==> md.taken_at.valid(),
        photo_extension(ext@) ==> (r is Ok || r matches Err(MetadataError::ModificationTime(_))),
        !photo_extension(ext@) ==> (r matches Err(e) && e matches MetadataError::UnsupportedExtension(
            x,
        ) && x@ == ext@),
        photo_extension(ext@) && (exif matches Some(x) && exif_timestamp(
            x.date_original,
            x.date_digitized,
            x.offset_original,
            x.offset_digitized,
        ) is Some) ==> r is Ok,
        photo_extension(ext@) && mtime is Ok ==> r is Ok,
        r matches Ok(md) ==> (if !is_heif && (exif matches Some(x) && x.orientation matches Some(
            o,
        ) && o@.len() > 0 && 5 <= o@[0] <= 8) {
            md.width == height && md.height == width
        } else {
            md.width == width && md.height == height
        }),
{
    if !is_photo_extension(ext) {
        return Err(MetadataError::UnsupportedExtension(String::from_str(ext)));
    }
    let mut w = width;
    let mut h = height;
    if let Some(x) = exif {
        if !is_heif && is_exif_sideways(&x.orientation) {
            let t = w;
            w = h;
            h = t;
        }
        if let Some(ts) = get_exif_timestamp(
            &x.date_original,
            &x.date_digitized,
            &x.offset_original,
            &x.offset_digitized,
        ) {
            return Ok(PhotoMetadata { width: w, height: h, taken_at: ts });
        }
    }
    match mtime {
        Ok(m) => Ok(PhotoMetadata { width: w, height: h, taken_at: MediaTimestamp::Utc(m) }),
        Err(msg) => Err(MetadataError::ModificationTime(msg)),
    }
}

impl MetadataError {
    /// The message of the error.
    pub fn message(&self) -> (r: String)
        ensures
            match self {
                MetadataError::UnsupportedType(x) => r@ == "Unsupported file type "@ + x@,
                MetadataError::DimensionOutOfRange => r@
                    == "out of range integral type conversion attempted"@,
                MetadataError::UnsupportedExtension(x) => r@ == "Unsupported media extension '."@
                    + x@ + "'"@,
                MetadataError::ModificationTime(m) => r@ == m@,
            },
    {
        match self {
            MetadataError::UnsupportedType(x) => {
                let mut s = String::from_str("Unsupported file type ");
                s.append(x.as_str());
                s
            },
            MetadataError::DimensionOutOfRange => String::from_str(
                "out of range integral type conversion attempted",
            ),
            MetadataError::UnsupportedExtension(x) => {
                let mut s = String::from_str("Unsupported media extension '.");
                s.append(x.as_str());
                s.append("'");
                s
            },
            MetadataError::ModificationTime(m) => m.clone(),
        }
    }
}

} // verus!
