use vstd::prelude::*;

verus! {

/// What `mime_guess::MimeGuess::from_ext(ext).first_raw()` returns.
pub uninterp spec fn mime_for_extension(ext: Seq<char>) -> Option<Seq<char>>;

/// `MimeGuess::from_ext(ext).first_raw()`: the first media type guessed for the extension;
/// for an empty extension the guess is documented to be empty.
#[verifier::external_body]
fn guess_mime(ext: &str) -> (r: Option<&'static str>)
    ensures
        match r {
            Some(m) => mime_for_extension(ext@) == Some(m@),
            None => mime_for_extension(ext@) is None,
        },
        ext@.len() == 0 ==> r is None,
{
    mime_guess::MimeGuess::from_ext(ext).first_raw()
}

/// The headers a served media file carries.
pub struct FileHeaders {
    /// The `Cache-Control` value: files never change under their URL.
    pub cache_control: String,
    /// The `Content-Type` value, when the extension gives one.
    pub content_type: Option<String>,
}

/// The headers of a served file whose path has the given extension (`None` when it has
/// none, or one that is not UTF-8): cached for a year as immutable, typed by extension.
pub fn file_headers(extension: Option<&str>) -> (r: FileHeaders)
    ensures
        r.cache_control@ == "public, max-age=31536000, immutable"@,
        match extension {
            Some(e) => match mime_for_extension(e@) {
                Some(m) => r.content_type matches Some(c) && c@ == m,
                None => r.content_type is None,
            },
            None => r.content_type is None,
        },
{
    let content_type = match extension {
        Some(e) => match guess_mime(e) {
            Some(m) => Some(String::from_str(m)),
            None => None,
        },
        None => None,
    };
    FileHeaders { cache_control: String::from_str("public, max-age=31536000, immutable"), content_type }
}

} // verus!
