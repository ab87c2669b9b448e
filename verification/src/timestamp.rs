use vstd::prelude::*;
use vstd::utf8::valid_utf8;
use chrono::TimeZone;
use vstd::string::StringSliceAdditionalSpecFns;

verus! {

/// An instant: whole seconds since 1970-01-01T00:00:00Z and the nanoseconds past them
/// (up to 1_999_999_999 inside a leap second).
#[derive(Clone, Copy, Debug)]
pub struct Moment {
    pub secs: i64,
    pub nanos: u32,
}

/// The format of a naive timestamp: `2024-05-01T10:20:30.000`.
pub open spec fn naive_format() -> Seq<char> {
    "%Y-%m-%dT%H:%M:%S%.3f"@
}

/// The format of a UTC timestamp: `2024-05-01T10:20:30.000Z`.
pub open spec fn utc_format() -> Seq<char> {
    "%Y-%m-%dT%H:%M:%S%.3fZ"@
}

/// The format of a timestamp with its offset: `2024-05-01T10:20:30.000+02:00`.
pub open spec fn offset_format() -> Seq<char> {
    "%Y-%m-%dT%H:%M:%S%.3f%:z"@
}

/// The format in which EXIF writes its date and time: `2024:05:01 10:20:30`.
pub open spec fn exif_format() -> Seq<char> {
    "%Y:%m:%d %H:%M:%S"@
}

/// The first of the two formats tried for a timestamp without offset.
pub open spec fn plain_format() -> Seq<char> {
    "%Y-%m-%dT%H:%M:%S"@
}

/// The second of the two formats tried for a timestamp without offset.
pub open spec fn fraction_format() -> Seq<char> {
    "%Y-%m-%dT%H:%M:%S%.f"@
}

/// The format of file times and indexing times: `2024-05-01T10:20:30.000Z`.
pub open spec fn file_time_format() -> Seq<char> {
    "%Y-%m-%dT%H:%M:%S.%3fZ"@
}

/// The formats this library writes with.
pub open spec fn known_format(f: Seq<char>) -> bool {
    f == naive_format() || f == utc_format() || f == offset_format() || f == file_time_format()
}

/// What `chrono::DateTime::<Utc>::from_timestamp(m.secs, m.nanos).is_some()` returns.
pub uninterp spec fn utc_representable(m: Moment) -> bool;

/// What `<chrono::DateTime<Utc> as FromStr>::from_str(s)` returns, read as an instant, or
/// as the text of chrono's parse error.
pub uninterp spec fn utc_parse(s: Seq<char>) -> Result<Moment, Seq<char>>;

/// What `chrono::DateTime::parse_from_rfc3339(s)` returns, read as the instant and the
/// offset in seconds east of UTC.
pub uninterp spec fn rfc3339_parse(s: Seq<char>) -> Option<(Moment, i32)>;

/// What `chrono::NaiveDateTime::parse_from_str(s, fmt)` returns, read as if it were UTC.
pub uninterp spec fn naive_parse(s: Seq<char>, fmt: Seq<char>) -> Option<Moment>;

/// What chrono writes for instant `m` seen at `offset` seconds east of UTC, in format `fmt`.
pub uninterp spec fn formatted(m: Moment, offset: i32, fmt: Seq<char>) -> Seq<char>;

/// What `FixedOffset::from_local_datetime` gives for the local time `local` (read as if
/// UTC) at `offset` seconds east of UTC, as the instant it denotes.
pub uninterp spec fn local_to_instant(local: Moment, offset: i32) -> Option<Moment>;

/// `DateTime::<Utc>::from_timestamp(m.secs, m.nanos)` succeeds.
#[verifier::external_body]
fn representable(m: Moment) -> (r: bool)
    ensures
        r == utc_representable(m),
{
    chrono::DateTime::from_timestamp(m.secs, m.nanos).is_some()
}

/// `FixedOffset::east_opt`: documented (and written) to succeed exactly for
/// `-86_400 < secs < 86_400`.
#[verifier::external_body]
fn offset_in_range(secs: i32) -> (r: bool)
    ensures
        r == (-86_400 < secs && secs < 86_400),
{
    chrono::FixedOffset::east_opt(secs).is_some()
}

/// `<DateTime<Utc> as FromStr>::from_str`, its error written with `to_string`. A parsed
/// date-time round-trips through `from_timestamp`, as chrono documents.
#[verifier::external_body]
pub(crate) fn parse_utc(s: &str) -> (r: Result<Moment, String>)
    ensures
        match r {
            Ok(m) => utc_parse(s@) == Ok::<Moment, Seq<char>>(m) && utc_representable(m),
            Err(e) => utc_parse(s@) == Err::<Moment, Seq<char>>(e@),
        },
{
    match s.parse::<chrono::DateTime<chrono::Utc>>() {
        Ok(d) => Ok(Moment { secs: d.timestamp(), nanos: d.timestamp_subsec_nanos() }),
        Err(e) => Err(e.to_string()),
    }
}

/// `DateTime::parse_from_rfc3339`. The offset of a `FixedOffset` is within a day.
#[verifier::external_body]
fn parse_rfc3339(s: &str) -> (r: Option<(Moment, i32)>)
    ensures
        r == rfc3339_parse(s@),
        r matches Some(p) ==> utc_representable(p.0) && -86_400 < p.1 < 86_400,
{
    chrono::DateTime::parse_from_rfc3339(s).ok().map(
        |d| (
            Moment { secs: d.timestamp(), nanos: d.timestamp_subsec_nanos() },
            d.offset().local_minus_utc(),
        ),
    )
}

/// `NaiveDateTime::parse_from_str`, the result read as if it were UTC.
#[verifier::external_body]
fn parse_naive(s: &str, fmt: &str) -> (r: Option<Moment>)
    ensures
        r == naive_parse(s@, fmt@),
        r matches Some(m) ==> utc_representable(m),
{
    chrono::NaiveDateTime::parse_from_str(s, fmt).ok().map(
        |d| Moment { secs: d.and_utc().timestamp(), nanos: d.and_utc().timestamp_subsec_nanos() },
    )
}

/// `DateTime::<FixedOffset>::format(fmt).to_string()` for the instant `m` at `offset`.
#[verifier::external_body]
fn format_moment(m: Moment, offset: i32, fmt: &str) -> (r: String)
    requires
        utc_representable(m),
        -86_400 < offset < 86_400,
        known_format(fmt@),
    ensures
        r@ == formatted(m, offset, fmt@),
{
    let tz = chrono::FixedOffset::east_opt(offset).unwrap();
    let d = chrono::DateTime::from_timestamp(m.secs, m.nanos).unwrap();
    d.with_timezone(&tz).format(fmt).to_string()
}

/// `TimeZone::from_local_datetime` of `FixedOffset`, the single result read as an instant.
/// chrono subtracts the offset keeping any leap-second fraction; with an offset of whole
/// minutes a leap second stays at second 59, so the instant is one `from_timestamp`
/// accepts.
#[verifier::external_body]
fn local_with_offset(local: Moment, offset: i32) -> (r: Option<Moment>)
    requires
        utc_representable(local),
        -86_400 < offset < 86_400,
        offset % 60 == 0,
    ensures
        r == local_to_instant(local, offset),
        r matches Some(m) ==> utc_representable(m),
{
    let naive = chrono::DateTime::from_timestamp(local.secs, local.nanos).unwrap().naive_utc();
    chrono::FixedOffset::east_opt(offset).unwrap().from_local_datetime(&naive).single().map(
        |d| Moment { secs: d.timestamp(), nanos: d.timestamp_subsec_nanos() },
    )
}

/// `std::str::from_utf8`: documented to succeed exactly on valid UTF-8, viewing the same bytes.
#[verifier::external_body]
fn utf8_text(b: &[u8]) -> (r: Option<&str>)
    ensures
        r is Some <==> valid_utf8(b@),
        r matches Some(s) ==> s.spec_bytes() == b@,
{
    std::str::from_utf8(b).ok()
}

} // verus!

verus! {

/// When a photo was taken, in the three shapes the library meets: a local time with no
/// zone, a time with its offset from UTC, and a UTC time.
#[derive(Clone, Copy, Debug)]
pub enum MediaTimestamp {
    /// A local time with no zone, kept as if it were UTC.
    Naive(Moment),
    /// An instant and the offset, in seconds east of UTC, it was recorded at.
    WithOffset(Moment, i32),
    /// An instant in UTC.
    Utc(Moment),
}

/// Why a text is not a timestamp.
#[derive(Debug)]
pub enum TimestampError {
    /// The text ends in 'Z' but is not a UTC date-time; chrono's message.
    BadUtc(String),
    /// The text has none of the accepted shapes.
    Invalid(String),
}

/// The instant a timestamp denotes, a naive one read as UTC.
pub open spec fn instant_of(t: MediaTimestamp) -> Moment {
    match t {
        MediaTimestamp::Naive(m) => m,
        MediaTimestamp::WithOffset(m, _) => m,
        MediaTimestamp::Utc(m) => m,
    }
}

/// What the display of a timestamp is.
pub open spec fn display_text(t: MediaTimestamp) -> Seq<char> {
    match t {
        MediaTimestamp::Naive(m) => formatted(m, 0, naive_format()),
        MediaTimestamp::WithOffset(m, o) => formatted(m, o, offset_format()),
        MediaTimestamp::Utc(m) => formatted(m, 0, utc_format()),
    }
}

/// What the UTC form of a timestamp is: its instant, written in UTC.
pub open spec fn normalized_text(t: MediaTimestamp) -> Seq<char> {
    formatted(instant_of(t), 0, utc_format())
}

/// The timestamp a text stands for, trying in turn: UTC (when it ends in 'Z'), RFC 3339,
/// and the two offset-less forms.
pub open spec fn parse_timestamp(s: Seq<char>) -> Option<MediaTimestamp> {
    if s.len() > 0 && s.last() == 'Z' {
        match utc_parse(s) {
            Ok(m) => Some(MediaTimestamp::Utc(m)),
            Err(_) => None,
        }
    } else {
        match rfc3339_parse(s) {
            Some(p) => Some(MediaTimestamp::WithOffset(p.0, p.1)),
            None => match naive_parse(s, plain_format()) {
                Some(m) => Some(MediaTimestamp::Naive(m)),
                None => match naive_parse(s, fraction_format()) {
                    Some(m) => Some(MediaTimestamp::Naive(m)),
                    None => None,
                },
            },
        }
    }
}

impl MediaTimestamp {
    /// The timestamp is one chrono can hold, so it can be written.
    pub open spec fn valid(&self) -> bool {
        match *self {
            MediaTimestamp::Naive(m) => utc_representable(m),
            MediaTimestamp::WithOffset(m, o) => utc_representable(m) && -86_400 < o < 86_400,
            MediaTimestamp::Utc(m) => utc_representable(m),
        }
    }

    /// Whether the timestamp is one chrono can hold.
    pub fn is_valid(&self) -> (r: bool)
        ensures
            r == self.valid(),
    {
        match *self {
            MediaTimestamp::Naive(m) => representable(m),
            MediaTimestamp::WithOffset(m, o) => representable(m) && offset_in_range(o),
            MediaTimestamp::Utc(m) => representable(m),
        }
    }

    /// The display form: naive times without zone, offset times with their offset, UTC
    /// times with 'Z', all to the millisecond.
    pub fn to_display_string(&self) -> (r: String)
        requires
            self.valid(),
        ensures
            r@ == display_text(*self),
    {
        match *self {
            MediaTimestamp::Naive(m) => format_moment(m, 0, "%Y-%m-%dT%H:%M:%S%.3f"),
            MediaTimestamp::WithOffset(m, o) => format_moment(m, o, "%Y-%m-%dT%H:%M:%S%.3f%:z"),
            MediaTimestamp::Utc(m) => format_moment(m, 0, "%Y-%m-%dT%H:%M:%S%.3fZ"),
        }
    }

    /// The instant in UTC, to the millisecond, with 'Z'; a naive time is taken as UTC.
    pub fn to_normalized_utc_string(&self) -> (r: String)
        requires
            self.valid(),
        ensures
            r@ == normalized_text(*self),
    {
        let m = match *self {
            MediaTimestamp::Naive(m) => m,
            MediaTimestamp::WithOffset(m, _) => m,
            MediaTimestamp::Utc(m) => m,
        };
        format_moment(m, 0, "%Y-%m-%dT%H:%M:%S%.3fZ")
    }

    /// Reads a timestamp: a text ending in 'Z' must be a UTC date-time; otherwise RFC 3339,
    /// then `%Y-%m-%dT%H:%M:%S`, then the same with a fraction, are tried in turn.
    pub fn from_str(s: &str) -> (r: Result<MediaTimestamp, TimestampError>)
        ensures
            r is Ok <==> parse_timestamp(s@) is Some,
            r matches Ok(t) ==> Some(t) == parse_timestamp(s@) && t.valid(),
            r matches Err(e) ==> (if s@.len() > 0 && s@.last() == 'Z' {
                e matches TimestampError::BadUtc(msg) && utc_parse(s@) == Err::<Moment, Seq<char>>(
                    msg@,
                )
            } else {
                e matches TimestampError::Invalid(text) && text@ == s@
            }),
            s@.len() > 0 && s@.last() == 'Z' ==> (utc_parse(s@) matches Ok(m) ==> r matches Ok(t)
                && t == MediaTimestamp::Utc(m)),
            !(s@.len() > 0 && s@.last() == 'Z') ==> (rfc3339_parse(s@) matches Some(p) ==> r matches Ok(
                t,
            ) && t == MediaTimestamp::WithOffset(p.0, p.1)),
            !(s@.len() > 0 && s@.last() == 'Z') && rfc3339_parse(s@) is None ==> (naive_parse(
                s@,
                plain_format(),
            ) matches Some(m) ==> r matches Ok(t) && t == MediaTimestamp::Naive(m)),
            !(s@.len() > 0 && s@.last() == 'Z') && rfc3339_parse(s@) is None && naive_parse(
                s@,
                plain_format(),
            ) is None ==> (naive_parse(s@, fraction_format()) matches Some(m) ==> r matches Ok(t)
                && t == MediaTimestamp::Naive(m)),
    {
        let n = s.unicode_len();
        if n > 0 && s.get_char(n - 1) == 'Z' {
            return match parse_utc(s) {
                Ok(m) => Ok(MediaTimestamp::Utc(m)),
                Err(e) => Err(TimestampError::BadUtc(e)),
            };
        }
        if let Some(p) = parse_rfc3339(s) {
            return Ok(MediaTimestamp::WithOffset(p.0, p.1));
        }
        if let Some(m) = parse_naive(s, "%Y-%m-%dT%H:%M:%S") {
            return Ok(MediaTimestamp::Naive(m));
        }
        if let Some(m) = parse_naive(s, "%Y-%m-%dT%H:%M:%S%.f") {
            return Ok(MediaTimestamp::Naive(m));
        }
        Err(TimestampError::Invalid(String::from_str(s)))
    }
}

impl std::str::FromStr for MediaTimestamp {
    type Err = TimestampError;

    fn from_str(s: &str) -> (r: Result<MediaTimestamp, TimestampError>)
        ensures
            r is Ok <==> parse_timestamp(s@) is Some,
            r matches Ok(t) ==> Some(t) == parse_timestamp(s@) && t.valid(),
            r matches Err(e) ==> (if s@.len() > 0 && s@.last() == 'Z' {
                e matches TimestampError::BadUtc(msg) && utc_parse(s@) == Err::<Moment, Seq<char>>(
                    msg@,
                )
            } else {
                e matches TimestampError::Invalid(text) && text@ == s@
            }),
    {
        MediaTimestamp::from_str(s)
    }
}

impl TimestampError {
    /// The message of the error.
    pub fn message(&self) -> (r: String)
        ensures
            match self {
                TimestampError::BadUtc(m) => r@ == m@,
                TimestampError::Invalid(s) => r@ == "Invalid MediaTimestamp '"@ + s@ + "'"@,
            },
    {
        match self {
            TimestampError::BadUtc(m) => m.clone(),
            TimestampError::Invalid(s) => {
                let mut m = String::from_str("Invalid MediaTimestamp '");
                m.append(s.as_str());
                m.append("'");
                m
            },
        }
    }
}

/// The text under which a file's modification time, or the time of indexing, is stored:
/// the instant in UTC to the millisecond; `None` for an instant chrono cannot hold.
pub fn file_time_text(m: Moment) -> (r: Option<String>)
    ensures
        r is Some <==> utc_representable(m),
        r matches Some(s) ==> s@ == formatted(m, 0, file_time_format()),
{
    if representable(m) {
        Some(format_moment(m, 0, "%Y-%m-%dT%H:%M:%S.%3fZ"))
    } else {
        None
    }
}

/// Every timestamp's UTC form is the display of the UTC timestamp at the same instant:
/// normalizing forgets the zone and keeps the instant.
pub proof fn lemma_normalized_is_utc_display(t: MediaTimestamp)
    ensures
        normalized_text(t) == display_text(MediaTimestamp::Utc(instant_of(t))),
{
}

/// A naive timestamp normalizes as the UTC timestamp with the same fields, and a UTC
/// timestamp's display is already its normal form.
pub proof fn lemma_naive_normalizes_as_utc(m: Moment)
    ensures
        normalized_text(MediaTimestamp::Naive(m)) == normalized_text(MediaTimestamp::Utc(m)),
        normalized_text(MediaTimestamp::Utc(m)) == display_text(MediaTimestamp::Utc(m)),
{
}

} // verus!

verus! {

/// `b` is an ASCII digit.
pub open spec fn is_digit(b: u8) -> bool {
    48 <= b <= 57
}

/// What `str::parse::<i32>` reads from a two-byte text: two digits, or a sign and a digit.
pub open spec fn two_byte_int(b0: u8, b1: u8) -> Option<int> {
    if is_digit(b0) && is_digit(b1) {
        Some(10 * (b0 - 48) + (b1 - 48))
    } else if b0 == 43 && is_digit(b1) {
        Some(b1 - 48)
    } else if b0 == 45 && is_digit(b1) {
        Some(-(b1 - 48))
    } else {
        None
    }
}

/// The offset, in seconds, that a six-byte text `±HH:MM` stands for, before the range check.
pub open spec fn offset_text_seconds(b: Seq<u8>) -> Option<int> {
    if b.len() != 6 || (b[0] != 43 && b[0] != 45) || b[3] != 58 {
        None
    } else {
        match (two_byte_int(b[1], b[2]), two_byte_int(b[4], b[5])) {
            (Some(hh), Some(mm)) => Some((if b[0] == 43 { 1int } else { -1int }) * (hh * 3600 + mm
                * 60)),
            _ => None,
        }
    }
}

/// The offset that a text `±HH:MM` denotes, if it denotes one less than a day from UTC.
pub open spec fn offset_of_text(b: Seq<u8>) -> Option<i32> {
    match offset_text_seconds(b) {
        Some(secs) => if -86_400 < secs < 86_400 {
            Some(secs as i32)
        } else {
            None
        },
        None => None,
    }
}

fn two_byte_int_exec(b0: u8, b1: u8) -> (r: Option<i32>)
    ensures
        match two_byte_int(b0, b1) {
            Some(v) => r == Some(v as i32),
            None => r is None,
        },
{
    let d0 = 48 <= b0 && b0 <= 57;
    let d1 = 48 <= b1 && b1 <= 57;
    if d0 && d1 {
        Some(10 * ((b0 - 48) as i32) + ((b1 - 48) as i32))
    } else if b0 == 43 && d1 {
        Some((b1 - 48) as i32)
    } else if b0 == 45 && d1 {
        Some(-((b1 - 48) as i32))
    } else {
        None
    }
}

/// Reads an EXIF offset text `±HH:MM` as seconds east of UTC; `None` when the text has
/// another shape or the offset is a day or more.
pub fn parse_offset(s: &str) -> (r: Option<i32>)
    ensures
        r == offset_of_text(s.spec_bytes()),
        r matches Some(secs) ==> secs % 60 == 0,
{
    let b = s.as_bytes();
    if b.len() != 6 {
        return None;
    }
    let sign: i32 = if b[0] == 43 {
        1
    } else if b[0] == 45 {
        -1
    } else {
        return None;
    };
    if b[3] != 58 {
        return None;
    }
    let hh = match two_byte_int_exec(b[1], b[2]) {
        Some(v) => v,
        None => return None,
    };
    let mm = match two_byte_int_exec(b[4], b[5]) {
        Some(v) => v,
        None => return None,
    };
    let secs: i32 = sign * (hh * 3600 + mm * 60);
    assert(secs % 60 == 0) by (nonlinear_arith)
        requires
            secs == sign * (hh * 3600 + mm * 60),
            sign == 1 || sign == -1,
    ;
    if offset_in_range(secs) {
        Some(secs)
    } else {
        None
    }
}

/// An EXIF field as the library reads it: missing, holding ASCII texts, or holding a
/// value of another kind.
pub enum ExifField {
    Absent,
    Ascii(Vec<Vec<u8>>),
    Other,
}

/// The field that is used of a preferred and a fallback tag: the preferred one when it is
/// present at all.
pub open spec fn chosen_field(preferred: ExifField, fallback: ExifField) -> ExifField {
    match preferred {
        ExifField::Absent => fallback,
        _ => preferred,
    }
}

/// The first text of a field, when it holds ASCII texts and that text is UTF-8.
pub open spec fn first_text(f: ExifField) -> Option<Seq<u8>> {
    match f {
        ExifField::Ascii(v) => if v@.len() > 0 && valid_utf8(v@[0]@) {
            Some(v@[0]@)
        } else {
            None
        },
        _ => None,
    }
}

/// When a photo was taken according to its EXIF data: the original (else digitized) date
/// and time, with the original (else digitized) offset when one is recorded and valid.
/// Where chrono finds no single instant for that local time at that offset (only at the
/// ends of its date range), the naive time is kept rather than panicking.
pub open spec fn exif_timestamp(
    date_original: ExifField,
    date_digitized: ExifField,
    offset_original: ExifField,
    offset_digitized: ExifField,
) -> Option<MediaTimestamp> {
    match first_text(chosen_field(date_original, date_digitized)) {
        None => None,
        Some(d) => match naive_parse(decode_text(d), exif_format()) {
            None => None,
            Some(local) => {
                let zoned = match first_text(chosen_field(offset_original, offset_digitized)) {
                    Some(o) => match offset_of_text(o) {
                        Some(off) => match local_to_instant(local, off) {
                            Some(m) => Some(MediaTimestamp::WithOffset(m, off)),
                            None => None,
                        },
                        None => None,
                    },
                    None => None,
                };
                match zoned {
                    Some(t) => Some(t),
                    None => Some(MediaTimestamp::Naive(local)),
                }
            },
        },
    }
}

/// A recorded offset that reads as one, east or west of UTC, is kept: the photo's timestamp
/// is the instant its local time denotes at that offset, carrying the offset.
pub proof fn lemma_exif_offset_kept(
    date_original: ExifField,
    date_digitized: ExifField,
    offset_original: ExifField,
    offset_digitized: ExifField,
    d: Seq<u8>,
    local: Moment,
    o: Seq<u8>,
    off: i32,
    m: Moment,
)
    requires
        first_text(chosen_field(date_original, date_digitized)) == Some(d),
        naive_parse(decode_text(d), exif_format()) == Some(local),
        first_text(chosen_field(offset_original, offset_digitized)) == Some(o),
        offset_of_text(o) == Some(off),
        local_to_instant(local, off) == Some(m),
    ensures
        exif_timestamp(date_original, date_digitized, offset_original, offset_digitized) == Some(
            MediaTimestamp::WithOffset(m, off),
        ),
{
}

/// Without a recorded offset the photo's timestamp is its local time, naive; without a
/// readable date there is none.
pub proof fn lemma_exif_without_offset(
    date_original: ExifField,
    date_digitized: ExifField,
    offset_original: ExifField,
    offset_digitized: ExifField,
)
    ensures
        first_text(chosen_field(date_original, date_digitized)) is None ==> exif_timestamp(
            date_original,
            date_digitized,
            offset_original,
            offset_digitized,
        ) is None,
        first_text(chosen_field(date_original, date_digitized)) matches Some(d) ==> (naive_parse(
            decode_text(d),
            exif_format(),
        ) matches Some(local) ==> (first_text(chosen_field(offset_original, offset_digitized))
            is None ==> exif_timestamp(date_original, date_digitized, offset_original, offset_digitized)
            == Some(MediaTimestamp::Naive(local)))),
{
}

/// West of UTC as well as east: a text `-HH:MM` of hours and minutes under a day reads as
/// the negated offset of `+HH:MM`.
pub proof fn lemma_offset_sign(h1: u8, h2: u8, m1: u8, m2: u8)
    requires
        is_digit(h1) && is_digit(h2) && is_digit(m1) && is_digit(m2),
    ensures
        offset_of_text(seq![45u8, h1, h2, 58u8, m1, m2]) matches Some(west) ==> offset_of_text(
            seq![43u8, h1, h2, 58u8, m1, m2],
        ) == Some((-west) as i32),
        offset_of_text(seq![43u8, h1, h2, 58u8, m1, m2]) matches Some(east) ==> offset_of_text(
            seq![45u8, h1, h2, 58u8, m1, m2],
        ) == Some((-east) as i32),
        offset_of_text(seq![43u8, h1, h2, 58u8, m1, m2]) is Some <==> offset_of_text(
            seq![45u8, h1, h2, 58u8, m1, m2],
        ) is Some,
{
    let west = seq![45u8, h1, h2, 58u8, m1, m2];
    let east = seq![43u8, h1, h2, 58u8, m1, m2];
    assert(west.len() == 6 && west[0] == 45u8 && west[1] == h1 && west[2] == h2 && west[3] == 58u8
        && west[4] == m1 && west[5] == m2);
    assert(east.len() == 6 && east[0] == 43u8 && east[1] == h1 && east[2] == h2 && east[3] == 58u8
        && east[4] == m1 && east[5] == m2);
    let secs: int = (10 * (h1 - 48) + (h2 - 48)) * 3600 + (10 * (m1 - 48) + (m2 - 48)) * 60;
    assert(offset_text_seconds(east) == Some(secs));
    assert((if west[0] == 43 { 1int } else { -1int }) == -1int);
    assert(-1int * secs == -secs);
    assert(offset_text_seconds(west) == Some(-secs));
    if -86_400 < secs < 86_400 {
        assert(offset_of_text(east) == Some(secs as i32));
        assert(offset_of_text(west) == Some((-secs) as i32));
        assert((secs as i32) as int == secs);
        assert(((-secs) as i32) as int == -secs);
    }
}

/// The characters of valid UTF-8 bytes.
pub open spec fn decode_text(b: Seq<u8>) -> Seq<char> {
    vstd::utf8::decode_utf8(b)
}

fn first_text_exec(f: &ExifField) -> (r: Option<&str>)
    ensures
        match first_text(*f) {
            Some(b) => r matches Some(s) && s.spec_bytes() == b,
            None => r is None,
        },
{
    match f {
        ExifField::Ascii(v) => {
            if v.len() > 0 {
                utf8_text(v[0].as_slice())
            } else {
                None
            }
        },
        _ => None,
    }
}

fn choose_field<'a>(preferred: &'a ExifField, fallback: &'a ExifField) -> (r: &'a ExifField)
    ensures
        *r == chosen_field(*preferred, *fallback),
{
    match preferred {
        ExifField::Absent => fallback,
        _ => preferred,
    }
}

/// Reads when a photo was taken from its EXIF date, time and offset fields. Where the
/// local time has no single instant at the recorded offset, the naive time is returned
/// (a deliberate choice: this function does not panic).
pub fn get_exif_timestamp(
    date_original: &ExifField,
    date_digitized: &ExifField,
    offset_original: &ExifField,
    offset_digitized: &ExifField,
) -> (r: Option<MediaTimestamp>)
    ensures
        r == exif_timestamp(*date_original, *date_digitized, *offset_original, *offset_digitized),
        r matches Some(t) ==> t.valid(),
        first_text(chosen_field(*date_original, *date_digitized)) is None ==> r is None,
        first_text(chosen_field(*date_original, *date_digitized)) matches Some(d) ==> (naive_parse(
            decode_text(d),
            exif_format(),
        ) is None ==> r is None),
        first_text(chosen_field(*date_original, *date_digitized)) matches Some(d) ==> (naive_parse(
            decode_text(d),
            exif_format(),
        ) matches Some(local) ==> (first_text(chosen_field(*offset_original, *offset_digitized))
            matches Some(o) ==> (offset_of_text(o) matches Some(off) ==> (local_to_instant(
            local,
            off,
        ) matches Some(m) ==> r == Some(MediaTimestamp::WithOffset(m, off)))))),
        first_text(chosen_field(*date_original, *date_digitized)) matches Some(d) ==> (naive_parse(
            decode_text(d),
            exif_format(),
        ) matches Some(local) ==> (first_text(chosen_field(*offset_original, *offset_digitized))
            is None ==> r == Some(MediaTimestamp::Naive(local)))),
{
    broadcast use vstd::utf8::encode_utf8_decode_utf8, vstd::utf8::decode_utf8_encode_utf8;
    let date = match first_text_exec(choose_field(date_original, date_digitized)) {
        Some(s) => s,
        None => return None,
    };
    proof {
        assert(date@ == decode_text(date.spec_bytes()));
    }
    let local = match parse_naive(date, "%Y:%m:%d %H:%M:%S") {
        Some(m) => m,
        None => return None,
    };
    if let Some(o) = first_text_exec(choose_field(offset_original, offset_digitized)) {
        if let Some(off) = parse_offset(o) {
            if let Some(m) = local_with_offset(local, off) {
                return Some(MediaTimestamp::WithOffset(m, off));
            }
        }
    }
    Some(MediaTimestamp::Naive(local))
}

} // verus!
