//! Calls into std and outside crates whose results the verified code
//! relies on. Each function states only what the called code guarantees.
use vstd::prelude::*;

verus! {

/// What `str::to_lowercase` makes of a text.
pub uninterp spec fn lower_of(s: Seq<char>) -> Seq<char>;

/// The MIME type that `mime_guess` infers from a path, as text.
pub uninterp spec fn guessed_mime(path: Seq<char>) -> Option<Seq<char>>;

/// The RFC 3339 text that `chrono` gives for a UTC instant, `None` where
/// `chrono` cannot represent the instant.
pub uninterp spec fn rfc3339_text(secs: i64, nanos: u32) -> Option<Seq<char>>;

/// The host and port that `url` reads from a URI, `None` where the URI
/// does not parse.
pub uninterp spec fn uri_authority(uri: Seq<char>) -> Option<(Option<Seq<char>>, Option<u16>)>;

/// `url::ParseError`, carried opaque: only whether parsing failed is used.
#[verifier::external_type_specification]
#[verifier::external_body]
pub struct ExUrlParseError(url::ParseError);

/// Relies on `str::to_lowercase`: the result depends on the text alone.
#[verifier::external_body]
pub(crate) fn lowercase(s: &str) -> (r: String)
    ensures
        r@ == lower_of(s@),
{
    s.to_lowercase()
}

/// Relies on `uuid::Uuid::new_v4` and its `Display`, which writes the
/// hyphenated form: 36 characters, hyphens at positions 8, 13, 18 and 23.
#[verifier::external_body]
pub(crate) fn new_record_id() -> (r: String)
    ensures
        r@.len() == 36,
        r@[8] == '-' && r@[13] == '-' && r@[18] == '-' && r@[23] == '-',
{
    uuid::Uuid::new_v4().to_string()
}

/// Relies on `mime_guess::MimeGuess::from_path` and `first`: the first
/// MIME type known for the path's extension.
#[verifier::external_body]
pub(crate) fn guess_mime(path: &str) -> (r: Option<String>)
    ensures
        match r {
            Some(m) => guessed_mime(path@) == Some(m@),
            None => guessed_mime(path@) is None,
        },
{
    mime_guess::MimeGuess::from_path(path).first().map(|m| m.to_string())
}

/// Relies on `chrono::DateTime::<Utc>::from_timestamp` and `to_rfc3339`.
#[verifier::external_body]
pub(crate) fn format_rfc3339(secs: i64, nanos: u32) -> (r: Option<String>)
    ensures
        match r {
            Some(t) => rfc3339_text(secs, nanos) == Some(t@),
            None => rfc3339_text(secs, nanos) is None,
        },
{
    chrono::DateTime::<chrono::Utc>::from_timestamp(secs, nanos).map(|d| d.to_rfc3339())
}

/// Relies on `chrono::Utc::now`: its seconds and nanoseconds, which
/// `from_timestamp` is documented to take back.
#[verifier::external_body]
pub(crate) fn utc_now() -> (r: (i64, u32))
    ensures
        rfc3339_text(r.0, r.1) is Some,
{
    let now = chrono::Utc::now();
    (now.timestamp(), now.timestamp_subsec_nanos())
}

/// Relies on `url::Url::parse`, `host_str` and `port`.
#[verifier::external_body]
pub(crate) fn parse_authority(uri: &str) -> (r: Result<(Option<String>, Option<u16>), url::ParseError>)
    ensures
        match r {
            Ok((h, p)) => uri_authority(uri@) == Some(
                (
                    match h {
                        Some(s) => Some(s@),
                        None => None,
                    },
                    p,
                ),
            ),
            Err(_) => uri_authority(uri@) is None,
        },
{
    let u = url::Url::parse(uri)?;
    Ok((u.host_str().map(|h| h.to_string()), u.port()))
}

} // verus!
