//! The calls this library makes into code it does not prove: each item states what the
//! outside function is believed to do.

use flate2::read::GzDecoder;
use flate2::write::GzEncoder;
use flate2::Compression;
use std::io::Read;
use std::io::Write;
use crate::snapshot::crawl_ref_groups;
use crate::snapshot::is_main_crawl_ref;
use crate::snapshot::is_news_crawl_ref;
use crate::snapshot::MAIN_CRAWL_PATTERN;
use crate::snapshot::NEWS_CRAWL_PATTERN;
use crate::text::last_path_segment;
use crate::text::opt_string_view;
use regex::Regex;
use vstd::prelude::*;
use vstd::utf8::is_ascii_chars;
use vstd::utf8::decode_utf8;
use vstd::utf8::valid_utf8;

verus! {

/// What reading a gzip decoder over `data` to its end gives: the bytes decoded before any
/// error, and whether the end of the stream was reached without one.
pub uninterp spec fn gunzip_output(data: Seq<u8>) -> (Seq<u8>, bool);

/// The decompressed content of `data`, where it decompresses without an error.
pub open spec fn gunzipped(data: Seq<u8>) -> Option<Seq<u8>> {
    if gunzip_output(data).1 {
        Some(gunzip_output(data).0)
    } else {
        None
    }
}

/// The gzip stream that compression of `data` at the default level produces.
pub uninterp spec fn gzipped(data: Seq<u8>) -> Seq<u8>;

/// Decompresses `data` with `flate2::read::GzDecoder`, reading it to the end
/// (`std::io::Read::read_to_end`, which keeps the bytes read before an error).
///
/// Claimed: the bytes and the outcome depend on `data` alone, and a stream that the
/// default-level `GzEncoder` wrote for some bytes decompresses, without error, to exactly
/// those bytes.
#[verifier::external_body]
pub(crate) fn gunzip(data: &[u8]) -> (r: (Vec<u8>, Result<(), std::io::Error>))
    ensures
        r.0@ == gunzip_output(data@).0,
        r.1 is Ok <==> gunzip_output(data@).1,
        r.1 is Err ==> forall|p: Seq<u8>| gzipped(p) != data@,
        r.1 is Ok ==> forall|p: Seq<u8>| #[trigger] gzipped(p) == data@ ==> r.0@ == p,
{
    let mut out: Vec<u8> = Vec::new();
    let outcome = GzDecoder::new(data).read_to_end(&mut out).map(|_| ());
    (out, outcome)
}

/// Compresses `data` with `flate2::write::GzEncoder` at `Compression::default()`
/// (`write_all`, then `finish`).
///
/// Claimed: writing into a `Vec` never fails, and the stream depends on `data` alone.
#[verifier::external_body]
pub(crate) fn gzip(data: &[u8]) -> (r: Result<Vec<u8>, std::io::Error>)
    ensures
        r is Ok,
        r matches Ok(v) ==> v@ == gzipped(data@),
{
    let mut encoder = GzEncoder::new(Vec::new(), Compression::default());
    encoder.write_all(data)?;
    encoder.finish()
}

/// Decodes `bytes` as UTF-8 with `String::from_utf8`.
///
/// Claimed: it succeeds exactly on valid UTF-8 (vstd's `valid_utf8`), and then holds the
/// decoded characters (vstd's `decode_utf8`).
#[verifier::external_body]
pub(crate) fn utf8_string(bytes: Vec<u8>) -> (r: Option<String>)
    ensures
        r is Some <==> valid_utf8(bytes@),
        r matches Some(s) ==> s@ == decode_utf8(bytes@),
{
    String::from_utf8(bytes).ok()
}


/// A regular expression that failed to compile (`regex::Error`), carried through unchanged.
#[verifier::external_type_specification]
#[verifier::external_body]
pub struct ExRegexError(regex::Error);

/// What compiling `pattern` and matching it against `haystack` gives: `None` where the
/// pattern does not compile; else `None` inside where it does not match, and the text of
/// each capture group (the whole match first) where it does.
pub uninterp spec fn regex_capture_groups(pattern: Seq<char>, haystack: Seq<char>) -> Option<Option<Seq<Seq<char>>>>;

/// The capture groups as character sequences.
pub open spec fn groups_view(groups: Vec<String>) -> Seq<Seq<char>> {
    groups.deep_view()
}

/// Compiles `pattern` with `regex::Regex::new` and matches it against `haystack` with
/// `Regex::captures`, handing out the text of every capture group (the whole match first;
/// an empty string for a group that took no part).
///
/// Claimed: the result depends on `pattern` and `haystack` alone; and, as the crate's
/// syntax documentation gives it, the two crawl reference patterns compile, match exactly
/// a full prefix-dash-four-ASCII-digits-dash-two-ASCII-digits text, and capture the
/// prefix, the four digits and the two digits.
#[verifier::external_body]
pub(crate) fn regex_captures(pattern: &str, haystack: &str) -> (r: Result<Option<Vec<String>>, regex::Error>)
    ensures
        r is Err <==> regex_capture_groups(pattern@, haystack@) is None,
        r matches Ok(c) ==> regex_capture_groups(pattern@, haystack@) == Some(
            match c {
                Some(g) => Some(groups_view(g)),
                None => None,
            },
        ),
        r is Err ==> pattern@ != MAIN_CRAWL_PATTERN@ && pattern@ != NEWS_CRAWL_PATTERN@,
        r matches Ok(c) ==> (pattern@ == MAIN_CRAWL_PATTERN@ ==> (c is Some <==> is_main_crawl_ref(haystack@))),
        r matches Ok(c) ==> (pattern@ == NEWS_CRAWL_PATTERN@ ==> (c is Some <==> is_news_crawl_ref(haystack@))),
        r matches Ok(Some(g)) ==> (pattern@ == MAIN_CRAWL_PATTERN@ || pattern@ == NEWS_CRAWL_PATTERN@ ==> groups_view(g) == crawl_ref_groups(7, haystack@)),
{
    let re = Regex::new(pattern)?;
    Ok(re.captures(haystack).map(|caps| caps.iter().map(|m| m.map_or(String::new(), |m| m.as_str().to_string())).collect()))
}

/// The character that `char::to_uppercase` gives for an ASCII character.
pub open spec fn ascii_upper_char(c: char) -> char {
    if 'a' <= c <= 'z' {
        ((c as u32) - 32) as char
    } else {
        c
    }
}

/// What `str::to_uppercase` gives for `s`.
pub uninterp spec fn uppercased(s: Seq<char>) -> Seq<char>;

/// Upper-cases `s` with `str::to_uppercase`.
///
/// Claimed: the result depends on `s` alone, and on ASCII text it maps `a`..`z` to
/// `A`..`Z` and leaves every other character as it is.
#[verifier::external_body]
pub(crate) fn to_uppercase(s: &str) -> (r: String)
    ensures
        r@ == uppercased(s@),
        is_ascii_chars(s@) ==> r@ == s@.map_values(|c: char| ascii_upper_char(c)),
{
    s.to_uppercase()
}

/// A parsed URL, as the library reads it.
pub struct ParsedUrl {
    /// The URL's serialization (`Url::as_str`, also what it displays as).
    pub serialization: String,
    /// The URL's path (`Url::path`).
    pub path: String,
    /// The last segment of the path, where the URL has a path of segments
    /// (`Url::path_segments`, then the last of them).
    pub last_segment: Option<String>,
}

/// What parsing `input` as an absolute URL gives: the serialization, the path and the last
/// path segment, or the parser's error where `input` is not a valid URL.
pub uninterp spec fn url_parts(input: Seq<char>) -> Result<(Seq<char>, Seq<char>, Option<Seq<char>>), url::ParseError>;

/// Parses `input` with `url::Url::parse` and reads the parts the library uses
/// (`Url::as_str`, `Url::path`, and the last item of `Url::path_segments`).
///
/// Claimed: the result depends on `input` alone, and the last path segment is what
/// follows the path's last `/` where the path starts with `/` (`path_segments` splits the
/// path after its leading `/`), and none otherwise.
#[verifier::external_body]
pub(crate) fn parse_url(input: &str) -> (r: Result<ParsedUrl, url::ParseError>)
    ensures
        r matches Err(e) ==> (url_parts(input@) matches Err(pe) && pe == e),
        r matches Ok(u) ==> (url_parts(input@) matches Ok(parts) && parts == (
            u.serialization@,
            u.path@,
            opt_string_view(u.last_segment),
        )),
        r matches Ok(u) ==> opt_string_view(u.last_segment) == last_path_segment(u.path@),
{
    let url = url::Url::parse(input)?;
    Ok(ParsedUrl {
        serialization: url.as_str().to_string(),
        path: url.path().to_string(),
        last_segment: url.path_segments().and_then(|mut segments| segments.next_back()).map(|s| s.to_string()),
    })
}

} // verus!
