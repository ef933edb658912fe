//! Crawl snapshot references: `CC-MAIN-YYYY-WW` and `CC-NEWS-YYYY-MM`.

use crate::text::all_ascii_digits;
use crate::third_party::ascii_upper_char;
use crate::third_party::regex_captures;
use crate::third_party::to_uppercase;
use crate::third_party::uppercased;
use vstd::prelude::*;
use vstd::utf8::is_ascii_chars;

verus! {

/// The pattern that a main crawl reference matches.
pub const MAIN_CRAWL_PATTERN: &'static str = r"^(CC\-MAIN)\-([0-9]{4})\-([0-9]{2})$";

/// The pattern that a news crawl reference matches.
pub const NEWS_CRAWL_PATTERN: &'static str = r"^(CC\-NEWS)\-([0-9]{4})\-([0-9]{2})$";

/// `h` is `prefix`, a dash, four digits, a dash and two digits, and nothing more.
pub open spec fn matches_crawl_ref(prefix: Seq<char>, h: Seq<char>) -> bool {
    let p = prefix.len() as int;
    &&& h.len() == p + 8
    &&& h.subrange(0, p) == prefix
    &&& h[p] == '-'
    &&& all_ascii_digits(h.subrange(p + 1, p + 5))
    &&& h[p + 5] == '-'
    &&& all_ascii_digits(h.subrange(p + 6, p + 8))
}

/// The capture groups of a crawl reference `h` whose prefix is `p` characters long: the
/// whole reference, the prefix, the year and the last two digits.
pub open spec fn crawl_ref_groups(p: int, h: Seq<char>) -> Seq<Seq<char>> {
    seq![h, h.subrange(0, p), h.subrange(p + 1, p + 5), h.subrange(p + 6, p + 8)]
}

/// A main crawl reference (`CC-MAIN-YYYY-WW`).
pub open spec fn is_main_crawl_ref(h: Seq<char>) -> bool {
    matches_crawl_ref("CC-MAIN"@, h)
}

/// A news crawl reference (`CC-NEWS-YYYY-MM`).
pub open spec fn is_news_crawl_ref(h: Seq<char>) -> bool {
    matches_crawl_ref("CC-NEWS"@, h)
}

/// A crawl reference of either kind.
pub open spec fn is_crawl_ref(h: Seq<char>) -> bool {
    is_main_crawl_ref(h) || is_news_crawl_ref(h)
}


/// What a snapshot reference that is not a crawl reference is answered.
pub const CRAWL_FORMAT_MESSAGE: &'static str = "Please use the CC-MAIN-YYYY-WW or the CC-NEWS-YYYY-MM format.";

/// A snapshot reference, upper-cased, where that is a crawl reference; else the message.
pub open spec fn crawl_name_result(crawl: Seq<char>) -> Result<Seq<char>, Seq<char>> {
    let u = uppercased(crawl);
    if is_crawl_ref(u) {
        Ok(u)
    } else {
        Err(CRAWL_FORMAT_MESSAGE@)
    }
}

/// Whether `haystack` matches the crawl reference pattern `pattern`.
pub fn crawl_pattern_matches(pattern: &'static str, haystack: &str) -> (r: bool)
    requires
        pattern@ == MAIN_CRAWL_PATTERN@ || pattern@ == NEWS_CRAWL_PATTERN@,
    ensures
        pattern@ == MAIN_CRAWL_PATTERN@ ==> r == is_main_crawl_ref(haystack@),
        pattern@ == NEWS_CRAWL_PATTERN@ ==> r == is_news_crawl_ref(haystack@),
{
    match regex_captures(pattern, haystack) {
        Ok(Some(_)) => true,
        Ok(None) => false,
        Err(_) => false,
    }
}

/// Accepts an upper-cased snapshot reference where it is a crawl reference; else the
/// message.
pub fn accept_crawl_ref(crawl_ref: String) -> (r: Result<String, String>)
    ensures
        is_crawl_ref(crawl_ref@) ==> r == Ok::<String, String>(crawl_ref),
        !is_crawl_ref(crawl_ref@) ==> (r matches Err(m) && m@ == CRAWL_FORMAT_MESSAGE@),
{
    if !(crawl_pattern_matches(MAIN_CRAWL_PATTERN, crawl_ref.as_str()) || crawl_pattern_matches(
        NEWS_CRAWL_PATTERN,
        crawl_ref.as_str(),
    )) {
        Err(CRAWL_FORMAT_MESSAGE.to_owned())
    } else {
        Ok(crawl_ref)
    }
}

/// Checks that `crawl`, upper-cased, is a crawl reference (`CC-MAIN-YYYY-WW` or
/// `CC-NEWS-YYYY-MM`), and gives it upper-cased.
pub fn crawl_name_format(crawl: &str) -> (r: Result<String, String>)
    ensures
        match r {
            Ok(s) => crawl_name_result(crawl@) == Ok::<Seq<char>, Seq<char>>(s@),
            Err(m) => crawl_name_result(crawl@) == Err::<Seq<char>, Seq<char>>(m@),
        },
        is_crawl_ref(uppercased(crawl@)) ==> (r matches Ok(s) && s@ == uppercased(crawl@)),
        !is_crawl_ref(uppercased(crawl@)) ==> (r matches Err(m) && m@ == CRAWL_FORMAT_MESSAGE@),
{
    accept_crawl_ref(to_uppercase(crawl))
}

/// A crawl reference is written in ASCII upper case: upper-casing it again leaves it
/// as it is.
pub proof fn law_accepted_reference_is_canonical(crawl: Seq<char>)
    requires
        crawl_name_result(crawl) is Ok,
    ensures
        is_crawl_ref(crawl_name_result(crawl)->Ok_0),
        is_ascii_chars(crawl_name_result(crawl)->Ok_0),
        crawl_name_result(crawl)->Ok_0.map_values(|c: char| ascii_upper_char(c)) == crawl_name_result(crawl)->Ok_0,
{
    let u = crawl_name_result(crawl)->Ok_0;
    let prefix = if is_main_crawl_ref(u) { "CC-MAIN"@ } else { "CC-NEWS"@ };
    reveal_strlit("CC-MAIN");
    reveal_strlit("CC-NEWS");
    assert(matches_crawl_ref(prefix, u));
    assert forall|i: int| 0 <= i < u.len() implies (u[i] as u32) < 128 && ascii_upper_char(u[i]) == u[i] by {
        if i < 7 {
            assert(u[i] == u.subrange(0, 7)[i]);
        } else if 8 <= i < 12 {
            assert(u[i] == u.subrange(8, 12)[i - 8]);
        } else if 13 <= i < 15 {
            assert(u[i] == u.subrange(13, 15)[i - 13]);
        }
    }
    assert(u.map_values(|c: char| ascii_upper_char(c)) =~= u);
}

/// Every snapshot reference whose upper-casing is a crawl reference (`CC-MAIN` or
/// `CC-NEWS`, a dash, four digits, a dash, two digits) is accepted, and comes back
/// upper-cased; every other one is answered with the format message.
pub proof fn law_crawl_references_accepted(crawl: Seq<char>)
    ensures
        is_crawl_ref(uppercased(crawl)) ==> crawl_name_result(crawl) == Ok::<Seq<char>, Seq<char>>(
            uppercased(crawl),
        ),
        !is_crawl_ref(uppercased(crawl)) ==> crawl_name_result(crawl) == Err::<Seq<char>, Seq<char>>(
            CRAWL_FORMAT_MESSAGE@,
        ),
{
}

/// A main crawl reference is exactly fifteen characters: `CC-MAIN-`, four ASCII digits
/// (the year), a dash and two ASCII digits (the week); and no main crawl reference is a
/// news crawl reference.
pub proof fn law_main_crawl_ref_shape(h: Seq<char>)
    ensures
        is_main_crawl_ref(h) <==> {
            &&& h.len() == 15
            &&& h.subrange(0, 8) == "CC-MAIN-"@
            &&& all_ascii_digits(h.subrange(8, 12))
            &&& h[12] == '-'
            &&& all_ascii_digits(h.subrange(13, 15))
        },
        is_main_crawl_ref(h) ==> !is_news_crawl_ref(h),
{
    reveal_strlit("CC-MAIN");
    reveal_strlit("CC-MAIN-");
    reveal_strlit("CC-NEWS");
    if h.len() == 15 {
        if h.subrange(0, 8) == "CC-MAIN-"@ {
            assert(h.subrange(0, 7) =~= "CC-MAIN"@);
            assert(h[7] == h.subrange(0, 8)[7]);
        }
        if is_main_crawl_ref(h) {
            assert(h.subrange(0, 8) =~= "CC-MAIN-"@);
        }
        if is_main_crawl_ref(h) && is_news_crawl_ref(h) {
            assert(h.subrange(0, 7)[3] == 'M');
            assert(h.subrange(0, 7)[3] == 'N');
        }
    }
}

} // verus!
