//! Trusted items: the calls into std functions that vstd does not specify
//! and into the outside crates (`url`, `globset`, `regex`, `chrono`). Each
//! contract here is believed by Verus; its doc comment names the function
//! that is called and says what is claimed of it.

use vstd::prelude::*;
use crate::engine::has_glob_meta;
use crate::text::{all_ascii, ascii_lower, is_prefix};

verus! {

/// `String::push`: the character is appended at the end.
#[verifier::external_body]
pub(crate) fn push_char(s: &mut String, c: char)
    ensures
        final(s)@ == old(s)@.push(c),
{
    s.push(c);
}

/// What `str::to_lowercase` returns for a string (Unicode lowercase
/// mapping, context-dependent for final sigma).
pub uninterp spec fn lowercase(s: Seq<char>) -> Seq<char>;

/// `str::to_lowercase`. Claimed: the result is `lowercase` of the input, and
/// for an all-ASCII input it is the ASCII lowercase mapping, as std
/// documents (ASCII letters map to their lowercase; other ASCII characters
/// are unchanged). Two more facts of the Unicode lowercase mapping std
/// applies: a leading `*.` is kept and the rest is lowercased as on its
/// own (`*` and `.` have no lowercase mapping, and the one
/// context-dependent mapping, a word-final capital sigma, needs a cased
/// letter before it, which `*` is not); and `*`, `?` and `[` occur in the
/// result exactly when they occur in the input (they map to themselves, and
/// no character's lowercase holds them).
#[verifier::external_body]
pub(crate) fn to_lowercase(s: &str) -> (r: String)
    ensures
        r@ == lowercase(s@),
        all_ascii(s@) ==> r@ == ascii_lower(s@),
        is_prefix(seq!['*', '.'], s@) ==> r@ == seq!['*', '.'] + lowercase(s@.skip(2)),
        has_glob_meta(r@) == has_glob_meta(s@),
{
    s.to_lowercase()
}

/// What `<str as Debug>::fmt` writes for a string: the quoted, escaped form.
pub uninterp spec fn str_debug(s: Seq<char>) -> Seq<char>;

/// `format!("{:?}", s)` for a string slice. Claimed: the result is
/// `str_debug` of the input.
#[verifier::external_body]
pub(crate) fn debug_str(s: &str) -> (r: String)
    ensures
        r@ == str_debug(s@),
{
    format!("{:?}", s)
}

/// What `url::Url::parse` gives for a string: `None` when it fails,
/// otherwise the URL's `host_str()` and `scheme()`.
pub uninterp spec fn url_parts(s: Seq<char>) -> Option<(Option<Seq<char>>, Seq<char>)>;

/// `url::Url::parse`, then `host_str` and `scheme` of the parsed URL.
/// Claimed: the result is `url_parts` of the input.
#[verifier::external_body]
pub(crate) fn parse_url(s: &str) -> (r: Option<(Option<String>, String)>)
    ensures
        match r {
            Some((h, sc)) => url_parts(s@) == Some((
                match h {
                    Some(x) => Some(x@),
                    None => None,
                },
                sc@,
            )),
            None => url_parts(s@) is None,
        },
{
    match url::Url::parse(s) {
        Ok(u) => Some((u.host_str().map(|h| h.to_string()), u.scheme().to_string())),
        Err(_) => None,
    }
}

/// What `url::Url::parse(base)` followed by `Url::join(location)` renders
/// as a string; `None` when either step fails.
pub uninterp spec fn url_join(base: Seq<char>, location: Seq<char>) -> Option<Seq<char>>;

/// `url::Url::parse` of `base`, `Url::join` of `location` against it, and
/// the joined URL's string form. Claimed: the result is `url_join` of the
/// two inputs.
#[verifier::external_body]
pub(crate) fn join_url(base: &str, location: &str) -> (r: Option<String>)
    ensures
        match r {
            Some(x) => url_join(base@, location@) == Some(x@),
            None => url_join(base@, location@) is None,
        },
{
    match url::Url::parse(base) {
        Ok(b) => match b.join(location) {
            Ok(j) => Some(j.to_string()),
            Err(_) => None,
        },
        Err(_) => None,
    }
}

/// The longest glob pattern, in characters, handed to `globset`. Building
/// a glob set compiles the pattern's literal prefix or suffix into an
/// `aho-corasick` automaton and unwraps the result; that build fails only
/// past about 2^31 states, which a pattern below this length (at most
/// 2^30 bytes of UTF-8) cannot reach.
pub const GLOB_MAX_CHARS: usize = 0x1000_0000;

/// The message of the error `globset::Glob::new` returns for a pattern (a
/// parse error); `None` when the pattern parses.
pub uninterp spec fn glob_parse_error(pattern: Seq<char>) -> Option<Seq<char>>;

/// `globset::Glob::new`, with its error rendered by `Display`. Claimed: the
/// result is `glob_parse_error` of the pattern.
#[verifier::external_body]
pub(crate) fn glob_error(pattern: &str) -> (r: Option<String>)
    ensures
        match r {
            Some(e) => glob_parse_error(pattern@) == Some(e@),
            None => glob_parse_error(pattern@) is None,
        },
{
    match globset::Glob::new(pattern) {
        Ok(_) => None,
        Err(e) => Some(e.to_string()),
    }
}

/// Whether the glob set built from the pattern matches the text
/// (`GlobSet::is_match`); `false` when the pattern does not parse or its
/// glob set cannot be built (its regex exceeds the size limit).
pub uninterp spec fn glob_match(pattern: Seq<char>, text: Seq<char>) -> bool;

/// `globset::Glob::new(pattern)`, `GlobSetBuilder::add` and `build`, then
/// `GlobSet::is_match(text)`; `false` when the pattern does not compile.
/// Claimed: the result is `glob_match` of the inputs, and it is `false` for
/// a pattern that does not compile.
#[verifier::external_body]
pub(crate) fn glob_matches(pattern: &str, text: &str) -> (r: bool)
    requires
        pattern@.len() < GLOB_MAX_CHARS,
    ensures
        r == glob_match(pattern@, text@),
        glob_parse_error(pattern@) is Some ==> !r,
{
    match globset::Glob::new(pattern) {
        Ok(g) => match globset::GlobSetBuilder::new().add(g).build() {
            Ok(set) => set.is_match(text),
            Err(_) => false,
        },
        Err(_) => false,
    }
}

/// The message of the error `regex::Regex::new` returns for a pattern;
/// `None` when the pattern compiles.
pub uninterp spec fn regex_compile_error(pattern: Seq<char>) -> Option<Seq<char>>;

/// `regex::Regex::new`, with its error rendered by `Display`. Claimed: the
/// result is `regex_compile_error` of the pattern.
#[verifier::external_body]
pub(crate) fn regex_error(pattern: &str) -> (r: Option<String>)
    ensures
        match r {
            Some(e) => regex_compile_error(pattern@) == Some(e@),
            None => regex_compile_error(pattern@) is None,
        },
{
    match regex::Regex::new(pattern) {
        Ok(_) => None,
        Err(e) => Some(e.to_string()),
    }
}

/// Whether the compiled regex finds a match anywhere in the text
/// (`Regex::is_match`).
pub uninterp spec fn regex_match(pattern: Seq<char>, text: Seq<char>) -> bool;

/// `regex::Regex::new(pattern)` and `Regex::is_match(text)`, for a pattern
/// that compiles. Claimed: the result is `regex_match` of the inputs.
#[verifier::external_body]
pub(crate) fn regex_is_match(pattern: &str, text: &str) -> (r: bool)
    requires
        regex_compile_error(pattern@) is None,
    ensures
        r == regex_match(pattern@, text@),
{
    match regex::Regex::new(pattern) {
        Ok(re) => re.is_match(text),
        Err(_) => false,
    }
}

/// `chrono::Local::now().to_rfc3339()`: the current local time. Claimed
/// only what holds of every time: the RFC 3339 text has at least a
/// four-digit year, month, day, hour, minute and second (19 characters) and
/// the `T` between date and time. Which time it names depends on the clock
/// and the time zone and is not claimed.
#[verifier::external_body]
pub(crate) fn now_rfc3339() -> (r: String)
    ensures
        r@.len() >= 19,
        r@.contains('T'),
{
    chrono::Local::now().to_rfc3339()
}

} // verus!
