//! Update checks against the project's GitHub releases: version
//! comparison, tag clean-up, check results and the tray menu labels.

use vstd::prelude::*;
use crate::config::opt_str;
use crate::text::{
    chars_of, owned, parse_u64, parse_u64_chars, push_str, slice_of, split_char, split_on,
    string_of, trim, trim_chars,
};

verus! {

broadcast use vstd::string::group_string_axioms;

/// `owner/repo` of the canonical public repository.
pub const REPO: &'static str = "butageek/linkport";

// ---------------------------------------------------------------------------
// Version comparison
// ---------------------------------------------------------------------------

/// The numeric parts of a version: the `.`-separated pieces, each parsed as
/// an unsigned number, a piece that does not parse counting as 0.
pub open spec fn version_parts(v: Seq<char>) -> Seq<u64> {
    split_char(v, '.').map_values(
        |p: Seq<char>|
            match parse_u64(p) {
                Some(n) => n,
                None => 0u64,
            },
    )
}

/// Part `i` of a version, a missing part counting as 0.
pub open spec fn part_at(p: Seq<u64>, i: int) -> u64 {
    if 0 <= i < p.len() {
        p[i]
    } else {
        0
    }
}

pub open spec fn max_len(l: Seq<u64>, c: Seq<u64>) -> int {
    if l.len() >= c.len() {
        l.len() as int
    } else {
        c.len() as int
    }
}

/// From part `i` on, the first part that differs is greater in `l`.
pub open spec fn newer_from(l: Seq<u64>, c: Seq<u64>, i: int) -> bool
    decreases max_len(l, c) - i,
{
    if i < 0 || i >= max_len(l, c) {
        false
    } else if part_at(l, i) != part_at(c, i) {
        part_at(l, i) > part_at(c, i)
    } else {
        newer_from(l, c, i + 1)
    }
}

/// `latest` is a newer version than `current`: at the first part where they
/// differ (missing parts count as 0), `latest`'s is greater.
pub open spec fn is_newer_spec(latest: Seq<char>, current: Seq<char>) -> bool {
    newer_from(version_parts(latest), version_parts(current), 0)
}

/// The numeric parts of a version.
fn parts_of(v: &str) -> (r: Vec<u64>)
    ensures
        r@ == version_parts(v@),
{
    let vc = chars_of(v);
    let pieces = split_on(&vc, '.');
    let ghost ps = pieces@.map_values(|w: Vec<char>| w@);
    let mut r: Vec<u64> = Vec::new();
    let mut i: usize = 0;
    while i < pieces.len()
        invariant
            ps == pieces@.map_values(|w: Vec<char>| w@),
            ps == split_char(v@, '.'),
            i <= pieces@.len(),
            r@ == ps.take(i as int).map_values(
                |p: Seq<char>|
                    match parse_u64(p) {
                        Some(n) => n,
                        None => 0u64,
                    },
            ),
        decreases pieces@.len() - i,
    {
        let n = match parse_u64_chars(&pieces[i]) {
            Some(n) => n,
            None => 0,
        };
        assert(pieces@[i as int]@ == ps[i as int]);
        r.push(n);
        i = i + 1;
        assert(r@ =~= ps.take(i as int).map_values(
            |p: Seq<char>|
                match parse_u64(p) {
                    Some(n) => n,
                    None => 0u64,
                },
        ));
    }
    assert(ps.take(i as int) =~= ps);
    r
}

/// Numeric `major.minor.patch` comparison; missing parts count as 0 and
/// non-numeric parts degrade to 0.
pub fn is_newer(latest: &str, current: &str) -> (r: bool)
    ensures
        r == is_newer_spec(latest@, current@),
{
    let l = parts_of(latest);
    let c = parts_of(current);
    let n = if l.len() >= c.len() {
        l.len()
    } else {
        c.len()
    };
    let mut i: usize = 0;
    while i < n
        invariant
            n == max_len(l@, c@),
            i <= n,
            is_newer_spec(latest@, current@) == newer_from(l@, c@, i as int),
        decreases n - i,
    {
        let a = if i < l.len() {
            l[i]
        } else {
            0
        };
        let b = if i < c.len() {
            c[i]
        } else {
            0
        };
        if a != b {
            return a > b;
        }
        i = i + 1;
    }
    false
}

/// A version is never newer than itself.
pub proof fn lemma_not_newer_than_itself(v: Seq<char>)
    ensures
        !is_newer_spec(v, v),
{
    lemma_newer_from_equal(version_parts(v), version_parts(v), 0);
}

proof fn lemma_newer_from_equal(l: Seq<u64>, c: Seq<u64>, i: int)
    requires
        forall|k: int| i <= k ==> #[trigger] part_at(l, k) == part_at(c, k),
    ensures
        !newer_from(l, c, i),
    decreases max_len(l, c) - i,
{
    if 0 <= i < max_len(l, c) {
        assert(part_at(l, i) == part_at(c, i));
        lemma_newer_from_equal(l, c, i + 1);
    }
}

/// Versions that agree on every part (missing parts counting as 0, so
/// `0.2` and `0.2.0` agree) are not newer than one another.
pub proof fn lemma_zero_padding(latest: Seq<char>, current: Seq<char>)
    requires
        forall|k: int|
            0 <= k ==> #[trigger] part_at(version_parts(latest), k) == part_at(
                version_parts(current),
                k,
            ),
    ensures
        !is_newer_spec(latest, current),
        !is_newer_spec(current, latest),
{
    lemma_newer_from_equal(version_parts(latest), version_parts(current), 0);
    lemma_newer_from_equal(version_parts(current), version_parts(latest), 0);
}

proof fn lemma_newer_from_asym(l: Seq<u64>, c: Seq<u64>, i: int)
    ensures
        !(newer_from(l, c, i) && newer_from(c, l, i)),
    decreases max_len(l, c) - i,
{
    assert(max_len(l, c) == max_len(c, l));
    if 0 <= i < max_len(l, c) && part_at(l, i) == part_at(c, i) {
        lemma_newer_from_asym(l, c, i + 1);
    }
}

/// Of two versions at most one is newer than the other.
pub proof fn lemma_newer_asymmetric(a: Seq<char>, b: Seq<char>)
    ensures
        !(is_newer_spec(a, b) && is_newer_spec(b, a)),
{
    lemma_newer_from_asym(version_parts(a), version_parts(b), 0);
}

proof fn lemma_newer_from_trans(a: Seq<u64>, b: Seq<u64>, c: Seq<u64>, i: int)
    requires
        0 <= i,
        newer_from(a, b, i),
        newer_from(b, c, i),
    ensures
        newer_from(a, c, i),
    decreases max_len(a, b) - i,
{
    if part_at(a, i) == part_at(b, i) && part_at(b, i) == part_at(c, i) {
        lemma_newer_from_trans(a, b, c, i + 1);
        assert(i < max_len(a, c));
    } else {
        assert(i < max_len(a, b) || i < max_len(b, c));
        if part_at(a, i) == part_at(c, i) {
            assert(i < max_len(a, c) || part_at(a, i) == 0);
        }
    }
}

/// Newer-than is transitive.
pub proof fn lemma_newer_transitive(a: Seq<char>, b: Seq<char>, c: Seq<char>)
    requires
        is_newer_spec(a, b),
        is_newer_spec(b, c),
    ensures
        is_newer_spec(a, c),
{
    lemma_newer_from_trans(version_parts(a), version_parts(b), version_parts(c), 0);
}

// ---------------------------------------------------------------------------
// Tags and check results
// ---------------------------------------------------------------------------

/// Leading `v`/`V` characters removed.
pub open spec fn strip_leading_v(s: Seq<char>) -> Seq<char>
    decreases s.len(),
{
    if s.len() > 0 && (s[0] == 'v' || s[0] == 'V') {
        strip_leading_v(s.drop_first())
    } else {
        s
    }
}

/// A release tag as a version: trimmed, leading `v`/`V` removed, trimmed.
pub open spec fn strip_v_spec(tag: Seq<char>) -> Seq<char> {
    trim(strip_leading_v(trim(tag)))
}

/// A release tag as a version: `v0.3.0` → `0.3.0`.
pub fn strip_v(tag: &str) -> (r: String)
    ensures
        r@ == strip_v_spec(tag@),
{
    let tc = chars_of(tag);
    let t = trim_chars(&tc);
    let mut i: usize = 0;
    assert(t@.skip(0) =~= t@);
    while i < t.len() && (t[i] == 'v' || t[i] == 'V')
        invariant
            i <= t@.len(),
            strip_leading_v(t@) == strip_leading_v(t@.skip(i as int)),
        decreases t@.len() - i,
    {
        assert(t@.skip(i as int).drop_first() =~= t@.skip(i + 1));
        i = i + 1;
    }
    let rest = slice_of(&t, i, t.len());
    assert(rest@ =~= t@.skip(i as int));
    let r = trim_chars(&rest);
    string_of(&r)
}

/// The tag GitHub reports as the newest release, trimmed; an empty tag is
/// an error.
pub fn latest_tag(tag_name: &str) -> (r: Result<String, String>)
    ensures
        match r {
            Ok(t) => t@ == trim(tag_name@) && t@.len() > 0,
            Err(e) => trim(tag_name@).len() == 0 && e@ == "empty tag_name"@,
        },
{
    let t = crate::text::trim_str(tag_name);
    if t.as_str().unicode_len() == 0 {
        Err(owned("empty tag_name"))
    } else {
        Ok(t)
    }
}

/// The releases page (opens the newest release).
pub open spec fn releases_url_spec() -> Seq<char> {
    "https://github.com/butageek/linkport/releases/latest"@
}

/// The releases page (opens the newest release).
pub fn releases_url() -> (r: String)
    ensures
        r@ == releases_url_spec(),
{
    owned("https://github.com/butageek/linkport/releases/latest")
}

/// The result of one update check.
#[derive(Debug, Clone, PartialEq)]
pub struct UpdateCheck {
    pub current: String,
    /// Newest published version (`v` prefix stripped); `None` when the
    /// check failed.
    pub latest: Option<String>,
    /// True when `latest` is newer than `current`.
    pub available: bool,
    /// The releases page.
    pub url: String,
    /// Failure reason when the check did not succeed.
    pub error: Option<String>,
}

impl UpdateCheck {
    /// A check that found `latest` as the newest published version.
    pub fn succeeded(current: &str, latest: String) -> (r: UpdateCheck)
        ensures
            r.current@ == current@,
            opt_str(r.latest) == Some(latest@),
            r.available == is_newer_spec(latest@, current@),
            r.url@ == releases_url_spec(),
            r.error is None,
    {
        let available = is_newer(latest.as_str(), current);
        UpdateCheck {
            current: owned(current),
            available,
            url: releases_url(),
            latest: Some(latest),
            error: None,
        }
    }

    /// A check that failed with `error`.
    pub fn failed(current: &str, error: String) -> (r: UpdateCheck)
        ensures
            r.current@ == current@,
            r.latest is None,
            !r.available,
            r.url@ == releases_url_spec(),
            opt_str(r.error) == Some(error@),
    {
        UpdateCheck {
            current: owned(current),
            available: false,
            url: releases_url(),
            latest: None,
            error: Some(error),
        }
    }
}

/// The check result for the running version `current` given what the
/// release lookup returned: the newest tag, or why the lookup failed.
pub fn check(current: &str, fetched: Result<String, String>) -> (r: UpdateCheck)
    ensures
        match fetched {
            Ok(tag) => {
                &&& r.current@ == current@
                &&& opt_str(r.latest) == Some(strip_v_spec(tag@))
                &&& r.available == is_newer_spec(strip_v_spec(tag@), current@)
                &&& r.url@ == releases_url_spec()
                &&& r.error is None
            },
            Err(e) => {
                &&& r.current@ == current@
                &&& r.latest is None
                &&& !r.available
                &&& r.url@ == releases_url_spec()
                &&& opt_str(r.error) == Some(e@)
            },
        },
{
    match fetched {
        Ok(tag) => UpdateCheck::succeeded(current, strip_v(tag.as_str())),
        Err(e) => UpdateCheck::failed(current, e),
    }
}

// ---------------------------------------------------------------------------
// Tray labels
// ---------------------------------------------------------------------------

/// The latest version, or `?`.
pub open spec fn latest_or_unknown(c: UpdateCheck) -> Seq<char> {
    match c.latest {
        Some(l) => l@,
        None => "?"@,
    }
}

pub open spec fn tray_action_spec(checked: Option<UpdateCheck>) -> Seq<char> {
    match checked {
        Some(c) => if c.available {
            "Download Linkport v"@ + latest_or_unknown(c) + "…"@
        } else {
            "Check for updates…"@
        },
        None => "Check for updates…"@,
    }
}

pub open spec fn tray_status_spec(checked: Option<UpdateCheck>) -> Seq<char> {
    match checked {
        None => "No update check yet"@,
        Some(c) => if c.available {
            "v"@ + latest_or_unknown(c) + " available (running v"@ + c.current@ + ")"@
        } else if c.error is Some {
            "Update check failed"@
        } else {
            "Up to date (v"@ + c.current@ + ")"@
        },
    }
}

fn latest_chars(c: &UpdateCheck) -> (r: Vec<char>)
    ensures
        r@ == latest_or_unknown(*c),
{
    match &c.latest {
        Some(l) => chars_of(l.as_str()),
        None => chars_of("?"),
    }
}

/// Tray menu label for the update action item: download when an update is
/// known, check otherwise.
pub fn tray_action_text(checked: Option<&UpdateCheck>) -> (r: String)
    ensures
        r@ == tray_action_spec(
            match checked {
                Some(c) => Some(*c),
                None => None,
            },
        ),
{
    match checked {
        Some(c) => if c.available {
            let mut v = chars_of("Download Linkport v");
            let l = latest_chars(c);
            crate::text::push_all(&mut v, &l);
            push_str(&mut v, "…");
            string_of(&v)
        } else {
            owned("Check for updates…")
        },
        None => owned("Check for updates…"),
    }
}

/// Tray menu label for the (disabled) status line under the action item.
pub fn tray_status_text(checked: Option<&UpdateCheck>) -> (r: String)
    ensures
        r@ == tray_status_spec(
            match checked {
                Some(c) => Some(*c),
                None => None,
            },
        ),
{
    match checked {
        None => owned("No update check yet"),
        Some(c) => if c.available {
            let mut v = chars_of("v");
            let l = latest_chars(c);
            crate::text::push_all(&mut v, &l);
            push_str(&mut v, " available (running v");
            push_str(&mut v, c.current.as_str());
            push_str(&mut v, ")");
            string_of(&v)
        } else if c.error.is_some() {
            owned("Update check failed")
        } else {
            let mut v = chars_of("Up to date (v");
            push_str(&mut v, c.current.as_str());
            push_str(&mut v, ")");
            string_of(&v)
        },
    }
}

/// The tray tooltip for the running version, routing or paused.
pub fn tooltip_text(version: &str, paused: bool) -> (r: String)
    ensures
        r@ == (if paused {
            "Linkport "@ + version@ + " — routing paused (all links to default browser)"@
        } else {
            "Linkport "@ + version@ + " — rule-based browser router"@
        }),
{
    let mut v = chars_of("Linkport ");
    push_str(&mut v, version);
    if paused {
        push_str(&mut v, " — routing paused (all links to default browser)");
    } else {
        push_str(&mut v, " — rule-based browser router");
    }
    string_of(&v)
}

} // verus!
