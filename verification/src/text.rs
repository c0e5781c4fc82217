//! Character-level text model shared by the whole library: whitespace
//! trimming, ASCII case folding, substring search, replacement, splitting,
//! decimal rendering and parsing, and lexicographic order.
//!
//! Strings are modelled by their `Seq<char>` views; executable helpers work
//! on `Vec<char>` and convert back with [`string_of`].

use vstd::prelude::*;

verus! {

broadcast use vstd::string::group_string_axioms;

// ---------------------------------------------------------------------------
// Specifications
// ---------------------------------------------------------------------------

/// `char::is_whitespace`: the Unicode `White_Space` property.
pub open spec fn is_ws(c: char) -> bool {
    let u = c as u32;
    (9 <= u && u <= 13) || u == 32 || u == 0x85 || u == 0xa0 || u == 0x1680 || (0x2000 <= u
        && u <= 0x200a) || u == 0x2028 || u == 0x2029 || u == 0x202f || u == 0x205f || u == 0x3000
}

/// `str::trim_start`.
pub open spec fn trim_start(s: Seq<char>) -> Seq<char>
    decreases s.len(),
{
    if s.len() > 0 && is_ws(s[0]) {
        trim_start(s.drop_first())
    } else {
        s
    }
}

/// `str::trim_end`.
pub open spec fn trim_end(s: Seq<char>) -> Seq<char>
    decreases s.len(),
{
    if s.len() > 0 && is_ws(s.last()) {
        trim_end(s.drop_last())
    } else {
        s
    }
}

/// `str::trim`: whitespace removed at both ends.
pub open spec fn trim(s: Seq<char>) -> Seq<char> {
    trim_end(trim_start(s))
}

pub open spec fn is_ascii_char(c: char) -> bool {
    (c as u32) < 128
}

pub open spec fn all_ascii(s: Seq<char>) -> bool {
    forall|i: int| 0 <= i < s.len() ==> is_ascii_char(#[trigger] s[i])
}

/// `char::to_ascii_lowercase`.
pub open spec fn ascii_lower_char(c: char) -> char {
    if 65 <= (c as u32) && (c as u32) <= 90 {
        ((c as u32) + 32) as char
    } else {
        c
    }
}

/// `str::to_ascii_lowercase`.
pub open spec fn ascii_lower(s: Seq<char>) -> Seq<char> {
    s.map_values(|c: char| ascii_lower_char(c))
}

/// `str::eq_ignore_ascii_case`.
pub open spec fn eq_ignore_ascii_case(a: Seq<char>, b: Seq<char>) -> bool {
    ascii_lower(a) == ascii_lower(b)
}

/// `needle` occurs in `s` at position `i`.
pub open spec fn occurs_at(s: Seq<char>, needle: Seq<char>, i: int) -> bool {
    0 <= i && i + needle.len() <= s.len() && s.subrange(i, i + needle.len()) == needle
}

/// `str::contains` with a string pattern.
pub open spec fn contains_seq(s: Seq<char>, needle: Seq<char>) -> bool {
    exists|i: int| occurs_at(s, needle, i)
}

/// `str::starts_with`.
pub open spec fn is_prefix(p: Seq<char>, s: Seq<char>) -> bool {
    occurs_at(s, p, 0)
}

/// `str::ends_with`.
pub open spec fn is_suffix(p: Seq<char>, s: Seq<char>) -> bool {
    occurs_at(s, p, s.len() - p.len())
}

/// `str::replace` for a non-empty pattern: non-overlapping occurrences,
/// left to right.
pub open spec fn replace_all(s: Seq<char>, pat: Seq<char>, rep: Seq<char>) -> Seq<char>
    decreases s.len(),
{
    if pat.len() == 0 || s.len() < pat.len() {
        s
    } else if s.take(pat.len() as int) == pat {
        rep + replace_all(s.skip(pat.len() as int), pat, rep)
    } else {
        seq![s[0]] + replace_all(s.drop_first(), pat, rep)
    }
}

/// `str::split_whitespace` continued from a partial word `cur`.
pub open spec fn split_ws_from(s: Seq<char>, cur: Seq<char>) -> Seq<Seq<char>>
    decreases s.len(),
{
    if s.len() == 0 {
        if cur.len() > 0 {
            seq![cur]
        } else {
            seq![]
        }
    } else if is_ws(s[0]) {
        (if cur.len() > 0 {
            seq![cur]
        } else {
            seq![]
        }) + split_ws_from(s.drop_first(), seq![])
    } else {
        split_ws_from(s.drop_first(), cur.push(s[0]))
    }
}

/// `str::split_whitespace`: the maximal runs of non-whitespace, in order.
pub open spec fn split_ws(s: Seq<char>) -> Seq<Seq<char>> {
    split_ws_from(s, seq![])
}

/// `str::split` on one character, continued from a partial piece `cur`.
pub open spec fn split_char_from(s: Seq<char>, sep: char, cur: Seq<char>) -> Seq<Seq<char>>
    decreases s.len(),
{
    if s.len() == 0 {
        seq![cur]
    } else if s[0] == sep {
        seq![cur] + split_char_from(s.drop_first(), sep, seq![])
    } else {
        split_char_from(s.drop_first(), sep, cur.push(s[0]))
    }
}

/// `str::split` on one character: every piece, empty ones included.
pub open spec fn split_char(s: Seq<char>, sep: char) -> Seq<Seq<char>> {
    split_char_from(s, sep, seq![])
}

/// The position of the first `c` in `s`.
pub open spec fn first_index_of(s: Seq<char>, c: char) -> Option<int>
    decreases s.len(),
{
    if s.len() == 0 {
        None
    } else if s[0] == c {
        Some(0)
    } else {
        match first_index_of(s.drop_first(), c) {
            Some(k) => Some(k + 1),
            None => None,
        }
    }
}

/// The position of the last `c` in `s`.
pub open spec fn last_index_of(s: Seq<char>, c: char) -> Option<int>
    decreases s.len(),
{
    if s.len() == 0 {
        None
    } else if s.last() == c {
        Some(s.len() - 1)
    } else {
        last_index_of(s.drop_last(), c)
    }
}

pub open spec fn digit_char(d: int) -> char {
    seq!['0', '1', '2', '3', '4', '5', '6', '7', '8', '9'][d]
}

/// The decimal rendering of `n` (`Display` for unsigned integers).
pub open spec fn decimal(n: nat) -> Seq<char>
    decreases n,
{
    if n < 10 {
        seq![digit_char(n as int)]
    } else {
        decimal(n / 10).push(digit_char((n % 10) as int))
    }
}

pub open spec fn is_digit(c: char) -> bool {
    '0' <= c && c <= '9'
}

/// The value of an ASCII digit.
pub open spec fn digit_value(c: char) -> nat {
    ((c as u32) - 48) as nat
}

pub open spec fn all_digits(s: Seq<char>) -> bool {
    forall|i: int| 0 <= i < s.len() ==> is_digit(#[trigger] s[i])
}

pub open spec fn digits_value(s: Seq<char>) -> nat
    decreases s.len(),
{
    if s.len() == 0 {
        0
    } else {
        digits_value(s.drop_last()) * 10 + digit_value(s.last())
    }
}

/// `u64::from_str`: an optional `+`, then at least one ASCII digit, and a
/// value that fits.
pub open spec fn parse_u64(s: Seq<char>) -> Option<u64> {
    let body = if s.len() > 0 && s[0] == '+' {
        s.drop_first()
    } else {
        s
    };
    if body.len() > 0 && all_digits(body) && digits_value(body) <= u64::MAX {
        Some(digits_value(body) as u64)
    } else {
        None
    }
}

/// Lexicographic order on code points (the order of `String`'s `Ord`).
pub open spec fn str_lt(a: Seq<char>, b: Seq<char>) -> bool
    decreases a.len(),
{
    if b.len() == 0 {
        false
    } else if a.len() == 0 {
        true
    } else if a[0] != b[0] {
        a[0] < b[0]
    } else {
        str_lt(a.drop_first(), b.drop_first())
    }
}

/// No string is less than itself.
pub proof fn lemma_str_lt_irreflexive(a: Seq<char>)
    ensures
        !str_lt(a, a),
    decreases a.len(),
{
    if a.len() > 0 {
        lemma_str_lt_irreflexive(a.drop_first());
    }
}

/// Of two strings at most one is less than the other.
pub proof fn lemma_str_lt_asymmetric(a: Seq<char>, b: Seq<char>)
    ensures
        !(str_lt(a, b) && str_lt(b, a)),
    decreases a.len(),
{
    if a.len() > 0 && b.len() > 0 && a[0] == b[0] {
        lemma_str_lt_asymmetric(a.drop_first(), b.drop_first());
    }
}

/// String order is transitive.
pub proof fn lemma_str_lt_transitive(a: Seq<char>, b: Seq<char>, c: Seq<char>)
    requires
        str_lt(a, b),
        str_lt(b, c),
    ensures
        str_lt(a, c),
    decreases a.len(),
{
    if a.len() > 0 && b.len() > 0 && c.len() > 0 && a[0] == b[0] && b[0] == c[0] {
        lemma_str_lt_transitive(a.drop_first(), b.drop_first(), c.drop_first());
    }
}

/// Of two different strings one is less than the other.
pub proof fn lemma_str_lt_total(a: Seq<char>, b: Seq<char>)
    requires
        a != b,
    ensures
        str_lt(a, b) || str_lt(b, a),
    decreases a.len(),
{
    if a.len() > 0 && b.len() > 0 && a[0] == b[0] {
        if a.drop_first() == b.drop_first() {
            assert(a =~= seq![a[0]] + a.drop_first());
            assert(b =~= seq![b[0]] + b.drop_first());
        }
        lemma_str_lt_total(a.drop_first(), b.drop_first());
    } else if a.len() == 0 && b.len() == 0 {
        assert(a =~= b);
    } else if a.len() > 0 && b.len() > 0 {
        assert(a[0] < b[0] || b[0] < a[0]);
    }
}

proof fn lemma_digits_value_take_mono(s: Seq<char>, k: int, m: int)
    requires
        0 <= k <= m <= s.len(),
    ensures
        digits_value(s.take(k)) <= digits_value(s.take(m)),
    decreases m - k,
{
    if k < m {
        lemma_digits_value_take_mono(s, k, m - 1);
        assert(s.take(m).drop_last() =~= s.take(m - 1));
    }
}

// ---------------------------------------------------------------------------
// Executable helpers
// ---------------------------------------------------------------------------

/// The characters of `s`, in order.
pub fn chars_of(s: &str) -> (v: Vec<char>)
    ensures
        v@ == s@,
{
    let mut v: Vec<char> = Vec::new();
    for c in it: s.chars()
        invariant
            v@ == it.seq().take(it.index() as int),
            it.seq() == s@,
    {
        v.push(c);
    }
    v
}

/// The string made of the characters in `v`.
pub fn string_of(v: &[char]) -> (s: String)
    ensures
        s@ == v@,
{
    let mut s = String::new();
    let mut i: usize = 0;
    while i < v.len()
        invariant
            i <= v@.len(),
            s@ == v@.take(i as int),
        decreases v@.len() - i,
    {
        crate::outside::push_char(&mut s, v[i]);
        i = i + 1;
        assert(s@ == v@.take(i as int));
    }
    assert(v@.take(v@.len() as int) == v@);
    s
}

/// A fresh copy of `s`.
pub fn owned(s: &str) -> (r: String)
    ensures
        r@ == s@,
{
    let v = chars_of(s);
    string_of(&v)
}

/// Appends every character of `w` to `v`.
pub fn push_all(v: &mut Vec<char>, w: &[char])
    ensures
        final(v)@ == old(v)@ + w@,
{
    let ghost v0 = v@;
    let mut i: usize = 0;
    while i < w.len()
        invariant
            i <= w@.len(),
            v@ == v0 + w@.take(i as int),
        decreases w@.len() - i,
    {
        v.push(w[i]);
        i = i + 1;
        assert(v@ =~= v0 + w@.take(i as int));
    }
    assert(w@.take(w@.len() as int) =~= w@);
}

/// Appends the characters of `s` to `v`.
pub fn push_str(v: &mut Vec<char>, s: &str)
    ensures
        final(v)@ == old(v)@ + s@,
{
    let w = chars_of(s);
    push_all(v, &w);
}

/// `v[lo..hi]`.
pub fn slice_of(v: &[char], lo: usize, hi: usize) -> (r: Vec<char>)
    requires
        lo <= hi <= v@.len(),
    ensures
        r@ == v@.subrange(lo as int, hi as int),
{
    let mut r: Vec<char> = Vec::new();
    let mut i = lo;
    while i < hi
        invariant
            lo <= i <= hi <= v@.len(),
            r@ == v@.subrange(lo as int, i as int),
        decreases hi - i,
    {
        r.push(v[i]);
        i = i + 1;
        assert(r@ =~= v@.subrange(lo as int, i as int));
    }
    r
}

/// Whether two character sequences are equal.
pub fn chars_eq(a: &[char], b: &[char]) -> (r: bool)
    ensures
        r == (a@ == b@),
{
    if a.len() != b.len() {
        return false;
    }
    let mut i: usize = 0;
    while i < a.len()
        invariant
            i <= a@.len() == b@.len(),
            a@.take(i as int) == b@.take(i as int),
        decreases a@.len() - i,
    {
        if a[i] != b[i] {
            return false;
        }
        i = i + 1;
        assert(a@.take(i as int) =~= b@.take(i as int));
    }
    assert(a@ =~= a@.take(i as int));
    assert(b@ =~= b@.take(i as int));
    true
}

/// Whether `s` equals the string `lit`.
pub fn chars_eq_str(a: &[char], lit: &str) -> (r: bool)
    ensures
        r == (a@ == lit@),
{
    let b = chars_of(lit);
    chars_eq(a, &b)
}

/// `char::is_whitespace`.
pub fn is_whitespace(c: char) -> (r: bool)
    ensures
        r == is_ws(c),
{
    let u = c as u32;
    (9 <= u && u <= 13) || u == 32 || u == 0x85 || u == 0xa0 || u == 0x1680 || (0x2000 <= u && u
        <= 0x200a) || u == 0x2028 || u == 0x2029 || u == 0x202f || u == 0x205f || u == 0x3000
}

/// `str::trim` on characters.
pub fn trim_chars(v: &[char]) -> (r: Vec<char>)
    ensures
        r@ == trim(v@),
{
    let mut lo: usize = 0;
    assert(v@.skip(0) =~= v@);
    while lo < v.len() && is_whitespace(v[lo])
        invariant
            lo <= v@.len(),
            trim_start(v@) == trim_start(v@.skip(lo as int)),
        decreases v@.len() - lo,
    {
        assert(v@.skip(lo as int).drop_first() =~= v@.skip(lo + 1));
        lo = lo + 1;
    }
    let mut hi: usize = v.len();
    while hi > lo && is_whitespace(v[hi - 1])
        invariant
            lo <= hi <= v@.len(),
            trim_start(v@) == v@.subrange(lo as int, v@.len() as int),
            trim(v@) == trim_end(v@.subrange(lo as int, hi as int)),
        decreases hi - lo,
    {
        assert(v@.subrange(lo as int, hi as int).drop_last() =~= v@.subrange(
            lo as int,
            hi - 1,
        ));
        hi = hi - 1;
    }
    slice_of(v, lo, hi)
}

/// `str::trim`.
pub fn trim_str(s: &str) -> (r: String)
    ensures
        r@ == trim(s@),
{
    let v = chars_of(s);
    let t = trim_chars(&v);
    string_of(&t)
}

/// `char::to_ascii_lowercase`.
pub fn ascii_lower_of(c: char) -> (r: char)
    ensures
        r == ascii_lower_char(c),
{
    if 'A' <= c && c <= 'Z' {
        let u = (c as u32) + 32;
        assert(u < 128);
        // Within the ASCII range every code point is a `char`.
        let r = char_from_ascii(u);
        r
    } else {
        c
    }
}

/// The ASCII character with code `u`.
fn char_from_ascii(u: u32) -> (c: char)
    requires
        u < 128,
    ensures
        c as u32 == u,
{
    let b = u as u8;
    b as char
}

/// `str::to_ascii_lowercase` on characters.
pub fn ascii_lower_chars(v: &[char]) -> (r: Vec<char>)
    ensures
        r@ == ascii_lower(v@),
{
    let mut r: Vec<char> = Vec::new();
    let mut i: usize = 0;
    while i < v.len()
        invariant
            i <= v@.len(),
            r@ == ascii_lower(v@.take(i as int)),
        decreases v@.len() - i,
    {
        r.push(ascii_lower_of(v[i]));
        i = i + 1;
        assert(r@ =~= ascii_lower(v@.take(i as int)));
    }
    assert(v@.take(v@.len() as int) =~= v@);
    r
}

/// `str::eq_ignore_ascii_case`.
pub fn eq_ignore_case(a: &[char], b: &[char]) -> (r: bool)
    ensures
        r == eq_ignore_ascii_case(a@, b@),
{
    let la = ascii_lower_chars(a);
    let lb = ascii_lower_chars(b);
    chars_eq(&la, &lb)
}

/// Whether `needle` occurs in `s` at position `i`.
pub fn occurs_at_exec(s: &[char], needle: &[char], i: usize) -> (r: bool)
    ensures
        r == occurs_at(s@, needle@, i as int),
{
    if i > s.len() || needle.len() > s.len() - i {
        return false;
    }
    let mut k: usize = 0;
    while k < needle.len()
        invariant
            i + needle@.len() <= s@.len(),
            s@.len() <= usize::MAX,
            k <= needle@.len(),
            s@.subrange(i as int, i + k) == needle@.take(k as int),
        decreases needle@.len() - k,
    {
        if s[i + k] != needle[k] {
            assert(s@.subrange(i as int, i + needle@.len())[k as int] != needle@[k as int]);
            return false;
        }
        k = k + 1;
        assert(s@.subrange(i as int, i + k) =~= needle@.take(k as int));
    }
    assert(needle@.take(k as int) =~= needle@);
    true
}

/// `str::starts_with`.
pub fn starts_with(s: &[char], p: &[char]) -> (r: bool)
    ensures
        r == is_prefix(p@, s@),
{
    occurs_at_exec(s, p, 0)
}

/// `str::ends_with`.
pub fn ends_with(s: &[char], p: &[char]) -> (r: bool)
    ensures
        r == is_suffix(p@, s@),
{
    if p.len() > s.len() {
        return false;
    }
    occurs_at_exec(s, p, s.len() - p.len())
}

/// `str::contains` with a string pattern.
pub fn contains(s: &[char], needle: &[char]) -> (r: bool)
    ensures
        r == contains_seq(s@, needle@),
{
    if needle.len() > s.len() {
        assert forall|i: int| !occurs_at(s@, needle@, i) by {}
        return false;
    }
    let last = s.len() - needle.len();
    let mut i: usize = 0;
    loop
        invariant
            last == s@.len() - needle@.len(),
            i <= last,
            forall|j: int| 0 <= j < i ==> !occurs_at(s@, needle@, j),
        ensures
            forall|j: int| 0 <= j <= last ==> !occurs_at(s@, needle@, j),
        decreases last - i,
    {
        if occurs_at_exec(s, needle, i) {
            return true;
        }
        if i == last {
            break;
        }
        i = i + 1;
    }
    assert forall|j: int| !occurs_at(s@, needle@, j) by {
        if 0 <= j <= last {
        }
    }
    false
}

/// Whether `c` occurs in `s`.
pub fn contains_char(s: &[char], c: char) -> (r: bool)
    ensures
        r == s@.contains(c),
{
    let mut i: usize = 0;
    while i < s.len()
        invariant
            i <= s@.len(),
            forall|j: int| 0 <= j < i ==> s@[j] != c,
        decreases s@.len() - i,
    {
        if s[i] == c {
            return true;
        }
        i = i + 1;
    }
    false
}

/// `str::replace` for a non-empty pattern.
pub fn replace_chars(s: &[char], pat: &[char], rep: &[char]) -> (r: Vec<char>)
    requires
        pat@.len() > 0,
    ensures
        r@ == replace_all(s@, pat@, rep@),
{
    let mut out: Vec<char> = Vec::new();
    let mut i: usize = 0;
    assert(s@.skip(0) =~= s@);
    assert(out@ + s@ =~= s@);
    while i < s.len()
        invariant
            pat@.len() > 0,
            i <= s@.len(),
            replace_all(s@, pat@, rep@) == out@ + replace_all(s@.skip(i as int), pat@, rep@),
        decreases s@.len() - i,
    {
        let ghost rest = s@.skip(i as int);
        if occurs_at_exec(s, pat, i) {
            assert(rest.take(pat@.len() as int) =~= s@.subrange(i as int, i + pat@.len()));
            assert(rest.skip(pat@.len() as int) =~= s@.skip(i + pat@.len()));
            push_all(&mut out, rep);
            i = i + pat.len();
        } else {
            assert(rest.len() >= pat@.len() ==> rest.take(pat@.len() as int) =~= s@.subrange(
                i as int,
                i + pat@.len(),
            ));
            assert(rest.drop_first() =~= s@.skip(i + 1));
            assert(rest.len() < pat@.len() ==> replace_all(rest, pat@, rep@) == rest);
            assert(rest.len() < pat@.len() ==> replace_all(rest.drop_first(), pat@, rep@)
                == rest.drop_first());
            assert(rest =~= seq![s@[i as int]] + rest.drop_first());
            out.push(s[i]);
            i = i + 1;
        }
        assert(replace_all(s@, pat@, rep@) =~= out@ + replace_all(s@.skip(i as int), pat@, rep@));
    }
    assert(s@.skip(i as int) =~= Seq::<char>::empty());
    assert(out@ + Seq::<char>::empty() =~= out@);
    out
}

/// `str::split_whitespace` on characters.
pub fn split_whitespace(s: &[char]) -> (r: Vec<Vec<char>>)
    ensures
        r@.map_values(|w: Vec<char>| w@) == split_ws(s@),
{
    let mut out: Vec<Vec<char>> = Vec::new();
    let mut cur: Vec<char> = Vec::new();
    let mut i: usize = 0;
    assert(s@.skip(0) =~= s@);
    assert(out@.map_values(|w: Vec<char>| w@) =~= Seq::<Seq<char>>::empty());
    assert(cur@ =~= Seq::<char>::empty());
    assert(Seq::<Seq<char>>::empty() + split_ws(s@) =~= split_ws(s@));
    while i < s.len()
        invariant
            i <= s@.len(),
            split_ws(s@) == out@.map_values(|w: Vec<char>| w@) + split_ws_from(
                s@.skip(i as int),
                cur@,
            ),
        decreases s@.len() - i,
    {
        let ghost rest = s@.skip(i as int);
        let ghost before = out@.map_values(|w: Vec<char>| w@);
        assert(rest.drop_first() =~= s@.skip(i + 1));
        if is_whitespace(s[i]) {
            if cur.len() > 0 {
                let w = cur;
                out.push(w);
                assert(out@.map_values(|w: Vec<char>| w@) =~= before + seq![w@]);
            } else {
                assert(before + (seq![] + split_ws_from(rest.drop_first(), seq![]))
                    =~= before + split_ws_from(rest.drop_first(), seq![]));
            }
            cur = Vec::new();
            assert(cur@ =~= Seq::<char>::empty());
        } else {
            cur.push(s[i]);
        }
        i = i + 1;
        assert(split_ws(s@) =~= out@.map_values(|w: Vec<char>| w@) + split_ws_from(
            s@.skip(i as int),
            cur@,
        ));
    }
    let ghost before = out@.map_values(|w: Vec<char>| w@);
    assert(s@.skip(i as int) =~= Seq::<char>::empty());
    if cur.len() > 0 {
        let w = cur;
        out.push(w);
        assert(out@.map_values(|w: Vec<char>| w@) =~= before + seq![w@]);
    } else {
        assert(before + Seq::<Seq<char>>::empty() =~= before);
    }
    out
}

/// `str::split` on one character.
pub fn split_on(s: &[char], sep: char) -> (r: Vec<Vec<char>>)
    ensures
        r@.map_values(|w: Vec<char>| w@) == split_char(s@, sep),
{
    let mut out: Vec<Vec<char>> = Vec::new();
    let mut cur: Vec<char> = Vec::new();
    let mut i: usize = 0;
    assert(s@.skip(0) =~= s@);
    assert(out@.map_values(|w: Vec<char>| w@) =~= Seq::<Seq<char>>::empty());
    assert(cur@ =~= Seq::<char>::empty());
    assert(Seq::<Seq<char>>::empty() + split_char(s@, sep) =~= split_char(s@, sep));
    while i < s.len()
        invariant
            i <= s@.len(),
            split_char(s@, sep) == out@.map_values(|w: Vec<char>| w@) + split_char_from(
                s@.skip(i as int),
                sep,
                cur@,
            ),
        decreases s@.len() - i,
    {
        let ghost rest = s@.skip(i as int);
        let ghost before = out@.map_values(|w: Vec<char>| w@);
        assert(rest.drop_first() =~= s@.skip(i + 1));
        if s[i] == sep {
            let w = cur;
            out.push(w);
            assert(out@.map_values(|w: Vec<char>| w@) =~= before + seq![w@]);
            cur = Vec::new();
            assert(cur@ =~= Seq::<char>::empty());
        } else {
            cur.push(s[i]);
        }
        i = i + 1;
        assert(split_char(s@, sep) =~= out@.map_values(|w: Vec<char>| w@) + split_char_from(
            s@.skip(i as int),
            sep,
            cur@,
        ));
    }
    let ghost before = out@.map_values(|w: Vec<char>| w@);
    assert(s@.skip(i as int) =~= Seq::<char>::empty());
    let w = cur;
    out.push(w);
    assert(out@.map_values(|w: Vec<char>| w@) =~= before + seq![w@]);
    out
}

/// The position of the first `c` in `s`.
pub fn find_char(s: &[char], c: char) -> (r: Option<usize>)
    ensures
        match r {
            Some(k) => first_index_of(s@, c) == Some(k as int),
            None => first_index_of(s@, c) is None,
        },
{
    let mut i: usize = 0;
    assert(s@.skip(0) =~= s@);
    while i < s.len()
        invariant
            i <= s@.len(),
            first_index_of(s@, c) == (match first_index_of(s@.skip(i as int), c) {
                Some(k) => Some(k + i),
                None => None,
            }),
        decreases s@.len() - i,
    {
        assert(s@.skip(i as int).drop_first() =~= s@.skip(i + 1));
        if s[i] == c {
            return Some(i);
        }
        i = i + 1;
    }
    assert(s@.skip(i as int) =~= Seq::<char>::empty());
    None
}

/// The position of the last `c` in `s`.
pub fn rfind_char(s: &[char], c: char) -> (r: Option<usize>)
    ensures
        match r {
            Some(k) => last_index_of(s@, c) == Some(k as int),
            None => last_index_of(s@, c) is None,
        },
{
    let mut i: usize = s.len();
    assert(s@.take(s@.len() as int) =~= s@);
    while i > 0
        invariant
            i <= s@.len(),
            last_index_of(s@, c) == last_index_of(s@.take(i as int), c),
        decreases i,
    {
        assert(s@.take(i as int).drop_last() =~= s@.take(i - 1));
        if s[i - 1] == c {
            return Some(i - 1);
        }
        i = i - 1;
    }
    None
}

/// The decimal digit `d`.
pub fn digit_of(d: u64) -> (c: char)
    requires
        d < 10,
    ensures
        c == digit_char(d as int),
{
    if d == 0 {
        '0'
    } else if d == 1 {
        '1'
    } else if d == 2 {
        '2'
    } else if d == 3 {
        '3'
    } else if d == 4 {
        '4'
    } else if d == 5 {
        '5'
    } else if d == 6 {
        '6'
    } else if d == 7 {
        '7'
    } else if d == 8 {
        '8'
    } else {
        '9'
    }
}

/// The decimal rendering of `n`, as characters.
pub fn decimal_chars(n: u64) -> (v: Vec<char>)
    ensures
        v@ == decimal(n as nat),
    decreases n,
{
    if n < 10 {
        let mut v = Vec::new();
        v.push(digit_of(n));
        assert(v@ =~= seq![digit_char(n as int)]);
        v
    } else {
        let mut v = decimal_chars(n / 10);
        v.push(digit_of(n % 10));
        v
    }
}

/// `u64::from_str`.
pub fn parse_u64_chars(s: &[char]) -> (r: Option<u64>)
    ensures
        r == parse_u64(s@),
{
    let start: usize = if s.len() > 0 && s[0] == '+' {
        1
    } else {
        0
    };
    let body = slice_of(s, start, s.len());
    assert(body@ =~= (if s@.len() > 0 && s@[0] == '+' {
        s@.drop_first()
    } else {
        s@
    }));
    assert(parse_u64(s@) == (if body@.len() > 0 && all_digits(body@) && digits_value(body@)
        <= u64::MAX {
        Some(digits_value(body@) as u64)
    } else {
        None
    }));
    if body.len() == 0 {
        return None;
    }
    let mut i: usize = 0;
    while i < body.len()
        invariant
            body@.len() > 0,
            parse_u64(s@) == (if all_digits(body@) && digits_value(body@) <= u64::MAX {
                Some(digits_value(body@) as u64)
            } else {
                None
            }),
            i <= body@.len(),
            forall|j: int| 0 <= j < i ==> is_digit(#[trigger] body@[j]),
        decreases body@.len() - i,
    {
        if !('0' <= body[i] && body[i] <= '9') {
            assert(!is_digit(body@[i as int]));
            return None;
        }
        i = i + 1;
    }
    let mut acc: u64 = 0;
    let mut k: usize = 0;
    assert(body@.take(0) =~= Seq::<char>::empty());
    while k < body.len()
        invariant
            body@.len() > 0,
            parse_u64(s@) == (if all_digits(body@) && digits_value(body@) <= u64::MAX {
                Some(digits_value(body@) as u64)
            } else {
                None
            }),
            k <= body@.len(),
            all_digits(body@),
            acc as nat == digits_value(body@.take(k as int)),
        decreases body@.len() - k,
    {
        let c = body[k];
        assert(is_digit(c));
        let d = (c as u32 - 48) as u64;
        assert(body@.take(k + 1).drop_last() =~= body@.take(k as int));
        assert(body@.take(k + 1).last() == body@[k as int]);
        assert(digits_value(body@.take(k + 1)) == acc * 10 + d);
        match acc.checked_mul(10) {
            Some(m) => match m.checked_add(d) {
                Some(a) => {
                    acc = a;
                },
                None => {
                    proof {
                        lemma_digits_value_take_mono(body@, k + 1, body@.len() as int);
                        assert(body@.take(body@.len() as int) =~= body@);
                    }
                    return None;
                },
            },
            None => {
                proof {
                    lemma_digits_value_take_mono(body@, k + 1, body@.len() as int);
                    assert(body@.take(body@.len() as int) =~= body@);
                }
                return None;
            },
        }
        k = k + 1;
    }
    assert(body@.take(body@.len() as int) =~= body@);
    Some(acc)
}

/// Strict lexicographic order on strings, as `String`'s `Ord` compares them.
pub fn str_less(a: &[char], b: &[char]) -> (r: bool)
    ensures
        r == str_lt(a@, b@),
{
    let mut i: usize = 0;
    assert(a@.skip(0) =~= a@);
    assert(b@.skip(0) =~= b@);
    while i < a.len() && i < b.len() && a[i] == b[i]
        invariant
            i <= a@.len(),
            i <= b@.len(),
            str_lt(a@, b@) == str_lt(a@.skip(i as int), b@.skip(i as int)),
        decreases a@.len() - i,
    {
        assert(a@.skip(i as int).drop_first() =~= a@.skip(i + 1));
        assert(b@.skip(i as int).drop_first() =~= b@.skip(i + 1));
        i = i + 1;
    }
    if i == b.len() {
        false
    } else if i == a.len() {
        true
    } else {
        a[i] < b[i]
    }
}

/// Text without the pattern's first character is left as it is.
pub proof fn lemma_replace_absent(s: Seq<char>, pat: Seq<char>, rep: Seq<char>)
    requires
        pat.len() > 0,
        !s.contains(pat[0]),
    ensures
        replace_all(s, pat, rep) == s,
    decreases s.len(),
{
    if s.len() >= pat.len() {
        assert(s.take(pat.len() as int)[0] == s[0]);
        assert(s.take(pat.len() as int) != pat) by {
            assert(s.contains(s[0]));
        }
        assert(!s.drop_first().contains(pat[0])) by {
            if s.drop_first().contains(pat[0]) {
                let k = choose|k: int| 0 <= k < s.drop_first().len() && s.drop_first()[k] == pat[0];
                assert(s[k + 1] == pat[0]);
            }
        }
        lemma_replace_absent(s.drop_first(), pat, rep);
        assert(seq![s[0]] + s.drop_first() =~= s);
    }
}

/// One occurrence of the pattern, between text without the pattern's first
/// character, is replaced and the rest kept.
pub proof fn lemma_replace_once(pre: Seq<char>, post: Seq<char>, pat: Seq<char>, rep: Seq<char>)
    requires
        pat.len() > 0,
        !pre.contains(pat[0]),
        !post.contains(pat[0]),
    ensures
        replace_all(pre + pat + post, pat, rep) == pre + rep + post,
    decreases pre.len(),
{
    let s = pre + pat + post;
    if pre.len() == 0 {
        assert(s =~= pat + post);
        assert(s.take(pat.len() as int) =~= pat);
        assert(s.skip(pat.len() as int) =~= post);
        lemma_replace_absent(post, pat, rep);
        assert(pre + rep + post =~= rep + post);
    } else {
        assert(s[0] == pre[0]);
        assert(pre.contains(pre[0]));
        assert(s.take(pat.len() as int)[0] == pre[0]);
        assert(s.take(pat.len() as int) != pat);
        let p2 = pre.drop_first();
        assert(!p2.contains(pat[0])) by {
            if p2.contains(pat[0]) {
                let k = choose|k: int| 0 <= k < p2.len() && p2[k] == pat[0];
                assert(pre[k + 1] == pat[0]);
            }
        }
        lemma_replace_once(p2, post, pat, rep);
        assert(s.drop_first() =~= p2 + pat + post);
        assert(seq![s[0]] + (p2 + rep + post) =~= pre + rep + post);
    }
}

} // verus!
