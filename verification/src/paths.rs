//! Well-known paths (config, token, event log, pause flag) and the portal
//! token's text form.

use vstd::prelude::*;
use crate::text::{chars_of, is_ws, push_str, string_of, trim, trim_chars, trim_end, trim_start};

verus! {

broadcast use vstd::string::group_string_axioms;

/// `name` inside the directory `dir` (`/`-separated).
pub open spec fn join_spec(dir: Seq<char>, name: Seq<char>) -> Seq<char> {
    if dir.len() == 0 {
        name
    } else if dir.last() == '/' {
        dir + name
    } else {
        dir + seq!['/'] + name
    }
}

/// `name` inside the directory `dir`.
pub fn join_path(dir: &str, name: &str) -> (r: String)
    ensures
        r@ == join_spec(dir@, name@),
{
    let mut v = chars_of(dir);
    if v.len() > 0 && v[v.len() - 1] != '/' {
        v.push('/');
    }
    push_str(&mut v, name);
    let r = string_of(&v);
    assert(r@ =~= join_spec(dir@, name@));
    r
}

/// The configuration directory: `linkport` inside the user's configuration
/// directory, or inside the temporary directory when there is none.
pub fn config_dir(system_config_dir: Option<&str>, temp_dir: &str) -> (r: String)
    ensures
        r@ == join_spec(
            match system_config_dir {
                Some(d) => d@,
                None => temp_dir@,
            },
            "linkport"@,
        ),
{
    let base = match system_config_dir {
        Some(d) => d,
        None => temp_dir,
    };
    join_path(base, "linkport")
}

/// `config.toml` in the configuration directory.
pub fn config_path(config_dir: &str) -> (r: String)
    ensures
        r@ == join_spec(config_dir@, "config.toml"@),
{
    join_path(config_dir, "config.toml")
}

/// `events.jsonl` in the configuration directory.
pub fn events_path(config_dir: &str) -> (r: String)
    ensures
        r@ == join_spec(config_dir@, "events.jsonl"@),
{
    join_path(config_dir, "events.jsonl")
}

/// `token` in the configuration directory.
pub fn token_path(config_dir: &str) -> (r: String)
    ensures
        r@ == join_spec(config_dir@, "token"@),
{
    join_path(config_dir, "token")
}

/// `paused.flag` in the configuration directory: its presence pauses
/// routing.
pub fn pause_flag_path(config_dir: &str) -> (r: String)
    ensures
        r@ == join_spec(config_dir@, "paused.flag"@),
{
    join_path(config_dir, "paused.flag")
}

/// The token stored in a token file: its trimmed contents, unless empty.
pub fn token_from_file(contents: &str) -> (r: Option<String>)
    ensures
        match r {
            Some(t) => t@ == trim(contents@) && t@.len() > 0,
            None => trim(contents@).len() == 0,
        },
{
    let c = chars_of(contents);
    let t = trim_chars(&c);
    if t.len() > 0 {
        Some(string_of(&t))
    } else {
        None
    }
}

pub open spec fn hex_digit(n: int) -> char {
    seq!['0', '1', '2', '3', '4', '5', '6', '7', '8', '9', 'a', 'b', 'c', 'd', 'e', 'f'][n]
}

/// Lowercase hexadecimal, two digits per byte.
pub open spec fn hex_spec(b: Seq<u8>) -> Seq<char>
    decreases b.len(),
{
    if b.len() == 0 {
        seq![]
    } else {
        hex_spec(b.drop_last()) + seq![
            hex_digit((b.last() / 16) as int),
            hex_digit((b.last() % 16) as int),
        ]
    }
}

fn hex_digit_of(n: u8) -> (c: char)
    requires
        n < 16,
    ensures
        c == hex_digit(n as int),
{
    let digits: [char; 16] = [
        '0',
        '1',
        '2',
        '3',
        '4',
        '5',
        '6',
        '7',
        '8',
        '9',
        'a',
        'b',
        'c',
        'd',
        'e',
        'f',
    ];
    assert(digits@ =~= seq![
        '0',
        '1',
        '2',
        '3',
        '4',
        '5',
        '6',
        '7',
        '8',
        '9',
        'a',
        'b',
        'c',
        'd',
        'e',
        'f',
    ]);
    digits[n as usize]
}

/// A lowercase hexadecimal digit.
pub open spec fn is_hex_lower(c: char) -> bool {
    ('0' <= c && c <= '9') || ('a' <= c && c <= 'f')
}

proof fn lemma_hex_digit(n: int)
    requires
        0 <= n < 16,
    ensures
        is_hex_lower(hex_digit(n)),
{
    let d = seq!['0', '1', '2', '3', '4', '5', '6', '7', '8', '9', 'a', 'b', 'c', 'd', 'e', 'f'];
    assert(d[0] == '0' && d[1] == '1' && d[2] == '2' && d[3] == '3' && d[4] == '4' && d[5] == '5'
        && d[6] == '6' && d[7] == '7' && d[8] == '8' && d[9] == '9' && d[10] == 'a' && d[11] == 'b'
        && d[12] == 'c' && d[13] == 'd' && d[14] == 'e' && d[15] == 'f');
}

/// A token made from `n` random bytes is `2n` lowercase hex digits, and a
/// token file holding it gives it back unchanged (so a stored token is
/// reused as it was written).
pub proof fn lemma_token_round_trip(b: Seq<u8>)
    ensures
        hex_spec(b).len() == 2 * b.len(),
        forall|i: int| 0 <= i < hex_spec(b).len() ==> is_hex_lower(#[trigger] hex_spec(b)[i]),
        b.len() > 0 ==> trim(hex_spec(b)) == hex_spec(b),
    decreases b.len(),
{
    if b.len() > 0 {
        let p = b.drop_last();
        lemma_token_round_trip(p);
        let hi = (b.last() / 16) as int;
        let lo = (b.last() % 16) as int;
        lemma_hex_digit(hi);
        lemma_hex_digit(lo);
        let h = hex_spec(b);
        assert(h == hex_spec(p) + seq![hex_digit(hi), hex_digit(lo)]);
        assert forall|i: int| 0 <= i < h.len() implies is_hex_lower(#[trigger] h[i]) by {
            if i < hex_spec(p).len() {
                assert(h[i] == hex_spec(p)[i]);
            }
        }
        assert(is_hex_lower(h[0]) && is_hex_lower(h.last()));
        assert(!is_ws(h[0]) && !is_ws(h.last()));
        assert(trim_start(h) == h);
        assert(trim_end(h) == h);
    }
}

/// The portal token's text form: the random bytes in lowercase hex.
pub fn hex_token(bytes: &[u8]) -> (r: String)
    ensures
        r@ == hex_spec(bytes@),
{
    let mut v: Vec<char> = Vec::new();
    let mut i: usize = 0;
    while i < bytes.len()
        invariant
            i <= bytes@.len(),
            v@ == hex_spec(bytes@.take(i as int)),
        decreases bytes@.len() - i,
    {
        let b = bytes[i];
        assert(bytes@.take(i + 1).drop_last() =~= bytes@.take(i as int));
        v.push(hex_digit_of(b / 16));
        v.push(hex_digit_of(b % 16));
        i = i + 1;
        assert(v@ =~= hex_spec(bytes@.take(i as int)));
    }
    assert(bytes@.take(i as int) =~= bytes@);
    string_of(&v)
}

} // verus!
