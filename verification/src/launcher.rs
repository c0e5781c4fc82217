//! Windows command-template parsing: registry `shell\open\command` values
//! become an executable and an argument template.

use vstd::prelude::*;
use crate::config::{placeholder_chars, strs, url_placeholder};
use crate::text::{
    chars_eq, chars_of, contains_char, find_char, first_index_of, slice_of, split_whitespace,
    split_ws, string_of, trim, trim_chars,
};

verus! {

broadcast use vstd::string::group_string_axioms;

/// The executable and the rest of a trimmed command: a quoted executable
/// ends at the next quote, an unquoted one at the first space.
pub open spec fn split_exe(c: Seq<char>) -> (Seq<char>, Seq<char>) {
    if c.len() > 0 && c[0] == '"' {
        let s = c.drop_first();
        match first_index_of(s, '"') {
            Some(k) => (s.take(k), s.skip(k + 1)),
            None => (s, seq![]),
        }
    } else {
        match first_index_of(c, ' ') {
            Some(k) => (c.take(k), c.skip(k + 1)),
            None => (c, seq![]),
        }
    }
}

/// A token mentioning `%` (such as `%1` or `"%1"`) stands for the URL.
pub open spec fn url_token(t: Seq<char>) -> Seq<char> {
    if t.contains('%') {
        url_placeholder()
    } else {
        t
    }
}

/// `Vec::dedup`: runs of equal neighbours collapse to their first element.
pub open spec fn dedup(s: Seq<Seq<char>>) -> Seq<Seq<char>>
    decreases s.len(),
{
    if s.len() <= 1 {
        s
    } else {
        let d = dedup(s.drop_last());
        if d.last() == s.last() {
            d
        } else {
            d.push(s.last())
        }
    }
}

/// The executable and argument template of a registry command.
pub open spec fn parse_command_spec(command: Seq<char>) -> (Seq<char>, Seq<Seq<char>>) {
    let parts = split_exe(trim(command));
    let args = dedup(split_ws(parts.1).map_values(|t: Seq<char>| url_token(t)));
    (
        parts.0,
        if args.contains(url_placeholder()) {
            args
        } else {
            args.push(url_placeholder())
        },
    )
}

proof fn lemma_dedup_last(s: Seq<Seq<char>>)
    requires
        s.len() > 0,
    ensures
        dedup(s).len() > 0,
        dedup(s).last() == s.last(),
    decreases s.len(),
{
    if s.len() > 1 {
        lemma_dedup_last(s.drop_last());
    }
}

/// The executable and the unparsed rest of a command, as characters.
fn split_exe_chars(c: &[char]) -> (r: (Vec<char>, Vec<char>))
    ensures
        r.0@ == split_exe(c@).0,
        r.1@ == split_exe(c@).1,
{
    if c.len() > 0 && c[0] == '"' {
        let s = slice_of(c, 1, c.len());
        assert(s@ =~= c@.drop_first());
        match find_char(&s, '"') {
            Some(k) => {
                proof {
                    lemma_first_index_bound(s@, '"');
                }
                (slice_of(&s, 0, k), slice_of(&s, k + 1, s.len()))
            },
            None => (s, Vec::new()),
        }
    } else {
        match find_char(c, ' ') {
            Some(k) => {
                proof {
                    lemma_first_index_bound(c@, ' ');
                }
                (slice_of(c, 0, k), slice_of(c, k + 1, c.len()))
            },
            None => (slice_of(c, 0, c.len()), Vec::new()),
        }
    }
}

proof fn lemma_first_index_bound(s: Seq<char>, c: char)
    ensures
        first_index_of(s, c) matches Some(k) ==> 0 <= k < s.len(),
    decreases s.len(),
{
    if s.len() > 0 {
        lemma_first_index_bound(s.drop_first(), c);
    }
}

/// Parses a Windows registry `shell\open\command` template such as
/// `"C:\Program Files\Mozilla Firefox\firefox.exe" -osint -url "%1"` into an
/// executable and an argument list where `%1`-style tokens become `{url}`;
/// `{url}` is appended when no token references the URL.
pub fn parse_command_template(command: &str) -> (r: (String, Vec<String>))
    ensures
        r.0@ == parse_command_spec(command@).0,
        strs(r.1) == parse_command_spec(command@).1,
{
    let cc = chars_of(command);
    let t = trim_chars(&cc);
    let (exe, rest) = split_exe_chars(&t);
    let tokens = split_whitespace(&rest);
    let ghost toks = tokens@.map_values(|w: Vec<char>| w@);
    let ghost mapped = toks.map_values(|t: Seq<char>| url_token(t));
    let pat = placeholder_chars();
    let mut args: Vec<String> = Vec::new();
    let mut last: Vec<char> = Vec::new();
    let mut i: usize = 0;
    while i < tokens.len()
        invariant
            toks == tokens@.map_values(|w: Vec<char>| w@),
            mapped == toks.map_values(|t: Seq<char>| url_token(t)),
            pat@ == url_placeholder(),
            i <= tokens@.len(),
            strs(args) == dedup(mapped.take(i as int)),
            i > 0 ==> last@ == mapped[i - 1],
        decreases tokens@.len() - i,
    {
        let tok: &Vec<char> = &tokens[i];
        assert(tok@ == toks[i as int]);
        let mapped_tok: Vec<char> = if contains_char(tok, '%') {
            placeholder_chars()
        } else {
            slice_of(tok, 0, tok.len())
        };
        assert(mapped_tok@ =~= mapped[i as int]);
        let ghost prev = strs(args);
        assert(mapped.take(i + 1).drop_last() =~= mapped.take(i as int));
        assert(mapped.take(i + 1).last() == mapped[i as int]);
        if i > 0 {
            proof {
                lemma_dedup_last(mapped.take(i as int));
            }
            assert(mapped.take(i as int).last() == mapped[i - 1]);
        }
        let dup = i > 0 && chars_eq(&last, &mapped_tok);
        if !dup {
            let s = string_of(&mapped_tok);
            args.push(s);
            assert(strs(args) =~= prev.push(s@));
            if i == 0 {
                assert(mapped.take(1) =~= seq![mapped[0]]);
                assert(prev =~= Seq::<Seq<char>>::empty());
            }
        }
        last = mapped_tok;
        i = i + 1;
    }
    assert(mapped.take(i as int) =~= mapped);
    let mut found = false;
    let mut j: usize = 0;
    while j < args.len()
        invariant
            pat@ == url_placeholder(),
            j <= args@.len(),
            found == strs(args).take(j as int).contains(url_placeholder()),
        decreases args@.len() - j,
    {
        let a = chars_of(args[j].as_str());
        assert(strs(args).take(j + 1) =~= strs(args).take(j as int).push(a@));
        if chars_eq(&a, &pat) {
            found = true;
            assert(strs(args).take(j + 1)[j as int] == url_placeholder());
        }
        j = j + 1;
    }
    assert(strs(args).take(j as int) =~= strs(args));
    if !found {
        let ghost prev = strs(args);
        let p = string_of(&pat);
        args.push(p);
        assert(strs(args) =~= prev.push(url_placeholder()));
    }
    (string_of(&exe), args)
}

/// The executable (first token) of a registry command template: quoted or
/// space-separated.
pub fn command_exe(command: &str) -> (r: String)
    ensures
        r@ == split_exe(trim(command@)).0,
{
    let cc = chars_of(command);
    let t = trim_chars(&cc);
    let (exe, _rest) = split_exe_chars(&t);
    string_of(&exe)
}

/// A parsed template always references the URL: `%`-tokens become `{url}`,
/// and `{url}` is appended when no token referenced it.
pub proof fn lemma_template_mentions_url(command: Seq<char>)
    ensures
        parse_command_spec(command).1.contains(url_placeholder()),
{
    let args = dedup(
        split_ws(split_exe(trim(command)).1).map_values(|t: Seq<char>| url_token(t)),
    );
    if !args.contains(url_placeholder()) {
        assert(args.push(url_placeholder())[args.len() as int] == url_placeholder());
    }
}

/// The executable of a command is the one its template parses to.
pub proof fn lemma_command_exe_agrees(command: Seq<char>)
    ensures
        split_exe(trim(command)).0 == parse_command_spec(command).0,
{
}

proof fn lemma_first_index_props(s: Seq<char>, c: char)
    ensures
        first_index_of(s, c) matches Some(k) ==> 0 <= k < s.len() && s[k] == c && forall|
            j: int,
        | 0 <= j < k ==> s[j] != c,
        first_index_of(s, c) is None ==> forall|j: int| 0 <= j < s.len() ==> s[j] != c,
    decreases s.len(),
{
    if s.len() > 0 && s[0] != c {
        lemma_first_index_props(s.drop_first(), c);
        assert forall|j: int| 1 <= j < s.len() implies s[j] == s.drop_first()[j - 1] by {}
    }
}

proof fn lemma_dedup_props(s: Seq<Seq<char>>)
    ensures
        forall|i: int| 0 <= i < dedup(s).len() - 1 ==> #[trigger] dedup(s)[i] != dedup(s)[i + 1],
        (forall|j: int| 0 <= j < s.len() ==> !(#[trigger] s[j]).contains('%')) ==> forall|i: int|
            0 <= i < dedup(s).len() ==> !(#[trigger] dedup(s)[i]).contains('%'),
    decreases s.len(),
{
    if s.len() > 1 {
        let t = s.drop_last();
        lemma_dedup_props(t);
        lemma_dedup_last(t);
        if (forall|j: int| 0 <= j < s.len() ==> !(#[trigger] s[j]).contains('%')) {
            assert forall|j: int| 0 <= j < t.len() implies !(#[trigger] t[j]).contains('%') by {
                assert(t[j] == s[j]);
            }
            assert(!s[s.len() - 1].contains('%'));
        }
    }
}

/// The shape of a parsed template: no argument holds a `%` (those stood for
/// the URL), no two neighbouring arguments are equal, and the executable is
/// the quoted text at the start of the trimmed command (without quotes),
/// else its text up to the first space.
pub proof fn lemma_template_shape(command: Seq<char>)
    ensures
        forall|i: int|
            0 <= i < parse_command_spec(command).1.len() ==> !(#[trigger] parse_command_spec(
                command,
            ).1[i]).contains('%'),
        forall|i: int|
            0 <= i < parse_command_spec(command).1.len() - 1 ==> #[trigger] parse_command_spec(
                command,
            ).1[i] != parse_command_spec(command).1[i + 1],
        parse_command_spec(command).0.len() > 0 ==> parse_command_spec(command).0[0] != '"',
        trim(command).len() > 0 && trim(command)[0] == '"' ==> {
            let c = trim(command);
            let exe = parse_command_spec(command).0;
            &&& !exe.contains('"')
            &&& c.subrange(1, exe.len() + 1int) == exe
            &&& (c.drop_first().contains('"') ==> c[exe.len() + 1int] == '"')
            &&& (!c.drop_first().contains('"') ==> exe == c.drop_first())
        },
        !(trim(command).len() > 0 && trim(command)[0] == '"') ==> {
            let c = trim(command);
            let exe = parse_command_spec(command).0;
            &&& !exe.contains(' ')
            &&& c.subrange(0, exe.len() as int) == exe
            &&& (c.contains(' ') ==> c[exe.len() as int] == ' ')
            &&& (!c.contains(' ') ==> exe == c)
        },
{
    let c = trim(command);
    let toks = split_ws(split_exe(c).1);
    let mapped = toks.map_values(|t: Seq<char>| url_token(t));
    let args = dedup(mapped);
    assert forall|j: int| 0 <= j < mapped.len() implies !(#[trigger] mapped[j]).contains('%') by {
        if toks[j].contains('%') {
            assert(mapped[j] == url_placeholder());
            assert(!url_placeholder().contains('%')) by {
                assert forall|k: int| 0 <= k < 5 implies url_placeholder()[k] != '%' by {}
            }
        }
    }
    lemma_dedup_props(mapped);
    let out = parse_command_spec(command).1;
    if !args.contains(url_placeholder()) {
        assert(out == args.push(url_placeholder()));
        assert forall|i: int| 0 <= i < out.len() implies !(#[trigger] out[i]).contains('%') by {
            if i == args.len() {
                assert forall|k: int| 0 <= k < 5 implies url_placeholder()[k] != '%' by {}
            } else {
                assert(out[i] == args[i]);
            }
        }
        assert forall|i: int| 0 <= i < out.len() - 1 implies #[trigger] out[i] != out[i + 1] by {
            if i + 1 == args.len() {
                assert(out[i] == args[i]);
                assert(args.contains(args[i]));
            } else {
                assert(out[i] == args[i]);
                assert(out[i + 1] == args[i + 1]);
            }
        }
    }
    if c.len() > 0 && c[0] == '"' {
        let s = c.drop_first();
        lemma_first_index_props(s, '"');
        let exe = split_exe(c).0;
        assert forall|k: int| 0 <= k < exe.len() implies exe[k] != '"' by {
            assert(exe[k] == s[k]);
        }
        assert(c.subrange(1, exe.len() + 1int) =~= exe);
        if s.contains('"') {
            let w = choose|w: int| 0 <= w < s.len() && s[w] == '"';
            assert(s[w] == '"');
        } else {
            match first_index_of(s, '"') {
                Some(k) => {
                    assert(s[k] == '"');
                    assert(s.contains('"'));
                },
                None => {},
            }
            assert(exe =~= s);
        }
    } else {
        lemma_first_index_props(c, ' ');
        let exe = split_exe(c).0;
        assert forall|k: int| 0 <= k < exe.len() implies exe[k] != ' ' by {
            assert(exe[k] == c[k]);
        }
        assert(c.subrange(0, exe.len() as int) =~= exe);
        if c.contains(' ') {
            let w = choose|w: int| 0 <= w < c.len() && c[w] == ' ';
            assert(c[w] == ' ');
        } else {
            match first_index_of(c, ' ') {
                Some(k) => {
                    assert(c[k] == ' ');
                    assert(c.contains(' '));
                },
                None => {},
            }
            assert(exe =~= c);
        }
        if exe.len() > 0 {
            assert(exe[0] == c[0]);
        }
    }
}

} // verus!
