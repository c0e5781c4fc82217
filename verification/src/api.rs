//! The computations behind the portal's JSON API: the default-browser
//! choice when a configuration is saved, executable-path comparison and
//! request parameters.

use vstd::prelude::*;
use crate::config::{has_key, keys_sorted, opt_str, strs, BrowserModel, Config, ConfigModel};
use crate::outside::{lowercase, to_lowercase};
use crate::text::{chars_of, replace_all, replace_chars, str_lt, string_of, trim, trim_chars};
use crate::validate::{validate, validate_spec};

verus! {

broadcast use vstd::string::group_string_axioms;

/// The body of a dry-run request.
#[derive(Debug, Clone, PartialEq)]
pub struct TestBody {
    pub url: String,
}

/// The query of a history request.
#[derive(Debug, Clone, PartialEq)]
pub struct EventsParams {
    pub limit: Option<usize>,
}

/// How many history entries a request gets: the asked number (50 when not
/// given), at most 500.
pub fn events_limit(p: &EventsParams) -> (r: usize)
    ensures
        r == (match p.limit {
            Some(n) => if n <= 500 {
                n
            } else {
                500
            },
            None => 50,
        }),
{
    let n = match p.limit {
        Some(n) => n,
        None => 50,
    };
    if n <= 500 {
        n
    } else {
        500
    }
}

/// A Windows executable path normalised for comparison: trimmed, `/` as
/// `\`, lowercased.
pub open spec fn exe_norm(s: Seq<char>) -> Seq<char> {
    lowercase(replace_all(trim(s), "/"@, "\\"@))
}

/// Case-insensitive Windows exe-path comparison, slash-style agnostic.
pub open spec fn same_exe_spec(a: Seq<char>, b: Seq<char>) -> bool {
    exe_norm(a) == exe_norm(b)
}

fn exe_norm_of(s: &str) -> (r: String)
    ensures
        r@ == exe_norm(s@),
{
    let c = chars_of(s);
    let t = trim_chars(&c);
    let slash = chars_of("/");
    let back = chars_of("\\");
    proof {
        reveal_strlit("/");
    }
    let replaced = replace_chars(&t, &slash, &back);
    let rs = string_of(&replaced);
    to_lowercase(rs.as_str())
}

/// Case-insensitive Windows exe-path comparison, slash-style agnostic.
pub fn same_exe(a: &str, b: &str) -> (r: bool)
    ensures
        r == same_exe_spec(a@, b@),
{
    let na = exe_norm_of(a);
    let nb = exe_norm_of(b);
    na == nb
}

/// The position of the first browser whose executable is `exe`.
pub open spec fn first_exe_match(b: Seq<(Seq<char>, BrowserModel)>, exe: Seq<char>) -> Option<int>
    decreases b.len(),
{
    if b.len() == 0 {
        None
    } else if same_exe_spec(b[0].1.exe, exe) {
        Some(0)
    } else {
        match first_exe_match(b.drop_first(), exe) {
            Some(k) => Some(k + 1),
            None => None,
        }
    }
}

proof fn lemma_first_exe_match_bound(b: Seq<(Seq<char>, BrowserModel)>, exe: Seq<char>)
    ensures
        first_exe_match(b, exe) matches Some(k) ==> 0 <= k < b.len(),
    decreases b.len(),
{
    if b.len() > 0 {
        lemma_first_exe_match_bound(b.drop_first(), exe);
    }
}

/// The default browser never dangles: keep a valid choice, else the first
/// configured browser running the system default browser's executable,
/// else the first configured browser; `None` only without browsers.
pub open spec fn resolve_default_spec(cfg: ConfigModel, system_default: Option<Seq<char>>) -> Option<
    Seq<char>,
> {
    if cfg.default_browser is Some && has_key(cfg.browsers, cfg.default_browser->0) {
        cfg.default_browser
    } else if system_default is Some && first_exe_match(cfg.browsers, system_default->0) is Some {
        Some(cfg.browsers[first_exe_match(cfg.browsers, system_default->0)->0].0)
    } else if cfg.browsers.len() > 0 {
        Some(cfg.browsers[0].0)
    } else {
        None
    }
}

/// The default browser never dangles: it is a configured browser, and
/// there is one exactly when some browser is configured; a valid choice is
/// kept.
pub proof fn lemma_default_never_dangles(cfg: ConfigModel, system_default: Option<Seq<char>>)
    ensures
        resolve_default_spec(cfg, system_default) is None <==> cfg.browsers.len() == 0,
        resolve_default_spec(cfg, system_default) matches Some(d) ==> has_key(cfg.browsers, d),
        (cfg.default_browser is Some && has_key(cfg.browsers, cfg.default_browser->0))
            ==> resolve_default_spec(cfg, system_default) == cfg.default_browser,
{
    if system_default is Some {
        lemma_first_exe_match_bound(cfg.browsers, system_default->0);
        if let Some(k) = first_exe_match(cfg.browsers, system_default->0) {
            assert(0 <= k < cfg.browsers.len() && cfg.browsers[k].0 == cfg.browsers[k].0);
        }
    }
    if cfg.browsers.len() > 0 {
        assert(0 <= 0 < cfg.browsers.len() && cfg.browsers[0].0 == cfg.browsers[0].0);
    }
}

proof fn lemma_first_exe_match_props(b: Seq<(Seq<char>, BrowserModel)>, exe: Seq<char>)
    ensures
        first_exe_match(b, exe) matches Some(k) ==> 0 <= k < b.len() && same_exe_spec(
            b[k].1.exe,
            exe,
        ) && forall|j: int| 0 <= j < k ==> !same_exe_spec(#[trigger] b[j].1.exe, exe),
        first_exe_match(b, exe) is None ==> forall|j: int|
            0 <= j < b.len() ==> !same_exe_spec(#[trigger] b[j].1.exe, exe),
    decreases b.len(),
{
    if b.len() > 0 && !same_exe_spec(b[0].1.exe, exe) {
        lemma_first_exe_match_props(b.drop_first(), exe);
        assert forall|j: int| 1 <= j < b.len() implies b[j] == b.drop_first()[j - 1] by {}
    }
}

/// The default browser chosen when the configured one is missing or
/// dangling is the least id (in key order) among the browsers running the
/// system default browser's executable, else the least id of all.
pub proof fn lemma_default_is_least(cfg: ConfigModel, system_default: Option<Seq<char>>)
    requires
        keys_sorted(cfg.browsers),
    ensures
        ({
            &&& !(cfg.default_browser is Some && has_key(cfg.browsers, cfg.default_browser->0))
            &&& system_default is Some
            &&& exists|j: int|
                0 <= j < cfg.browsers.len() && same_exe_spec(
                    #[trigger] cfg.browsers[j].1.exe,
                    system_default->0,
                )
        }) ==> {
            let d = resolve_default_spec(cfg, system_default)->0;
            let s = system_default->0;
            &&& resolve_default_spec(cfg, system_default) is Some
            &&& exists|i: int|
                0 <= i < cfg.browsers.len() && #[trigger] cfg.browsers[i].0 == d && same_exe_spec(
                    cfg.browsers[i].1.exe,
                    s,
                )
            &&& forall|j: int|
                0 <= j < cfg.browsers.len() && same_exe_spec(#[trigger] cfg.browsers[j].1.exe, s)
                    && cfg.browsers[j].0 != d ==> str_lt(d, cfg.browsers[j].0)
        },
        ({
            &&& !(cfg.default_browser is Some && has_key(cfg.browsers, cfg.default_browser->0))
            &&& !(system_default is Some && exists|j: int|
                0 <= j < cfg.browsers.len() && same_exe_spec(
                    #[trigger] cfg.browsers[j].1.exe,
                    system_default->0,
                ))
            &&& cfg.browsers.len() > 0
        }) ==> {
            let d = resolve_default_spec(cfg, system_default)->0;
            &&& resolve_default_spec(cfg, system_default) == Some(cfg.browsers[0].0)
            &&& forall|j: int| 0 < j < cfg.browsers.len() ==> str_lt(d, #[trigger] cfg.browsers[j].0)
        },
{
    let b = cfg.browsers;
    if let Some(s) = system_default {
        lemma_first_exe_match_props(b, s);
        if let Some(k) = first_exe_match(b, s) {
            let d = b[k].0;
            assert forall|j: int|
                0 <= j < b.len() && same_exe_spec(#[trigger] b[j].1.exe, s) && b[j].0 != d
                implies str_lt(d, b[j].0) by {
                assert(j != k);
                if j < k {
                    assert(!same_exe_spec(b[j].1.exe, s));
                }
                assert(str_lt(b[k].0, b[j].0));
            }
            assert(0 <= k < b.len() && b[k].0 == d && same_exe_spec(b[k].1.exe, s));
        }
    }
    if b.len() > 0 {
        assert forall|j: int| 0 < j < b.len() implies str_lt(b[0].0, #[trigger] b[j].0) by {
            assert(str_lt(b[0].0, b[j].0));
        }
    }
}

/// The default browser to store, given the executable of the system
/// default browser when it can be determined.
pub fn resolve_default(cfg: &Config, system_default: Option<&str>) -> (r: Option<String>)
    ensures
        opt_str(r) == resolve_default_spec(
            cfg@,
            match system_default {
                Some(s) => Some(s@),
                None => None,
            },
        ),
        r is None <==> cfg@.browsers.len() == 0,
{
    if let Some(d) = &cfg.default_browser {
        if cfg.browsers.contains_key(d.as_str()) {
            return Some(d.clone());
        }
    }
    assert(!(cfg@.default_browser is Some && has_key(cfg@.browsers, cfg@.default_browser->0)));
    if let Some(sys) = system_default {
        let ghost b = cfg.browsers@;
        let mut i: usize = 0;
        assert(b.skip(0) =~= b);
        while i < cfg.browsers.len()
            invariant
                b == cfg.browsers@,
                i <= b.len(),
                system_default == Some(sys),
                !(cfg@.default_browser is Some && has_key(cfg@.browsers, cfg@.default_browser->0)),
                first_exe_match(b, sys@) == (match first_exe_match(b.skip(i as int), sys@) {
                    Some(k) => Some(k + i),
                    None => None,
                }),
            decreases b.len() - i,
        {
            assert(b.skip(i as int).drop_first() =~= b.skip(i + 1));
            assert(b.skip(i as int)[0] == b[i as int]);
            if same_exe(cfg.browsers.value_at(i).exe.as_str(), sys) {
                let k = cfg.browsers.key_at(i).clone();
                assert(first_exe_match(b, sys@) == Some(i as int));
                return Some(k);
            }
            i = i + 1;
        }
        assert(b.skip(i as int) =~= Seq::<(Seq<char>, BrowserModel)>::empty());
    }
    match cfg.browsers.first() {
        Some((k, _)) => Some(k.clone()),
        None => None,
    }
}

/// What saving a configuration through the portal stores and reports: the
/// configuration with its default browser resolved, and its warnings.
pub fn put_config(cfg: Config, system_default: Option<&str>) -> (r: (Config, Vec<String>))
    ensures
        r.0@.version == cfg@.version,
        r.0@.port == cfg@.port,
        r.0@.browsers == cfg@.browsers,
        r.0@.rules == cfg@.rules,
        r.0@.redirect_hosts == cfg@.redirect_hosts,
        r.0@.default_browser == resolve_default_spec(
            cfg@,
            match system_default {
                Some(s) => Some(s@),
                None => None,
            },
        ),
        strs(r.1) == validate_spec(r.0@),
{
    let mut cfg = cfg;
    let d = resolve_default(&cfg, system_default);
    cfg.default_browser = d;
    let warnings = validate(&cfg);
    (cfg, warnings)
}

} // verus!
