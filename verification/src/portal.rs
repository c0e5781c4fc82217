//! The portal daemon's decisions: its tokenized URL, which browser opens
//! it, request authorization (localhost Host header and bearer token), and
//! which embedded asset answers a path.

use vstd::prelude::*;
use crate::config::{
    has_key, strs, value_of, Browser, BrowserModel, Config, ConfigModel,
};
use crate::engine::{evaluate, evaluate_spec, OutcomeModel, Outcome};
use crate::launcher::{parse_command_spec, parse_command_template};
use crate::open::{launch_browser, launch_of, launch_view, Launch};
use crate::platform::{discovered_view, DiscoveredBrowser, DiscoveredModel};
use crate::text::{
    chars_eq_str, chars_of, decimal, decimal_chars, first_index_of, is_prefix, last_index_of,
    owned, push_all, push_str, rfind_char, slice_of, split_char, split_on, starts_with,
    string_of,
};
use vstd::utf8::{encode_utf8, encode_utf8_decode_utf8};

verus! {

broadcast use vstd::string::group_string_axioms;

/// The portal daemon's shared state.
#[derive(Debug, Clone, PartialEq)]
pub struct AppState {
    pub token: String,
    pub port: u16,
}

impl AppState {
    pub fn new(token: String, port: u16) -> (r: AppState)
        ensures
            r.token@ == token@,
            r.port == port,
    {
        AppState { token, port }
    }
}

pub open spec fn portal_url_spec(port: u16, token: Seq<char>) -> Seq<char> {
    "http://127.0.0.1:"@ + decimal(port as nat) + "/?token="@ + token
}

/// The tokenized portal URL (opens straight into the dashboard).
pub fn portal_url_string(state: &AppState) -> (r: String)
    ensures
        r@ == portal_url_spec(state.port, state.token@),
{
    let mut v = chars_of("http://127.0.0.1:");
    let d = decimal_chars(state.port as u64);
    push_all(&mut v, &d);
    push_str(&mut v, "/?token=");
    push_str(&mut v, state.token.as_str());
    string_of(&v)
}

/// The browser the portal opens in when routing does not decide: the
/// configured default browser, else the first configured browser, else the
/// first discovered browser.
pub open spec fn portal_browser_spec(cfg: ConfigModel, discovered: Seq<DiscoveredModel>) -> Option<
    BrowserModel,
> {
    if cfg.default_browser is Some && has_key(cfg.browsers, cfg.default_browser->0) {
        Some(value_of(cfg.browsers, cfg.default_browser->0))
    } else if cfg.browsers.len() > 0 {
        Some(cfg.browsers[0].1)
    } else if discovered.len() > 0 {
        let p = parse_command_spec(discovered[0].command);
        Some(
            BrowserModel {
                display_name: discovered[0].display_name,
                exe: p.0,
                args: p.1,
                incognito_args: None,
            },
        )
    } else {
        None
    }
}

/// The browser the portal opens in when routing does not decide.
pub fn portal_browser(cfg: &Config, discovered: &Vec<DiscoveredBrowser>) -> (r: Option<Browser>)
    ensures
        match r {
            Some(b) => portal_browser_spec(cfg@, discovered_view(*discovered)) == Some(b@),
            None => portal_browser_spec(cfg@, discovered_view(*discovered)) is None,
        },
{
    if let Some(id) = &cfg.default_browser {
        if let Some(b) = cfg.browsers.get(id.as_str()) {
            return Some(b.copy());
        }
    }
    if let Some((_, b)) = cfg.browsers.first() {
        return Some(b.copy());
    }
    if discovered.len() > 0 {
        let d = &discovered[0];
        assert(d@ == discovered_view(*discovered)[0]);
        let (exe, args) = parse_command_template(d.command.as_str());
        return Some(
            Browser { display_name: d.display_name.clone(), exe, args, incognito_args: None },
        );
    }
    None
}

/// The launches to try, in order, to show the portal: the routed browser
/// (unless routing is paused or does not pick a configured browser), then
/// the portal browser. When every one fails the system handler opens it.
pub open spec fn portal_launches_spec(
    cfg: ConfigModel,
    url: Seq<char>,
    paused: bool,
    discovered: Seq<DiscoveredModel>,
) -> Seq<(Seq<char>, Seq<Seq<char>>)> {
    let routed: Seq<(Seq<char>, Seq<Seq<char>>)> = if paused {
        seq![]
    } else {
        match evaluate_spec(cfg, url).outcome {
            OutcomeModel::RuleMatched { target, incognito, .. } => if has_key(
                cfg.browsers,
                target,
            ) {
                seq![launch_of(value_of(cfg.browsers, target), url, incognito)]
            } else {
                seq![]
            },
            OutcomeModel::Default { target } => if has_key(cfg.browsers, target) {
                seq![launch_of(value_of(cfg.browsers, target), url, false)]
            } else {
                seq![]
            },
            _ => seq![],
        }
    };
    routed + match portal_browser_spec(cfg, discovered) {
        Some(b) => seq![launch_of(b, url, false)],
        None => seq![],
    }
}

/// The views of a list of launches.
pub open spec fn launches_view(v: Vec<Launch>) -> Seq<(Seq<char>, Seq<Seq<char>>)> {
    v@.map_values(|l: Launch| launch_view(l))
}

/// The launches to try, in order, to open the portal in a real browser.
pub fn open_portal_url(
    state: &AppState,
    cfg: &Config,
    paused: bool,
    discovered: &Vec<DiscoveredBrowser>,
) -> (r: Vec<Launch>)
    ensures
        launches_view(r) == portal_launches_spec(
            cfg@,
            portal_url_spec(state.port, state.token@),
            paused,
            discovered_view(*discovered),
        ),
{
    let url = portal_url_string(state);
    let mut out: Vec<Launch> = Vec::new();
    if !paused {
        let d = evaluate(cfg, url.as_str());
        match &d.outcome {
            Outcome::RuleMatched { target, incognito, .. } => {
                if let Ok(l) = launch_browser(cfg, target.as_str(), url.as_str(), *incognito) {
                    out.push(l);
                }
            },
            Outcome::Default { target } => {
                if let Ok(l) = launch_browser(cfg, target.as_str(), url.as_str(), false) {
                    out.push(l);
                }
            },
            _ => {},
        }
    }
    let ghost routed = launches_view(out);
    if let Some(b) = portal_browser(cfg, discovered) {
        let args = b.resolved_args(url.as_str(), false);
        out.push(Launch { exe: b.exe, args });
        assert(launches_view(out) =~= routed.push(launch_of(b@, url@, false)));
    } else {
        assert(routed + Seq::<(Seq<char>, Seq<Seq<char>>)>::empty() =~= routed);
    }
    assert(launches_view(out) =~= portal_launches_spec(
        cfg@,
        url@,
        paused,
        discovered_view(*discovered),
    ));
    out
}

// ---------------------------------------------------------------------------
// Authorization
// ---------------------------------------------------------------------------

/// The `:` at `k` of a Host header starts its port: in a bracketed (IPv6)
/// host it must come right after the `]`.
pub open spec fn port_sep_at(h: Seq<char>, k: int) -> bool {
    h.len() > 0 && h[0] == '[' ==> k > 0 && h[k - 1] == ']'
}

/// The host part of a Host header: without its `:port` suffix when it has
/// one.
pub open spec fn host_part(h: Seq<char>) -> Seq<char> {
    match last_index_of(h, ':') {
        Some(k) => if port_sep_at(h, k) {
            h.take(k)
        } else {
            h
        },
        None => h,
    }
}

/// A Host header naming this machine (DNS-rebinding protection).
pub open spec fn host_allowed_spec(h: Option<Seq<char>>) -> bool {
    match h {
        Some(x) => {
            let p = host_part(x);
            p == "127.0.0.1"@ || p == "localhost"@ || p == "[::1]"@
        },
        None => false,
    }
}

proof fn lemma_last_index_bound(s: Seq<char>, c: char)
    ensures
        last_index_of(s, c) matches Some(k) ==> 0 <= k < s.len(),
    decreases s.len(),
{
    if s.len() > 0 {
        lemma_last_index_bound(s.drop_last(), c);
    }
}

/// Whether the `:` at `k` starts the header's port.
fn is_port_sep(h: &Vec<char>, k: usize) -> (r: bool)
    requires
        k < h@.len(),
    ensures
        r == port_sep_at(h@, k as int),
{
    if h.len() > 0 && h[0] == '[' {
        k > 0 && h[k - 1] == ']'
    } else {
        true
    }
}

/// Whether a Host header names this machine.
pub fn host_allowed(host: Option<&str>) -> (r: bool)
    ensures
        r == host_allowed_spec(
            match host {
                Some(h) => Some(h@),
                None => None,
            },
        ),
{
    match host {
        None => false,
        Some(h) => {
            let hc = chars_of(h);
            let part = match rfind_char(&hc, ':') {
                Some(k) => {
                    proof {
                        lemma_last_index_bound(hc@, ':');
                    }
                    if is_port_sep(&hc, k) {
                        slice_of(&hc, 0, k)
                    } else {
                        hc
                    }
                },
                None => hc,
            };
            assert(part@ =~= host_part(h@));
            chars_eq_str(&part, "127.0.0.1") || chars_eq_str(&part, "localhost") || chars_eq_str(
                &part,
                "[::1]",
            )
        },
    }
}

/// The first `token=` parameter of a query string, without its name.
pub open spec fn token_param(pieces: Seq<Seq<char>>) -> Option<Seq<char>>
    decreases pieces.len(),
{
    if pieces.len() == 0 {
        None
    } else if is_prefix("token="@, pieces[0]) {
        Some(pieces[0].skip(6))
    } else {
        token_param(pieces.drop_first())
    }
}

/// The token a request presents: a `Bearer` Authorization header, else the
/// first `token=` query parameter, else nothing.
pub open spec fn provided_token_spec(
    authorization: Option<Seq<char>>,
    query: Option<Seq<char>>,
) -> Seq<char> {
    if authorization is Some && is_prefix("Bearer "@, authorization->0) {
        authorization->0.skip(7)
    } else {
        match query {
            Some(q) => match token_param(split_char(q, '&')) {
                Some(t) => t,
                None => seq![],
            },
            None => seq![],
        }
    }
}

/// The token a request presents.
pub fn provided_token(authorization: Option<&str>, query: Option<&str>) -> (r: String)
    ensures
        r@ == provided_token_spec(
            match authorization {
                Some(a) => Some(a@),
                None => None,
            },
            match query {
                Some(q) => Some(q@),
                None => None,
            },
        ),
{
    proof {
        reveal_strlit("Bearer ");
    }
    if let Some(a) = authorization {
        let ac = chars_of(a);
        let bearer = chars_of("Bearer ");
        if starts_with(&ac, &bearer) {
            let t = slice_of(&ac, 7, ac.len());
            return string_of(&t);
        }
    }
    assert(!(authorization is Some && is_prefix("Bearer "@, authorization->0@)));
    match query {
        Some(q) => {
            let qc = chars_of(q);
            let pieces = split_on(&qc, '&');
            let ghost ps = pieces@.map_values(|w: Vec<char>| w@);
            let prefix = chars_of("token=");
            proof {
                reveal_strlit("token=");
            }
            let mut i: usize = 0;
            assert(ps.skip(0) =~= ps);
            while i < pieces.len()
                invariant
                    ps == pieces@.map_values(|w: Vec<char>| w@),
                    ps == split_char(q@, '&'),
                    prefix@ == "token="@,
                    prefix@.len() == 6,
                    query == Some(q),
                    !(authorization is Some && is_prefix("Bearer "@, authorization->0@)),
                    i <= ps.len(),
                    token_param(ps) == token_param(ps.skip(i as int)),
                decreases ps.len() - i,
            {
                assert(ps.skip(i as int).drop_first() =~= ps.skip(i + 1));
                assert(ps.skip(i as int)[0] == pieces@[i as int]@);
                if starts_with(&pieces[i], &prefix) {
                    let t = slice_of(&pieces[i], 6, pieces[i].len());
                    return string_of(&t);
                }
                i = i + 1;
            }
            String::new()
        },
        None => String::new(),
    }
}

/// Byte comparison whose running time does not depend on where the inputs
/// differ.
pub fn constant_time_eq(a: &[u8], b: &[u8]) -> (r: bool)
    ensures
        r == (a@ == b@),
{
    if a.len() != b.len() {
        return false;
    }
    let mut acc: u8 = 0;
    let mut i: usize = 0;
    assert(a@.take(0) =~= b@.take(0));
    while i < a.len()
        invariant
            a@.len() == b@.len(),
            i <= a@.len(),
            (acc == 0) == (a@.take(i as int) == b@.take(i as int)),
        decreases a@.len() - i,
    {
        let x = a[i];
        let y = b[i];
        let next = acc | (x ^ y);
        assert((next == 0) == (acc == 0 && x == y)) by (bit_vector)
            requires
                next == acc | (x ^ y),
        ;
        proof {
            if a@.take(i + 1) == b@.take(i + 1) {
                assert(a@.take(i + 1)[i as int] == b@.take(i + 1)[i as int]);
                assert(a@.take(i as int) =~= a@.take(i + 1).take(i as int));
                assert(b@.take(i as int) =~= b@.take(i + 1).take(i as int));
            }
            if acc == 0 && x == y {
                assert(a@.take(i + 1) =~= a@.take(i as int).push(x));
                assert(b@.take(i + 1) =~= b@.take(i as int).push(y));
            }
        }
        acc = next;
        i = i + 1;
    }
    assert(a@.take(i as int) =~= a@);
    assert(b@.take(i as int) =~= b@);
    acc == 0
}

/// The outcome of authorizing an API request.
pub open spec fn auth_spec(
    token: Seq<char>,
    host: Option<Seq<char>>,
    authorization: Option<Seq<char>>,
    query: Option<Seq<char>>,
) -> Result<(), u16> {
    if !host_allowed_spec(host) {
        Err(403)
    } else if provided_token_spec(authorization, query) != token {
        Err(401)
    } else {
        Ok(())
    }
}

/// Authorizes an API request: its Host header must name this machine
/// (`403` otherwise) and it must present the portal token (`401`
/// otherwise), compared in constant time.
pub fn auth(
    state: &AppState,
    host: Option<&str>,
    authorization: Option<&str>,
    query: Option<&str>,
) -> (r: Result<(), u16>)
    ensures
        r == auth_spec(
            state.token@,
            match host {
                Some(h) => Some(h@),
                None => None,
            },
            match authorization {
                Some(a) => Some(a@),
                None => None,
            },
            match query {
                Some(q) => Some(q@),
                None => None,
            },
        ),
{
    if !host_allowed(host) {
        return Err(403);
    }
    let provided = provided_token(authorization, query);
    let pb = provided.as_str().as_bytes();
    let tb = state.token.as_str().as_bytes();
    proof {
        encode_utf8_decode_utf8(provided@);
        encode_utf8_decode_utf8(state.token@);
    }
    if !constant_time_eq(pb, tb) {
        return Err(401);
    }
    Ok(())
}

// ---------------------------------------------------------------------------
// Embedded assets
// ---------------------------------------------------------------------------

/// Leading `/` characters removed.
pub open spec fn strip_slashes(s: Seq<char>) -> Seq<char>
    decreases s.len(),
{
    if s.len() > 0 && s[0] == '/' {
        strip_slashes(s.drop_first())
    } else {
        s
    }
}

/// The asset path a request path names: without leading slashes, the
/// index page for the root.
pub open spec fn asset_path_spec(uri_path: Seq<char>) -> Seq<char> {
    if strip_slashes(uri_path).len() == 0 {
        "index.html"@
    } else {
        strip_slashes(uri_path)
    }
}

/// The asset path a request path names.
pub fn asset_path(uri_path: &str) -> (r: String)
    ensures
        r@ == asset_path_spec(uri_path@),
{
    let c = chars_of(uri_path);
    let mut i: usize = 0;
    assert(c@.skip(0) =~= c@);
    while i < c.len() && c[i] == '/'
        invariant
            i <= c@.len(),
            strip_slashes(c@) == strip_slashes(c@.skip(i as int)),
        decreases c@.len() - i,
    {
        assert(c@.skip(i as int).drop_first() =~= c@.skip(i + 1));
        i = i + 1;
    }
    let rest = slice_of(&c, i, c.len());
    assert(rest@ =~= c@.skip(i as int));
    if rest.len() == 0 {
        owned("index.html")
    } else {
        string_of(&rest)
    }
}

/// The embedded files tried, in order, for an asset path: the file itself,
/// its `.html` page (client-side routes), the index page.
pub fn asset_candidates(path: &str) -> (r: Vec<String>)
    ensures
        strs(r) == seq![path@, path@ + ".html"@, "index.html"@],
{
    let mut r: Vec<String> = Vec::new();
    r.push(owned(path));
    let mut v = chars_of(path);
    push_str(&mut v, ".html");
    r.push(string_of(&v));
    r.push(owned("index.html"));
    assert(strs(r) =~= seq![path@, path@ + ".html"@, "index.html"@]);
    r
}

/// The text after the last `.` of a path (the whole path without one).
pub open spec fn extension_of(path: Seq<char>) -> Seq<char> {
    match last_index_of(path, '.') {
        Some(k) => path.skip(k + 1),
        None => path,
    }
}

/// The content type served for an extension.
pub open spec fn mime_spec(ext: Seq<char>) -> Seq<char> {
    if ext == "html"@ || ext == "htm"@ {
        "text/html; charset=utf-8"@
    } else if ext == "js"@ {
        "text/javascript"@
    } else if ext == "css"@ {
        "text/css"@
    } else if ext == "json"@ || ext == "map"@ {
        "application/json"@
    } else if ext == "txt"@ {
        "text/plain; charset=utf-8"@
    } else if ext == "svg"@ {
        "image/svg+xml"@
    } else if ext == "png"@ {
        "image/png"@
    } else if ext == "ico"@ {
        "image/x-icon"@
    } else if ext == "woff2"@ {
        "font/woff2"@
    } else if ext == "webmanifest"@ {
        "application/manifest+json"@
    } else {
        "application/octet-stream"@
    }
}

/// The content type of an embedded asset, by its extension.
pub fn mime_type(path: &str) -> (r: String)
    ensures
        r@ == mime_spec(extension_of(path@)),
{
    let c = chars_of(path);
    let ext = match rfind_char(&c, '.') {
        Some(k) => {
            proof {
                lemma_last_index_bound(c@, '.');
            }
            let n = c.len();
            assert(k < n);
            slice_of(&c, k + 1, n)
        },
        None => c,
    };
    assert(ext@ =~= extension_of(path@));
    if chars_eq_str(&ext, "html") || chars_eq_str(&ext, "htm") {
        owned("text/html; charset=utf-8")
    } else if chars_eq_str(&ext, "js") {
        owned("text/javascript")
    } else if chars_eq_str(&ext, "css") {
        owned("text/css")
    } else if chars_eq_str(&ext, "json") || chars_eq_str(&ext, "map") {
        owned("application/json")
    } else if chars_eq_str(&ext, "txt") {
        owned("text/plain; charset=utf-8")
    } else if chars_eq_str(&ext, "svg") {
        owned("image/svg+xml")
    } else if chars_eq_str(&ext, "png") {
        owned("image/png")
    } else if chars_eq_str(&ext, "ico") {
        owned("image/x-icon")
    } else if chars_eq_str(&ext, "woff2") {
        owned("font/woff2")
    } else if chars_eq_str(&ext, "webmanifest") {
        owned("application/manifest+json")
    } else {
        owned("application/octet-stream")
    }
}

} // verus!
