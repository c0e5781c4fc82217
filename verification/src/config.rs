//! Configuration model: browsers, rules, portal settings, and the ordered
//! browser table keyed by id.

use vstd::prelude::*;
use crate::text::{
    chars_eq, chars_of, contains, contains_seq, lemma_str_lt_irreflexive, lemma_str_lt_total,
    lemma_replace_absent, lemma_replace_once, lemma_str_lt_transitive, owned, replace_all,
    replace_chars, str_less, str_lt, string_of,
};

verus! {

broadcast use vstd::string::group_string_axioms;

/// The configuration format version this library writes and expects.
pub const CONFIG_VERSION: u32 = 1;

/// The portal's default port on 127.0.0.1.
pub const DEFAULT_PORT: u16 = 14200;

/// The view of an optional string.
pub open spec fn opt_str(o: Option<String>) -> Option<Seq<char>> {
    match o {
        Some(s) => Some(s@),
        None => None,
    }
}

/// The view of a list of strings.
pub open spec fn strs(v: Vec<String>) -> Seq<Seq<char>> {
    v@.map_values(|s: String| s@)
}

/// The view of an optional list of strings.
pub open spec fn opt_strs(o: Option<Vec<String>>) -> Option<Seq<Seq<char>>> {
    match o {
        Some(v) => Some(strs(v)),
        None => None,
    }
}

/// A copy of a list of strings.
pub fn copy_strs(v: &Vec<String>) -> (r: Vec<String>)
    ensures
        strs(r) == strs(*v),
{
    let mut r: Vec<String> = Vec::new();
    let mut i: usize = 0;
    while i < v.len()
        invariant
            i <= v@.len(),
            strs(r) == strs(*v).take(i as int),
        decreases v@.len() - i,
    {
        let c = v[i].clone();
        assert(c@ == strs(*v)[i as int]);
        let ghost prev = strs(r);
        r.push(c);
        assert(strs(r) =~= prev.push(c@));
        i = i + 1;
        assert(strs(r) =~= strs(*v).take(i as int));
    }
    assert(strs(*v).take(i as int) =~= strs(*v));
    r
}

#[derive(Debug, Clone, PartialEq)]
pub struct PortalConfig {
    /// Port the portal daemon binds on 127.0.0.1.
    pub port: u16,
}

impl Default for PortalConfig {
    fn default() -> (r: Self)
        ensures
            r.port == DEFAULT_PORT,
    {
        PortalConfig { port: DEFAULT_PORT }
    }
}

/// The abstract content of a [`Browser`].
pub ghost struct BrowserModel {
    pub display_name: Seq<char>,
    pub exe: Seq<char>,
    pub args: Seq<Seq<char>>,
    pub incognito_args: Option<Seq<Seq<char>>>,
}

#[derive(Debug, Clone, PartialEq)]
pub struct Browser {
    pub display_name: String,
    /// Executable to run.
    pub exe: String,
    /// Argument template; `{url}` is substituted with the captured URL.
    /// If no argument contains `{url}`, the URL is appended.
    pub args: Vec<String>,
    /// Alternative argument template used when a rule requests incognito mode.
    pub incognito_args: Option<Vec<String>>,
}

impl View for Browser {
    type V = BrowserModel;

    open spec fn view(&self) -> BrowserModel {
        BrowserModel {
            display_name: self.display_name@,
            exe: self.exe@,
            args: strs(self.args),
            incognito_args: opt_strs(self.incognito_args),
        }
    }
}

/// The URL placeholder in argument templates.
pub open spec fn url_placeholder() -> Seq<char> {
    seq!['{', 'u', 'r', 'l', '}']
}

/// The argument template a launch uses.
pub open spec fn template_for(b: BrowserModel, incognito: bool) -> Seq<Seq<char>> {
    if incognito && b.incognito_args is Some {
        b.incognito_args->0
    } else {
        b.args
    }
}

/// Whether some argument of the template mentions `{url}`.
pub open spec fn mentions_url(t: Seq<Seq<char>>) -> bool {
    exists|i: int| 0 <= i < t.len() && contains_seq(#[trigger] t[i], url_placeholder())
}

/// The arguments a browser is launched with for `url`: every `{url}` in the
/// template is replaced by the URL, and the URL is appended when no
/// argument mentions `{url}`.
pub open spec fn resolved_args_spec(b: BrowserModel, url: Seq<char>, incognito: bool) -> Seq<
    Seq<char>,
> {
    let t = template_for(b, incognito);
    let replaced = t.map_values(|a: Seq<char>| replace_all(a, url_placeholder(), url));
    if mentions_url(t) {
        replaced
    } else {
        replaced.push(url)
    }
}

/// The characters of `{url}`.
pub fn placeholder_chars() -> (v: Vec<char>)
    ensures
        v@ == url_placeholder(),
{
    let mut v = Vec::new();
    v.push('{');
    v.push('u');
    v.push('r');
    v.push('l');
    v.push('}');
    assert(v@ =~= url_placeholder());
    v
}

impl Browser {
    /// A copy of this browser.
    pub fn copy(&self) -> (r: Browser)
        ensures
            r@ == self@,
    {
        Browser {
            display_name: self.display_name.clone(),
            exe: self.exe.clone(),
            args: copy_strs(&self.args),
            incognito_args: match &self.incognito_args {
                Some(v) => Some(copy_strs(v)),
                None => None,
            },
        }
    }

    /// The command-line arguments for opening `url`: `{url}` substituted
    /// into the (incognito, when requested and defined) template, the URL
    /// appended when no argument mentions `{url}`.
    pub fn resolved_args(&self, url: &str, incognito: bool) -> (r: Vec<String>)
        ensures
            strs(r) == resolved_args_spec(self@, url@, incognito),
    {
        let template: &Vec<String> = if incognito && self.incognito_args.is_some() {
            match &self.incognito_args {
                Some(v) => v,
                None => &self.args,
            }
        } else {
            &self.args
        };
        let ghost t = strs(*template);
        assert(t == template_for(self@, incognito));
        let pat = placeholder_chars();
        let url_chars = chars_of(url);
        let mut out: Vec<String> = Vec::new();
        let mut any = false;
        let mut i: usize = 0;
        while i < template.len()
            invariant
                t == strs(*template),
                pat@ == url_placeholder(),
                url_chars@ == url@,
                i <= template@.len(),
                strs(out) == t.take(i as int).map_values(
                    |a: Seq<char>| replace_all(a, url_placeholder(), url@),
                ),
                any == (exists|j: int|
                    0 <= j < i && contains_seq(#[trigger] t[j], url_placeholder())),
            decreases template@.len() - i,
        {
            let a = chars_of(template[i].as_str());
            assert(a@ == t[i as int]);
            if contains(&a, &pat) {
                any = true;
            }
            assert(any == (exists|j: int|
                0 <= j < i + 1 && contains_seq(#[trigger] t[j], url_placeholder()))) by {
                if contains_seq(t[i as int], url_placeholder()) {
                    assert(0 <= i < i + 1 && contains_seq(t[i as int], url_placeholder()));
                }
            }
            let replaced = replace_chars(&a, &pat, &url_chars);
            let r = string_of(&replaced);
            assert(r@ == replace_all(t[i as int], url_placeholder(), url@));
            let ghost prev = strs(out);
            out.push(r);
            assert(strs(out) =~= prev.push(r@));
            i = i + 1;
            assert(strs(out) =~= t.take(i as int).map_values(
                |a: Seq<char>| replace_all(a, url_placeholder(), url@),
            ));
        }
        assert(t.take(i as int) =~= t);
        if !any {
            out.push(owned(url));
            assert(strs(out) =~= t.map_values(
                |a: Seq<char>| replace_all(a, url_placeholder(), url@),
            ).push(url@));
        }
        out
    }
}

/// The abstract content of a [`Rule`].
pub ghost struct RuleModel {
    pub name: Seq<char>,
    pub enabled: bool,
    pub host_glob: Option<Seq<char>>,
    pub url_contains: Option<Seq<char>>,
    pub url_regex: Option<Seq<char>>,
    pub scheme: Option<Seq<char>>,
    pub target: Seq<char>,
    pub incognito: bool,
}

#[derive(Debug, Clone, PartialEq)]
pub struct Rule {
    pub name: String,
    pub enabled: bool,
    /// Glob matched against the URL host, e.g. `*.example.com`.
    /// Cookie-style: `*.example.com` also matches `example.com` itself.
    pub host_glob: Option<String>,
    /// Plain text that must occur in the URL (case-insensitive).
    pub url_contains: Option<String>,
    /// Regex matched against the full URL.
    pub url_regex: Option<String>,
    /// Exact scheme match (e.g. `https`, or deep-link schemes like `zoommtg`).
    pub scheme: Option<String>,
    /// Browser id to open with, `block` to swallow the URL, or `resolve` to
    /// follow its redirects and route by the final URL.
    pub target: String,
    /// Open in the browser's incognito/private mode when supported.
    pub incognito: bool,
}

impl View for Rule {
    type V = RuleModel;

    open spec fn view(&self) -> RuleModel {
        RuleModel {
            name: self.name@,
            enabled: self.enabled,
            host_glob: opt_str(self.host_glob),
            url_contains: opt_str(self.url_contains),
            url_regex: opt_str(self.url_regex),
            scheme: opt_str(self.scheme),
            target: self.target@,
            incognito: self.incognito,
        }
    }
}

/// Rules are enabled unless the configuration says otherwise.
pub fn default_true() -> (r: bool)
    ensures
        r,
{
    true
}

/// The keys of a browser table are strictly increasing.
pub open spec fn keys_sorted(s: Seq<(Seq<char>, BrowserModel)>) -> bool {
    forall|i: int, j: int| 0 <= i < j < s.len() ==> str_lt(#[trigger] s[i].0, #[trigger] s[j].0)
}

/// The table has an entry for `k`.
pub open spec fn has_key(s: Seq<(Seq<char>, BrowserModel)>, k: Seq<char>) -> bool {
    exists|i: int| 0 <= i < s.len() && #[trigger] s[i].0 == k
}

/// The browser the table holds for `k` (meaningful when `has_key`).
pub open spec fn value_of(s: Seq<(Seq<char>, BrowserModel)>, k: Seq<char>) -> BrowserModel {
    s[choose|i: int| 0 <= i < s.len() && #[trigger] s[i].0 == k].1
}

/// In a table with sorted keys, the entry at `i` is the one for its key.
pub proof fn lemma_value_of_index(s: Seq<(Seq<char>, BrowserModel)>, i: int)
    requires
        keys_sorted(s),
        0 <= i < s.len(),
    ensures
        has_key(s, s[i].0),
        value_of(s, s[i].0) == s[i].1,
{
    let k = s[i].0;
    assert(0 <= i < s.len() && s[i].0 == k);
    assert(has_key(s, k));
    let j = choose|j: int| 0 <= j < s.len() && #[trigger] s[j].0 == k;
    assert(0 <= j < s.len() && s[j].0 == k);
    lemma_str_lt_irreflexive(k);
    if j < i {
        assert(str_lt(s[j].0, s[i].0));
    } else if i < j {
        assert(str_lt(s[i].0, s[j].0));
    }
    assert(j == i);
}

/// Browser definitions keyed by id, kept in increasing key order (the
/// iteration order of the configuration's `[browsers]` table).
#[derive(Debug, PartialEq)]
pub struct BrowserMap {
    entries: Vec<(String, Browser)>,
}

impl View for BrowserMap {
    type V = Seq<(Seq<char>, BrowserModel)>;

    closed spec fn view(&self) -> Seq<(Seq<char>, BrowserModel)> {
        self.entries@.map_values(|e: (String, Browser)| (e.0@, e.1@))
    }
}

impl BrowserMap {
    #[verifier::type_invariant]
    spec fn inv(self) -> bool {
        keys_sorted(self@)
    }

    /// An empty table.
    pub fn new() -> (r: BrowserMap)
        ensures
            r@ == Seq::<(Seq<char>, BrowserModel)>::empty(),
    {
        let r = BrowserMap { entries: Vec::new() };
        assert(r@ =~= Seq::<(Seq<char>, BrowserModel)>::empty());
        r
    }

    /// Every table keeps its keys strictly increasing.
    pub fn keys_are_sorted(&self)
        ensures
            keys_sorted(self@),
    {
        proof {
            use_type_invariant(self);
        }
    }

    /// The number of browsers.
    pub fn len(&self) -> (r: usize)
        ensures
            r == self@.len(),
    {
        self.entries.len()
    }

    /// Whether the table is empty.
    pub fn is_empty(&self) -> (r: bool)
        ensures
            r == (self@.len() == 0),
    {
        self.entries.len() == 0
    }

    /// The id of the entry at position `i`, in key order.
    pub fn key_at(&self, i: usize) -> (r: &String)
        requires
            i < self@.len(),
        ensures
            r@ == self@[i as int].0,
    {
        &self.entries[i].0
    }

    /// The browser of the entry at position `i`, in key order.
    pub fn value_at(&self, i: usize) -> (r: &Browser)
        requires
            i < self@.len(),
        ensures
            r@ == self@[i as int].1,
    {
        &self.entries[i].1
    }

    /// The position of `key`, if the table has it.
    pub fn position(&self, key: &str) -> (r: Option<usize>)
        ensures
            match r {
                Some(i) => i < self@.len() && self@[i as int].0 == key@,
                None => !has_key(self@, key@),
            },
    {
        let k = chars_of(key);
        let mut i: usize = 0;
        while i < self.entries.len()
            invariant
                k@ == key@,
                i <= self@.len(),
                self@.len() == self.entries@.len(),
                forall|j: int| 0 <= j < i ==> self@[j].0 != key@,
            decreases self@.len() - i,
        {
            let e = chars_of(self.entries[i].0.as_str());
            assert(self@[i as int].0 == self.entries@[i as int].0@);
            if chars_eq(&e, &k) {
                return Some(i);
            }
            i = i + 1;
        }
        None
    }

    /// Whether the table has a browser with id `key`.
    pub fn contains_key(&self, key: &str) -> (r: bool)
        ensures
            r == has_key(self@, key@),
    {
        self.position(key).is_some()
    }

    /// The browser with id `key`.
    pub fn get(&self, key: &str) -> (r: Option<&Browser>)
        ensures
            r is Some == has_key(self@, key@),
            r matches Some(b) ==> b@ == value_of(self@, key@),
    {
        proof {
            use_type_invariant(self);
        }
        match self.position(key) {
            Some(i) => {
                proof {
                    lemma_value_of_index(self@, i as int);
                }
                Some(&self.entries[i].1)
            },
            None => None,
        }
    }

    /// The entry with the least id.
    pub fn first(&self) -> (r: Option<(&String, &Browser)>)
        ensures
            match r {
                Some((k, b)) => self@.len() > 0 && k@ == self@[0].0 && b@ == self@[0].1,
                None => self@.len() == 0,
            },
    {
        if self.entries.len() == 0 {
            None
        } else {
            Some((&self.entries[0].0, &self.entries[0].1))
        }
    }

    /// Adds `browser` under `key`, replacing the browser already there.
    pub fn insert(&mut self, key: String, browser: Browser)
        ensures
            keys_sorted(final(self)@),
            has_key(final(self)@, key@),
            value_of(final(self)@, key@) == browser@,
            forall|k: Seq<char>|
                k != key@ ==> (has_key(final(self)@, k) == has_key(old(self)@, k) && (has_key(
                    old(self)@,
                    k,
                ) ==> value_of(final(self)@, k) == value_of(old(self)@, k))),
    {
        proof {
            use_type_invariant(&*self);
        }
        let ghost old_view = self@;
        let k = chars_of(key.as_str());
        let mut p: usize = 0;
        while p < self.entries.len()
            invariant
                k@ == key@,
                p <= self@.len(),
                self@ == old_view,
                keys_sorted(old_view),
                self@.len() == self.entries@.len(),
                forall|j: int| 0 <= j < p ==> str_lt(#[trigger] old_view[j].0, key@),
            ensures
                p <= self@.len(),
                self@ == old_view,
                self@.len() == self.entries@.len(),
                forall|j: int| 0 <= j < p ==> str_lt(#[trigger] old_view[j].0, key@),
                p < self@.len() ==> !str_lt(old_view[p as int].0, key@),
            decreases self@.len() - p,
        {
            let e = chars_of(self.entries[p].0.as_str());
            assert(old_view[p as int].0 == self.entries@[p as int].0@);
            if !str_less(&e, &k) {
                break;
            }
            p = p + 1;
        }
        let mut entries = Vec::new();
        std::mem::swap(&mut entries, &mut self.entries);
        assert(entries@.map_values(|e: (String, Browser)| (e.0@, e.1@)) == old_view);
        let ghost bv = browser@;
        let same = if p < entries.len() {
            let e = chars_of(entries[p].0.as_str());
            chars_eq(&e, &k)
        } else {
            false
        };
        if same {
            entries.set(p, (key, browser));
            let ghost nv = entries@.map_values(|e: (String, Browser)| (e.0@, e.1@));
            assert(nv =~= old_view.update(p as int, (key@, bv)));
            assert(keys_sorted(nv)) by {
                assert forall|i: int, j: int| 0 <= i < j < nv.len() implies str_lt(
                    #[trigger] nv[i].0,
                    #[trigger] nv[j].0,
                ) by {
                    assert(nv[i].0 == old_view[i].0);
                    assert(nv[j].0 == old_view[j].0);
                }
            }
            proof {
                lemma_value_of_index(nv, p as int);
                assert forall|k2: Seq<char>| k2 != key@ implies (has_key(nv, k2) == has_key(
                    old_view,
                    k2,
                ) && (has_key(old_view, k2) ==> value_of(nv, k2) == value_of(old_view, k2))) by {
                    if has_key(old_view, k2) {
                        let i = choose|i: int| 0 <= i < old_view.len() && #[trigger] old_view[i].0
                            == k2;
                        lemma_value_of_index(old_view, i);
                        lemma_value_of_index(nv, i);
                        assert(nv[i] == old_view[i]);
                    }
                    if has_key(nv, k2) {
                        let i = choose|i: int| 0 <= i < nv.len() && #[trigger] nv[i].0 == k2;
                        assert(old_view[i].0 == k2);
                    }
                }
            }
            self.entries = entries;
        } else {
            entries.insert(p, (key, browser));
            let ghost nv = entries@.map_values(|e: (String, Browser)| (e.0@, e.1@));
            assert(nv =~= old_view.insert(p as int, (key@, bv)));
            proof {
                if p < old_view.len() {
                    assert(old_view[p as int].0 != key@);
                    lemma_str_lt_total(old_view[p as int].0, key@);
                    assert(str_lt(key@, old_view[p as int].0));
                }
                assert forall|i: int, j: int| 0 <= i < j < nv.len() implies str_lt(
                    #[trigger] nv[i].0,
                    #[trigger] nv[j].0,
                ) by {
                    if j < p {
                        assert(nv[i] == old_view[i] && nv[j] == old_view[j]);
                    } else if j == p {
                        assert(nv[i] == old_view[i]);
                    } else if i == p {
                        assert(nv[j] == old_view[j - 1]);
                        if j - 1 > p {
                            assert(str_lt(old_view[p as int].0, old_view[j - 1].0));
                            lemma_str_lt_transitive(key@, old_view[p as int].0, old_view[j - 1].0);
                        }
                    } else if i < p {
                        assert(nv[i] == old_view[i] && nv[j] == old_view[j - 1]);
                    } else {
                        assert(nv[i] == old_view[i - 1] && nv[j] == old_view[j - 1]);
                    }
                }
                lemma_value_of_index(nv, p as int);
                assert forall|k2: Seq<char>| k2 != key@ implies (has_key(nv, k2) == has_key(
                    old_view,
                    k2,
                ) && (has_key(old_view, k2) ==> value_of(nv, k2) == value_of(old_view, k2))) by {
                    if has_key(old_view, k2) {
                        let i = choose|i: int| 0 <= i < old_view.len() && #[trigger] old_view[i].0
                            == k2;
                        lemma_value_of_index(old_view, i);
                        let ni = if i < p {
                            i
                        } else {
                            i + 1
                        };
                        assert(nv[ni] == old_view[i]);
                        lemma_value_of_index(nv, ni);
                    }
                    if has_key(nv, k2) {
                        let i = choose|i: int| 0 <= i < nv.len() && #[trigger] nv[i].0 == k2;
                        if i < p {
                            assert(old_view[i].0 == k2);
                        } else if i > p {
                            assert(old_view[i - 1].0 == k2);
                        }
                    }
                }
            }
            self.entries = entries;
        }
    }

    /// A copy of this table.
    pub fn copy(&self) -> (r: BrowserMap)
        ensures
            r@ == self@,
    {
        proof {
            use_type_invariant(self);
        }
        let mut entries: Vec<(String, Browser)> = Vec::new();
        let mut i: usize = 0;
        while i < self.entries.len()
            invariant
                i <= self@.len(),
                self@.len() == self.entries@.len(),
                keys_sorted(self@),
                entries@.map_values(|e: (String, Browser)| (e.0@, e.1@)) == self@.take(i as int),
            decreases self@.len() - i,
        {
            let k = self.entries[i].0.clone();
            let b = self.entries[i].1.copy();
            assert(k@ == self@[i as int].0 && b@ == self@[i as int].1);
            let ghost prev = entries@.map_values(|e: (String, Browser)| (e.0@, e.1@));
            let ghost kb = (k@, b@);
            entries.push((k, b));
            assert(entries@.map_values(|e: (String, Browser)| (e.0@, e.1@)) =~= prev.push(kb));
            i = i + 1;
            assert(entries@.map_values(|e: (String, Browser)| (e.0@, e.1@)) =~= self@.take(
                i as int,
            ));
        }
        assert(self@.take(i as int) =~= self@);
        BrowserMap { entries }
    }
}

/// The abstract content of a [`Config`].
pub ghost struct ConfigModel {
    pub version: u32,
    pub port: u16,
    pub default_browser: Option<Seq<char>>,
    pub browsers: Seq<(Seq<char>, BrowserModel)>,
    pub rules: Seq<RuleModel>,
    pub redirect_hosts: Seq<Seq<char>>,
}

#[derive(Debug, PartialEq)]
pub struct Config {
    pub version: u32,
    pub portal: PortalConfig,
    pub default_browser: Option<String>,
    /// Browser definitions keyed by id. Rule targets and `default_browser`
    /// reference these ids.
    pub browsers: BrowserMap,
    /// Ordered rules; the first matching rule wins.
    pub rules: Vec<Rule>,
    /// Host patterns of tracker/shortener links whose redirects are
    /// followed before routing.
    pub redirect_hosts: Vec<String>,
}

/// The views of a list of rules.
pub open spec fn rules_view(v: Vec<Rule>) -> Seq<RuleModel> {
    v@.map_values(|r: Rule| r@)
}

impl View for Config {
    type V = ConfigModel;

    open spec fn view(&self) -> ConfigModel {
        ConfigModel {
            version: self.version,
            port: self.portal.port,
            default_browser: opt_str(self.default_browser),
            browsers: self.browsers@,
            rules: rules_view(self.rules),
            redirect_hosts: strs(self.redirect_hosts),
        }
    }
}

impl Default for Config {
    fn default() -> (r: Self)
        ensures
            r.version == CONFIG_VERSION,
            r.portal.port == DEFAULT_PORT,
            r.default_browser is None,
            r.browsers@.len() == 0,
            r.rules@.len() == 0,
            r.redirect_hosts@.len() == 0,
    {
        Config {
            version: CONFIG_VERSION,
            portal: PortalConfig { port: DEFAULT_PORT },
            default_browser: None,
            browsers: BrowserMap::new(),
            rules: Vec::new(),
            redirect_hosts: Vec::new(),
        }
    }
}

/// `{url}` in a launch argument is replaced by the URL: an argument of the
/// template written as `pre{url}post` (with no other `{` in it) is launched
/// as `pre`, the URL, `post`; an argument without `{` is launched as it is;
/// the URL is appended exactly when no argument mentions `{url}`.
pub proof fn lemma_url_substituted(
    b: BrowserModel,
    url: Seq<char>,
    incognito: bool,
    i: int,
    pre: Seq<char>,
    post: Seq<char>,
)
    requires
        0 <= i < template_for(b, incognito).len(),
    ensures
        template_for(b, incognito)[i] == pre + url_placeholder() + post && !pre.contains('{')
            && !post.contains('{') ==> resolved_args_spec(b, url, incognito)[i] == pre + url + post,
        !template_for(b, incognito)[i].contains('{') ==> resolved_args_spec(b, url, incognito)[i]
            == template_for(b, incognito)[i],
        resolved_args_spec(b, url, incognito).len() == template_for(b, incognito).len() + (if mentions_url(
            template_for(b, incognito),
        ) {
            0int
        } else {
            1int
        }),
        !mentions_url(template_for(b, incognito)) ==> resolved_args_spec(b, url, incognito).last()
            == url,
{
    let t = template_for(b, incognito);
    let u = url_placeholder();
    assert(u[0] == '{');
    if t[i] == pre + u + post && !pre.contains('{') && !post.contains('{') {
        lemma_replace_once(pre, post, u, url);
    }
    if !t[i].contains('{') {
        lemma_replace_absent(t[i], u, url);
    }
}

} // verus!
