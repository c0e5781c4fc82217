//! Operating-system integration: default-browser registration, login
//! auto-start, browser discovery and the Start Menu shortcut.
//!
//! On this platform (not Windows) the integration points are inert: they
//! report that the feature is unsupported or absent. The text processing
//! that the Windows integration relies on — handler commands, icon
//! references, PowerShell quoting, the de-duplication of discovered
//! browsers — is platform-independent and lives here too.

use vstd::prelude::*;
use crate::launcher::split_exe;
use crate::outside::push_char;
use crate::text::{
    chars_eq, chars_of, eq_ignore_ascii_case, eq_ignore_case, owned, push_all, push_str,
    replace_all, replace_chars, string_of, trim, trim_chars,
};

verus! {

broadcast use vstd::string::group_string_axioms;

// ---------------------------------------------------------------------------
// Registration (`HKCU` URL handler), auto-start, shortcut: unsupported here
// ---------------------------------------------------------------------------

pub open spec fn registration_unsupported() -> Seq<char> {
    "browser registration is only supported on Windows"@
}

pub open spec fn autostart_unsupported() -> Seq<char> {
    "auto-start is only supported on Windows"@
}

/// Register as a default-browser candidate with `open_command` as the shell
/// open command.
pub fn register(_exe: &str, _open_command: &str) -> (r: Result<(), String>)
    ensures
        r matches Err(e) && e@ == registration_unsupported(),
{
    Err(owned("browser registration is only supported on Windows"))
}

/// Remove the default-browser registration.
pub fn unregister() -> (r: Result<(), String>)
    ensures
        r matches Err(e) && e@ == registration_unsupported(),
{
    Err(owned("browser registration is only supported on Windows"))
}

/// Whether a default-browser registration exists.
pub fn is_registered() -> (r: bool)
    ensures
        !r,
{
    false
}

/// The registered URL-handler command, if any.
pub fn registered_handler() -> (r: Option<String>)
    ensures
        r is None,
{
    None
}

/// Whether the registered handler can still work (trivially so without a
/// registration).
pub fn handler_ok() -> (r: bool)
    ensures
        r,
{
    true
}

/// Point the registered handler at `open_command` after the install moved.
pub fn repair_handler(_open_command: &str) -> (r: Result<(), String>)
    ensures
        r matches Err(e) && e@ == registration_unsupported(),
{
    Err(owned("browser registration is only supported on Windows"))
}

/// Register `command` to run at user login.
pub fn enable(_command: &str) -> (r: Result<(), String>)
    ensures
        r matches Err(e) && e@ == autostart_unsupported(),
{
    Err(owned("auto-start is only supported on Windows"))
}

/// Remove the login auto-start entry.
pub fn disable() -> (r: Result<(), String>)
    ensures
        r matches Err(e) && e@ == autostart_unsupported(),
{
    Err(owned("auto-start is only supported on Windows"))
}

/// Whether login auto-start is enabled.
pub fn is_enabled() -> (r: bool)
    ensures
        !r,
{
    false
}

/// Repair a stale auto-start entry; `true` when a repair happened.
pub fn repair_stale(_current_command: &str) -> (r: Result<bool, String>)
    ensures
        r matches Ok(b) && !b,
{
    Ok(false)
}

/// Ensure a Start Menu shortcut to `target serve` exists.
pub fn ensure_start_menu_shortcut(_target: &str) -> (r: Result<(), String>)
    ensures
        r matches Err(e) && e@ == "Start Menu shortcuts are only supported on Windows"@,
{
    Err(owned("Start Menu shortcuts are only supported on Windows"))
}

// ---------------------------------------------------------------------------
// Discovery
// ---------------------------------------------------------------------------

/// A browser registered with the system.
#[derive(Debug, Clone, PartialEq)]
pub struct DiscoveredBrowser {
    /// Registry key name — stable but often ugly.
    pub name: String,
    /// Friendly name; falls back to the key name.
    pub display_name: String,
    /// Raw `shell\open\command` template.
    pub command: String,
}

/// The abstract content of a [`DiscoveredBrowser`].
pub ghost struct DiscoveredModel {
    pub name: Seq<char>,
    pub display_name: Seq<char>,
    pub command: Seq<char>,
}

impl View for DiscoveredBrowser {
    type V = DiscoveredModel;

    open spec fn view(&self) -> DiscoveredModel {
        DiscoveredModel {
            name: self.name@,
            display_name: self.display_name@,
            command: self.command@,
        }
    }
}

/// The views of a list of discovered browsers.
pub open spec fn discovered_view(v: Vec<DiscoveredBrowser>) -> Seq<DiscoveredModel> {
    v@.map_values(|d: DiscoveredBrowser| d@)
}

/// The browsers registered with the system (none here).
pub fn discover_browsers() -> (r: Vec<DiscoveredBrowser>)
    ensures
        r@.len() == 0,
{
    Vec::new()
}

/// The executable of the system default browser (not resolvable here).
pub fn system_default_exe() -> (r: Option<String>)
    ensures
        r is None,
{
    None
}

/// Whether `s` already holds an entry with the same name and command.
pub open spec fn has_pair(s: Seq<DiscoveredModel>, d: DiscoveredModel) -> bool {
    exists|i: int|
        0 <= i < s.len() && (#[trigger] s[i]).name == d.name && s[i].command == d.command
}

/// Discovered entries kept: never Linkport itself, and only the first of
/// entries with the same name and command (several registry hives can
/// register one browser).
pub open spec fn select_spec(found: Seq<DiscoveredModel>) -> Seq<DiscoveredModel>
    decreases found.len(),
{
    if found.len() == 0 {
        seq![]
    } else {
        let prev = select_spec(found.drop_last());
        let d = found.last();
        if eq_ignore_ascii_case(d.name, "Linkport"@) || has_pair(prev, d) {
            prev
        } else {
            prev.push(d)
        }
    }
}

/// The selected browsers never include Linkport itself, never hold two
/// entries with the same name and command, and are all among the ones
/// found.
pub proof fn lemma_selection_clean(found: Seq<DiscoveredModel>)
    ensures
        forall|i: int|
            0 <= i < select_spec(found).len() ==> !eq_ignore_ascii_case(
                (#[trigger] select_spec(found)[i]).name,
                "Linkport"@,
            ),
        forall|i: int, j: int|
            0 <= i < j < select_spec(found).len() ==> !((#[trigger] select_spec(found)[i]).name
                == (#[trigger] select_spec(found)[j]).name && select_spec(found)[i].command
                == select_spec(found)[j].command),
        forall|i: int|
            0 <= i < select_spec(found).len() ==> found.contains(#[trigger] select_spec(found)[i]),
    decreases found.len(),
{
    if found.len() > 0 {
        let prev = select_spec(found.drop_last());
        let d = found.last();
        lemma_selection_clean(found.drop_last());
        assert forall|i: int| 0 <= i < prev.len() implies found.contains(#[trigger] prev[i]) by {
            let k = choose|k: int| 0 <= k < found.drop_last().len() && found.drop_last()[k] == prev[i];
            assert(found[k] == prev[i]);
        }
        if !(eq_ignore_ascii_case(d.name, "Linkport"@) || has_pair(prev, d)) {
            let r = prev.push(d);
            assert(found[found.len() - 1] == d);
            assert forall|i: int, j: int| 0 <= i < j < r.len() implies !((#[trigger] r[i]).name
                == (#[trigger] r[j]).name && r[i].command == r[j].command) by {
                if j == prev.len() {
                    if r[i].name == d.name && r[i].command == d.command {
                        assert(prev[i] == r[i]);
                        assert(has_pair(prev, d));
                    }
                } else {
                    assert(r[i] == prev[i] && r[j] == prev[j]);
                }
            }
            assert forall|i: int| 0 <= i < r.len() implies found.contains(#[trigger] r[i]) by {
                if i < prev.len() {
                    assert(r[i] == prev[i]);
                }
            }
            assert forall|i: int| 0 <= i < r.len() implies !eq_ignore_ascii_case(
                (#[trigger] r[i]).name,
                "Linkport"@,
            ) by {
                if i < prev.len() {
                    assert(r[i] == prev[i]);
                }
            }
        }
    }
}

/// Drops Linkport itself and repeated (name, command) entries, keeping the
/// first of each.
pub fn select_discovered(found: Vec<DiscoveredBrowser>) -> (r: Vec<DiscoveredBrowser>)
    ensures
        discovered_view(r) == select_spec(discovered_view(found)),
{
    let ghost fv = discovered_view(found);
    let own = chars_of("Linkport");
    let mut out: Vec<DiscoveredBrowser> = Vec::new();
    let mut i: usize = 0;
    while i < found.len()
        invariant
            fv == discovered_view(found),
            own@ == "Linkport"@,
            i <= found@.len(),
            discovered_view(out) == select_spec(fv.take(i as int)),
        decreases found@.len() - i,
    {
        let d = &found[i];
        assert(fv.take(i + 1).drop_last() =~= fv.take(i as int));
        assert(fv.take(i + 1).last() == d@);
        let name = chars_of(d.name.as_str());
        let command = chars_of(d.command.as_str());
        let skip_self = eq_ignore_case(&name, &own);
        let mut seen = false;
        let mut j: usize = 0;
        while j < out.len()
            invariant
                name@ == d@.name,
                command@ == d@.command,
                j <= out@.len(),
                seen == has_pair(discovered_view(out).take(j as int), d@),
            decreases out@.len() - j,
        {
            let on = chars_of(out[j].name.as_str());
            let oc = chars_of(out[j].command.as_str());
            let ghost ov = discovered_view(out);
            assert(ov.take(j + 1) =~= ov.take(j as int).push(ov[j as int]));
            if chars_eq(&on, &name) && chars_eq(&oc, &command) {
                seen = true;
                assert(ov.take(j + 1)[j as int] == ov[j as int]);
            } else {
                assert(has_pair(ov.take(j + 1), d@) == has_pair(ov.take(j as int), d@)) by {
                    if has_pair(ov.take(j + 1), d@) {
                        let k = choose|k: int|
                            0 <= k < ov.take(j + 1).len() && (#[trigger] ov.take(j + 1)[k]).name
                                == d@.name && ov.take(j + 1)[k].command == d@.command;
                        assert(k != j);
                        assert(ov.take(j as int)[k] == ov.take(j + 1)[k]);
                    }
                    if has_pair(ov.take(j as int), d@) {
                        let k = choose|k: int|
                            0 <= k < ov.take(j as int).len() && (#[trigger] ov.take(
                                j as int,
                            )[k]).name == d@.name && ov.take(j as int)[k].command == d@.command;
                        assert(ov.take(j + 1)[k] == ov.take(j as int)[k]);
                    }
                }
            }
            j = j + 1;
        }
        assert(discovered_view(out).take(j as int) =~= discovered_view(out));
        if !skip_self && !seen {
            let ghost prev = discovered_view(out);
            let c = DiscoveredBrowser {
                name: d.name.clone(),
                display_name: d.display_name.clone(),
                command: d.command.clone(),
            };
            assert(c@ == d@);
            out.push(c);
            assert(discovered_view(out) =~= prev.push(d@));
        }
        i = i + 1;
    }
    assert(fv.take(i as int) =~= fv);
    out
}

/// The friendly name of a discovered browser: the key's trimmed default
/// value when non-empty, else the key name.
pub fn display_name_for(name: &str, default_value: Option<&str>) -> (r: String)
    ensures
        r@ == (match default_value {
            Some(v) => if trim(v@).len() > 0 {
                trim(v@)
            } else {
                name@
            },
            None => name@,
        }),
{
    match default_value {
        Some(v) => {
            let vc = chars_of(v);
            let t = trim_chars(&vc);
            if t.len() > 0 {
                string_of(&t)
            } else {
                owned(name)
            }
        },
        None => owned(name),
    }
}

// ---------------------------------------------------------------------------
// Commands and quoting
// ---------------------------------------------------------------------------

/// `<handler exe>,0`: the icon reference derived from a shell open command.
pub fn icon_source(open_command: &str) -> (r: String)
    ensures
        r@ == split_exe(trim(open_command@)).0 + ",0"@,
{
    let exe = crate::launcher::command_exe(open_command);
    let mut v = chars_of(exe.as_str());
    push_str(&mut v, ",0");
    string_of(&v)
}

/// A value quoted as a single-quoted PowerShell string literal.
pub fn ps_str(s: &str) -> (r: String)
    ensures
        r@ == "'"@ + replace_all(s@, "'"@, "''"@) + "'"@,
{
    let sc = chars_of(s);
    let q = chars_of("'");
    let qq = chars_of("''");
    proof {
        reveal_strlit("'");
    }
    let body = replace_chars(&sc, &q, &qq);
    let mut v = chars_of("'");
    push_all(&mut v, &body);
    push_str(&mut v, "'");
    string_of(&v)
}

pub open spec fn ps_str_spec(s: Seq<char>) -> Seq<char> {
    "'"@ + replace_all(s, "'"@, "''"@) + "'"@
}

/// The PowerShell script that creates the Start Menu shortcut `lnk`
/// starting `target serve` in `workdir`.
pub open spec fn shortcut_script_spec(lnk: Seq<char>, target: Seq<char>, workdir: Seq<char>) -> Seq<
    char,
> {
    "$s = New-Object -ComObject WScript.Shell; $l = $s.CreateShortcut("@ + ps_str_spec(lnk)
        + "); $l.TargetPath = "@ + ps_str_spec(target) + "; $l.Arguments = 'serve'; $l.WorkingDirectory = "@
        + ps_str_spec(workdir)
        + "; $l.Description = 'Linkport portal daemon'; $l.Save()"@
}

/// The PowerShell script that creates the Start Menu shortcut `lnk`
/// starting `target serve` in `workdir`, every path quoted.
pub fn shortcut_script(lnk: &str, target: &str, workdir: &str) -> (r: String)
    ensures
        r@ == shortcut_script_spec(lnk@, target@, workdir@),
{
    let mut v = chars_of("$s = New-Object -ComObject WScript.Shell; $l = $s.CreateShortcut(");
    let a = ps_str(lnk);
    push_str(&mut v, a.as_str());
    push_str(&mut v, "); $l.TargetPath = ");
    let b = ps_str(target);
    push_str(&mut v, b.as_str());
    push_str(&mut v, "; $l.Arguments = 'serve'; $l.WorkingDirectory = ");
    let c = ps_str(workdir);
    push_str(&mut v, c.as_str());
    push_str(&mut v, "; $l.Description = 'Linkport portal daemon'; $l.Save()");
    string_of(&v)
}

/// The shell open command registered for links: the windowless main
/// binary when available, else the running executable's `open`
/// subcommand, else nothing.
pub fn default_handler_command(main_binary: Option<&str>, current_exe: Option<&str>) -> (r:
    String)
    ensures
        r@ == (match main_binary {
            Some(m) => "\""@ + m@ + "\" \"%1\""@,
            None => match current_exe {
                Some(e) => "\""@ + e@ + "\" open \"%1\""@,
                None => Seq::<char>::empty(),
            },
        }),
{
    match main_binary {
        Some(m) => {
            let mut v = chars_of("\"");
            push_str(&mut v, m);
            push_str(&mut v, "\" \"%1\"");
            string_of(&v)
        },
        None => match current_exe {
            Some(e) => {
                let mut v = chars_of("\"");
                push_str(&mut v, e);
                push_str(&mut v, "\" open \"%1\"");
                string_of(&v)
            },
            None => String::new(),
        },
    }
}

/// The login auto-start command: the main binary (else the running
/// executable) with `serve`.
pub fn autostart_command(main_binary: Option<&str>, current_exe: Option<&str>) -> (r: String)
    ensures
        r@ == (match main_binary {
            Some(m) => "\""@ + m@ + "\" serve"@,
            None => match current_exe {
                Some(e) => "\""@ + e@ + "\" serve"@,
                None => Seq::<char>::empty(),
            },
        }),
{
    let exe = match main_binary {
        Some(m) => Some(m),
        None => current_exe,
    };
    match exe {
        Some(x) => {
            let mut v = chars_of("\"");
            push_str(&mut v, x);
            push_str(&mut v, "\" serve");
            string_of(&v)
        },
        None => String::new(),
    }
}

} // verus!
