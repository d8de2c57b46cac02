//! The external commands a run needs, and what it reports when it is done.
use vstd::prelude::*;
use vstd::string::StringExecFns;
use crate::engine::Engine;

verus! {

/// An external command that must be installed, and what it is needed for.
pub struct Requirement {
    pub command: String,
    pub purpose: String,
}

/// The character sequences of a list of requirements.
pub open spec fn reqs_view(v: Seq<Requirement>) -> Seq<(Seq<char>, Seq<char>)> {
    v.map_values(|r: Requirement| (r.command@, r.purpose@))
}

fn requirement(command: &str, purpose: &str) -> (r: Requirement)
    ensures
        r.command@ == command@,
        r.purpose@ == purpose@,
{
    Requirement { command: String::from_str(command), purpose: String::from_str(purpose) }
}

pub open spec fn base_deps() -> Seq<(Seq<char>, Seq<char>)> {
    seq![("grim"@, "screenshot capture"@)]
}

pub open spec fn copy_deps() -> Seq<(Seq<char>, Seq<char>)> {
    seq![("wl-copy"@, "clipboard"@)]
}

pub open spec fn search_deps() -> Seq<(Seq<char>, Seq<char>)> {
    seq![("python3"@, "search helpers"@), ("xdg-open"@, "opening search results"@)]
}

pub open spec fn visual_search_deps() -> Seq<(Seq<char>, Seq<char>)> {
    seq![("curl"@, "image upload"@)]
}

/// The command every run needs: `grim`.
pub fn check_base_deps() -> (v: Vec<Requirement>)
    ensures
        reqs_view(v@) == base_deps(),
{
    let v = vec![requirement("grim", "screenshot capture")];
    assert(reqs_view(v@) =~= base_deps());
    v
}

/// The command copying needs: `wl-copy`.
pub fn check_copy_deps() -> (v: Vec<Requirement>)
    ensures
        reqs_view(v@) == copy_deps(),
{
    let v = vec![requirement("wl-copy", "clipboard")];
    assert(reqs_view(v@) =~= copy_deps());
    v
}

/// The commands every search needs, in the order they are checked:
/// `python3`, then `xdg-open`.
pub fn check_search_deps() -> (v: Vec<Requirement>)
    ensures
        reqs_view(v@) == search_deps(),
{
    let v = vec![
        requirement("python3", "search helpers"),
        requirement("xdg-open", "opening search results"),
    ];
    assert(reqs_view(v@) =~= search_deps());
    v
}

/// The command a visual search (an upload) needs: `curl`.
pub fn check_visual_search_deps() -> (v: Vec<Requirement>)
    ensures
        reqs_view(v@) == visual_search_deps(),
{
    let v = vec![requirement("curl", "image upload")];
    assert(reqs_view(v@) =~= visual_search_deps());
    v
}

/// The message when a command is missing.
pub open spec fn missing_text(command: Seq<char>, purpose: Seq<char>) -> Seq<char> {
    command + " not found (needed for "@ + purpose + ")"@
}

/// The outcome of looking for `command`: nothing when it was `found`, else
/// the message `"<command> not found (needed for <purpose>)"`.
pub fn check_command(command: &str, purpose: &str, found: bool) -> (r: Result<(), String>)
    ensures
        found ==> r is Ok,
        !found ==> (r matches Err(m) && m@ == missing_text(command@, purpose@)),
{
    if found {
        Ok(())
    } else {
        let mut m = String::from_str(command);
        m.append(" not found (needed for ");
        m.append(purpose);
        m.append(")");
        Err(m)
    }
}

/// The commands checked before the selector opens: the base ones, and the
/// copy ones when copying.
pub open spec fn deps_before(copy: bool) -> Seq<(Seq<char>, Seq<char>)> {
    if copy {
        base_deps() + copy_deps()
    } else {
        base_deps()
    }
}

/// The commands checked once the engine is chosen: none when copying,
/// else the search ones, and the upload one unless the engine is the AI
/// chat.
pub open spec fn deps_after(copy: bool, engine: Engine) -> Seq<(Seq<char>, Seq<char>)> {
    if copy {
        Seq::empty()
    } else if engine == Engine::AiChat {
        search_deps()
    } else {
        search_deps() + visual_search_deps()
    }
}

fn append_reqs(v: &mut Vec<Requirement>, w: Vec<Requirement>)
    ensures
        reqs_view(final(v)@) == reqs_view(old(v)@) + reqs_view(w@),
{
    let mut w = w;
    let ghost w0 = w@;
    v.append(&mut w);
    assert(reqs_view(final(v)@) =~= reqs_view(old(v)@) + reqs_view(w0));
}

/// The commands to check before the selector opens.
pub fn deps_before_selection(copy: bool) -> (v: Vec<Requirement>)
    ensures
        reqs_view(v@) == deps_before(copy),
{
    let mut v = check_base_deps();
    if copy {
        append_reqs(&mut v, check_copy_deps());
    }
    v
}

/// The commands to check once the engine is chosen.
pub fn deps_after_selection(copy: bool, engine: Engine) -> (v: Vec<Requirement>)
    ensures
        reqs_view(v@) == deps_after(copy, engine),
{
    if copy {
        let v: Vec<Requirement> = Vec::new();
        assert(reqs_view(v@) =~= Seq::<(Seq<char>, Seq<char>)>::empty());
        v
    } else {
        let mut v = check_search_deps();
        if engine != Engine::AiChat {
            append_reqs(&mut v, check_visual_search_deps());
        }
        v
    }
}

/// The notification sent when a run is done: after copying, only when
/// asked for; after a search, unless it went to the AI chat (whose helper
/// reports itself).
pub open spec fn completion_text(copy: bool, notify: bool, engine: Engine) -> Option<Seq<char>> {
    if copy {
        if notify {
            Some("Screenshot copied to clipboard"@)
        } else {
            None
        }
    } else if engine != Engine::AiChat {
        Some("Searching…"@)
    } else {
        None
    }
}

/// The notification to send when a run is done, if any.
pub fn completion_notice(copy: bool, notify: bool, engine: Engine) -> (m: Option<String>)
    ensures
        match m {
            Some(s) => completion_text(copy, notify, engine) == Some(s@),
            None => completion_text(copy, notify, engine) is None,
        },
{
    if copy {
        if notify {
            Some(String::from_str("Screenshot copied to clipboard"))
        } else {
            None
        }
    } else if engine != Engine::AiChat {
        Some(String::from_str("Searching…"))
    } else {
        None
    }
}

} // verus!

verus! {

/// A search run reports "Searching…" for every engine but the AI chat,
/// whether or not notifications were asked for; the AI chat run reports
/// nothing here (its helper reports itself); a copy run reports
/// "Screenshot copied to clipboard" exactly when asked to.
pub proof fn lemma_completion_notice_law(notify: bool, engine: Engine)
    ensures
        engine != Engine::AiChat ==> completion_text(false, notify, engine) == Some(
            "Searching…"@,
        ),
        completion_text(false, true, engine) == completion_text(false, false, engine),
        engine == Engine::AiChat ==> completion_text(false, notify, engine) is None,
        completion_text(true, notify, engine) is Some <==> notify,
        notify ==> completion_text(true, notify, engine) == Some("Screenshot copied to clipboard"@),
        completion_text(true, notify, engine) == completion_text(true, notify, Engine::Lens),
{
}

} // verus!

verus! {

/// Whether a list of requirements asks for `command`.
pub open spec fn requires_command(reqs: Seq<(Seq<char>, Seq<char>)>, command: Seq<char>) -> bool {
    exists|i: int| 0 <= i < reqs.len() && reqs[i].0 == command
}

/// Which commands a run checks: `grim` always, before the selector; `wl-copy`
/// exactly when copying; when searching, `python3` and `xdg-open`, and `curl`
/// (for the upload) exactly when the engine is not the AI chat; nothing
/// after the selection when copying.
pub proof fn lemma_checked_commands(copy: bool, engine: Engine)
    ensures
        deps_before(copy)[0] == ("grim"@, "screenshot capture"@),
        requires_command(deps_before(copy), "wl-copy"@) <==> copy,
        copy ==> deps_after(copy, engine).len() == 0,
        !copy ==> requires_command(deps_after(copy, engine), "python3"@) && requires_command(
            deps_after(copy, engine),
            "xdg-open"@,
        ),
        requires_command(deps_after(copy, engine), "curl"@) <==> (!copy && engine
            != Engine::AiChat),
{
    reveal_strlit("grim");
    reveal_strlit("wl-copy");
    reveal_strlit("python3");
    reveal_strlit("xdg-open");
    reveal_strlit("curl");
    let b = deps_before(copy);
    if copy {
        assert(b[1].0 == "wl-copy"@);
    } else {
        assert(b.len() == 1 && b[0].0 == "grim"@);
    }
    let a = deps_after(copy, engine);
    if !copy {
        assert(a[0].0 == "python3"@ && a[1].0 == "xdg-open"@);
        if engine != Engine::AiChat {
            assert(a[2].0 == "curl"@);
        } else {
            assert(a.len() == 2);
        }
    }
}

} // verus!
