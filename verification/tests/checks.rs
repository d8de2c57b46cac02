use omarchy_circle_search::checks::{
    check_base_deps, check_command, check_copy_deps, check_search_deps,
    check_visual_search_deps, completion_notice, deps_after_selection, deps_before_selection,
    Requirement,
};
use omarchy_circle_search::engine::Engine;

fn view(v: &[Requirement]) -> Vec<(String, String)> {
    v.iter().map(|r| (r.command.clone(), r.purpose.clone())).collect()
}

fn pairs(v: &[(&str, &str)]) -> Vec<(String, String)> {
    v.iter().map(|(a, b)| (a.to_string(), b.to_string())).collect()
}

#[test]
fn dependency_lists() {
    assert_eq!(view(&check_base_deps()), pairs(&[("grim", "screenshot capture")]));
    assert_eq!(view(&check_copy_deps()), pairs(&[("wl-copy", "clipboard")]));
    assert_eq!(
        view(&check_search_deps()),
        pairs(&[("python3", "search helpers"), ("xdg-open", "opening search results")])
    );
    assert_eq!(view(&check_visual_search_deps()), pairs(&[("curl", "image upload")]));
}

#[test]
fn missing_command_message() {
    assert_eq!(check_command("grim", "screenshot capture", true), Ok(()));
    assert_eq!(
        check_command("grim", "screenshot capture", false),
        Err("grim not found (needed for screenshot capture)".to_string())
    );
}

#[test]
fn dependencies_per_mode() {
    assert_eq!(view(&deps_before_selection(false)), pairs(&[("grim", "screenshot capture")]));
    assert_eq!(
        view(&deps_before_selection(true)),
        pairs(&[("grim", "screenshot capture"), ("wl-copy", "clipboard")])
    );
    assert!(deps_after_selection(true, Engine::Lens).is_empty());
    assert_eq!(
        view(&deps_after_selection(false, Engine::AiChat)),
        pairs(&[("python3", "search helpers"), ("xdg-open", "opening search results")])
    );
    assert_eq!(
        view(&deps_after_selection(false, Engine::TinEye)),
        pairs(&[
            ("python3", "search helpers"),
            ("xdg-open", "opening search results"),
            ("curl", "image upload"),
        ])
    );
}

#[test]
fn completion_notices() {
    assert_eq!(completion_notice(true, true, Engine::Lens), Some("Screenshot copied to clipboard".to_string()));
    assert_eq!(completion_notice(true, false, Engine::Lens), None);
    assert_eq!(completion_notice(false, true, Engine::Lens), Some("Searching…".to_string()));
    assert_eq!(completion_notice(false, false, Engine::AiChat), None);
}
