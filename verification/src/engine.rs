//! Search engines: which ones the menu shows, which one is selected, and
//! the keyboard shortcuts that pick one.
use vstd::prelude::*;
use vstd::string::StringExecFns;
use crate::config::strings_view;

verus! {

/// A destination for the captured region.
#[derive(Clone, Copy, PartialEq, Eq, Structural, Debug)]
pub enum Engine {
    Lens,
    Yandex,
    Bing,
    AiChat,
    TinEye,
    SauceNao,
}

impl Default for Engine {
    fn default() -> (e: Engine)
        ensures
            e == Engine::Lens,
    {
        Engine::Lens
    }
}

/// All engines, in the order of the menu.
pub open spec fn all_engines() -> Seq<Engine> {
    seq![
        Engine::Lens,
        Engine::Yandex,
        Engine::Bing,
        Engine::AiChat,
        Engine::TinEye,
        Engine::SauceNao,
    ]
}

/// The engine that a configuration name stands for.
pub open spec fn engine_named(name: Seq<char>) -> Option<Engine> {
    if name == "lens"@ {
        Some(Engine::Lens)
    } else if name == "yandex"@ {
        Some(Engine::Yandex)
    } else if name == "bing"@ {
        Some(Engine::Bing)
    } else if name == "ai_chat"@ {
        Some(Engine::AiChat)
    } else if name == "tineye"@ {
        Some(Engine::TinEye)
    } else if name == "saucenao"@ {
        Some(Engine::SauceNao)
    } else {
        None
    }
}

/// The engines that the names stand for, in the order given; unknown
/// names are skipped.
pub open spec fn known_engines(names: Seq<Seq<char>>) -> Seq<Engine>
    decreases names.len(),
{
    if names.len() == 0 {
        Seq::empty()
    } else {
        let rest = known_engines(names.drop_last());
        match engine_named(names.last()) {
            Some(e) => rest.push(e),
            None => rest,
        }
    }
}

/// The engines of the menu for a list of enabled names: the known ones in
/// the order given, or all engines when none is known.
pub open spec fn resolved_engines(names: Seq<Seq<char>>) -> Seq<Engine> {
    if known_engines(names).len() == 0 {
        all_engines()
    } else {
        known_engines(names)
    }
}

/// The engine selected when the menu opens: the first one, or `Lens`.
pub open spec fn first_engine(engines: Seq<Engine>) -> Engine {
    if engines.len() > 0 {
        engines[0]
    } else {
        Engine::Lens
    }
}

/// All engines, in menu order.
pub fn all_engine_list() -> (v: Vec<Engine>)
    ensures
        v@ == all_engines(),
{
    let v = vec![
        Engine::Lens,
        Engine::Yandex,
        Engine::Bing,
        Engine::AiChat,
        Engine::TinEye,
        Engine::SauceNao,
    ];
    assert(v@ =~= all_engines());
    v
}

/// The engine that a configuration name stands for.
pub fn engine_by_name(name: &String) -> (e: Option<Engine>)
    ensures
        e == engine_named(name@),
{
    if *name == String::from_str("lens") {
        Some(Engine::Lens)
    } else if *name == String::from_str("yandex") {
        Some(Engine::Yandex)
    } else if *name == String::from_str("bing") {
        Some(Engine::Bing)
    } else if *name == String::from_str("ai_chat") {
        Some(Engine::AiChat)
    } else if *name == String::from_str("tineye") {
        Some(Engine::TinEye)
    } else if *name == String::from_str("saucenao") {
        Some(Engine::SauceNao)
    } else {
        None
    }
}

/// The engines of the menu for the enabled names of the configuration:
/// the known names in their order, or every engine if none is known.
pub fn resolve_engines(enabled: &[String]) -> (v: Vec<Engine>)
    ensures
        v@ == resolved_engines(strings_view(enabled@)),
{
    let ghost names = strings_view(enabled@);
    let mut list: Vec<Engine> = Vec::new();
    let mut i: usize = 0;
    assert(names.take(0) =~= Seq::<Seq<char>>::empty());
    while i < enabled.len()
        invariant
            names == strings_view(enabled@),
            i <= enabled@.len(),
            list@ == known_engines(names.take(i as int)),
        decreases enabled@.len() - i,
    {
        assert(names.take(i + 1).drop_last() =~= names.take(i as int));
        assert(names.take(i + 1).last() == enabled@[i as int]@);
        match engine_by_name(&enabled[i]) {
            Some(e) => list.push(e),
            None => {},
        }
        i = i + 1;
    }
    assert(names.take(enabled@.len() as int) =~= names);
    if list.len() == 0 {
        all_engine_list()
    } else {
        list
    }
}

/// The engine selected when the menu opens.
pub fn selected_engine(engines: &[Engine]) -> (e: Engine)
    ensures
        e == first_engine(engines@),
{
    if engines.len() > 0 {
        engines[0]
    } else {
        Engine::default()
    }
}

/// Key value (GDK keysym) of the `l` key.
pub const KEY_L: u32 = 0x006c;

/// Key value (GDK keysym) of the `y` key.
pub const KEY_Y: u32 = 0x0079;

/// Key value (GDK keysym) of the `b` key.
pub const KEY_B: u32 = 0x0062;

/// Key value (GDK keysym) of the `c` key.
pub const KEY_C: u32 = 0x0063;

/// Key value (GDK keysym) of the `t` key.
pub const KEY_T: u32 = 0x0074;

/// Key value (GDK keysym) of the `s` key.
pub const KEY_S: u32 = 0x0073;

/// The engine that a key stands for, if any.
pub open spec fn key_engine(keyval: u32) -> Option<Engine> {
    if keyval == KEY_L {
        Some(Engine::Lens)
    } else if keyval == KEY_Y {
        Some(Engine::Yandex)
    } else if keyval == KEY_B {
        Some(Engine::Bing)
    } else if keyval == KEY_C {
        Some(Engine::AiChat)
    } else if keyval == KEY_T {
        Some(Engine::TinEye)
    } else if keyval == KEY_S {
        Some(Engine::SauceNao)
    } else {
        None
    }
}

/// The engine that a key press selects: the key's engine, provided the menu
/// shows it.
pub open spec fn shortcut_result(keyval: u32, engines: Seq<Engine>) -> Option<Engine> {
    match key_engine(keyval) {
        Some(e) => if engines.contains(e) {
            Some(e)
        } else {
            None
        },
        None => None,
    }
}

/// The engine that a key press selects, if any: `l`, `y`, `b`, `c`, `t`
/// and `s` stand for Lens, Yandex, Bing, AI chat, TinEye and SauceNao, and
/// count only for engines that the menu shows.
pub fn shortcut_engine(keyval: u32, engines: &[Engine]) -> (r: Option<Engine>)
    ensures
        r == shortcut_result(keyval, engines@),
{
    let engine = if keyval == KEY_L {
        Engine::Lens
    } else if keyval == KEY_Y {
        Engine::Yandex
    } else if keyval == KEY_B {
        Engine::Bing
    } else if keyval == KEY_C {
        Engine::AiChat
    } else if keyval == KEY_T {
        Engine::TinEye
    } else if keyval == KEY_S {
        Engine::SauceNao
    } else {
        return None;
    };
    let mut i: usize = 0;
    while i < engines.len()
        invariant
            i <= engines@.len(),
            key_engine(keyval) == Some(engine),
            forall|k: int| 0 <= k < i ==> engines@[k] != engine,
        decreases engines@.len() - i,
    {
        if engines[i] == engine {
            assert(engines@.contains(engine));
            return Some(engine);
        }
        i = i + 1;
    }
    assert(!engines@.contains(engine));
    None
}

} // verus!

verus! {

/// The menu never comes out empty, whatever the configuration lists.
pub proof fn lemma_menu_never_empty(names: Seq<Seq<char>>)
    ensures
        resolved_engines(names).len() > 0,
{
}

/// The engine selected when the menu opens is one of the engines that the
/// menu shows.
pub proof fn lemma_selected_is_shown(names: Seq<Seq<char>>)
    ensures
        resolved_engines(names).contains(first_engine(resolved_engines(names))),
{
    assert(resolved_engines(names)[0] == first_engine(resolved_engines(names)));
}

/// A key press never selects an engine that the menu hides.
pub proof fn lemma_shortcut_only_shown(keyval: u32, engines: Seq<Engine>)
    ensures
        shortcut_result(keyval, engines) matches Some(e) ==> engines.contains(e),
{
}

/// The default configuration shows every engine, in menu order.
pub proof fn lemma_default_menu()
    ensures
        resolved_engines(crate::config::default_engine_names()) == all_engines(),
{
    reveal_strlit("lens");
    reveal_strlit("yandex");
    reveal_strlit("bing");
    reveal_strlit("ai_chat");
    reveal_strlit("tineye");
    reveal_strlit("saucenao");
    let names = crate::config::default_engine_names();
    assert("lens"@.len() == 4 && "yandex"@.len() == 6 && "bing"@.len() == 4);
    assert("ai_chat"@.len() == 7 && "tineye"@.len() == 6 && "saucenao"@.len() == 8);
    assert("bing"@[0] != "lens"@[0]);
    assert("tineye"@[0] != "yandex"@[0]);
    assert(engine_named(names[0]) == Some(Engine::Lens));
    assert(engine_named(names[1]) == Some(Engine::Yandex));
    assert(engine_named(names[2]) == Some(Engine::Bing));
    assert(engine_named(names[3]) == Some(Engine::AiChat));
    assert(engine_named(names[4]) == Some(Engine::TinEye));
    assert(engine_named(names[5]) == Some(Engine::SauceNao));
    assert(names.take(1).drop_last() =~= names.take(0));
    assert(names.take(1).last() == names[0]);
    assert(names.take(2).drop_last() =~= names.take(1));
    assert(names.take(2).last() == names[1]);
    assert(names.take(3).drop_last() =~= names.take(2));
    assert(names.take(3).last() == names[2]);
    assert(names.take(4).drop_last() =~= names.take(3));
    assert(names.take(4).last() == names[3]);
    assert(names.take(5).drop_last() =~= names.take(4));
    assert(names.take(5).last() == names[4]);
    assert(names.take(6).drop_last() =~= names.take(5));
    assert(names.take(6).last() == names[5]);
    assert(names.take(0) =~= Seq::<Seq<char>>::empty());
    assert(known_engines(names.take(0)) == Seq::<Engine>::empty());
    assert(known_engines(names.take(1)) == known_engines(names.take(0)).push(Engine::Lens));
    assert(known_engines(names.take(1)) =~= all_engines().take(1));
    assert(known_engines(names.take(2)) =~= all_engines().take(2));
    assert(known_engines(names.take(3)) =~= all_engines().take(3));
    assert(known_engines(names.take(4)) =~= all_engines().take(4));
    assert(known_engines(names.take(5)) =~= all_engines().take(5));
    assert(known_engines(names.take(6)) =~= all_engines().take(6));
    assert(names.take(6) =~= names);
    assert(all_engines().take(6) =~= all_engines());
}

} // verus!

verus! {

/// Name for what `str::to_lowercase` returns on a string: its Unicode
/// lowercase mapping, a function of the string alone.
pub uninterp spec fn lowercase(s: Seq<char>) -> Seq<char>;

/// The ASCII lowercase of a character: `A`..`Z` become `a`..`z`, every
/// other character stays.
pub open spec fn ascii_lower(c: char) -> char {
    if 'A' <= c && c <= 'Z' {
        ((c as u32) + 32) as char
    } else {
        c
    }
}

/// Whether every character of `s` is ASCII.
pub open spec fn all_ascii(s: Seq<char>) -> bool {
    forall|i: int| 0 <= i < s.len() ==> (#[trigger] s[i] as u32) < 0x80
}

/// Lowercases a string.
///
/// Calls `str::to_lowercase`. The contract says that the result is the
/// lowercase mapping of the argument, named `lowercase`, and, for an ASCII
/// argument, that this mapping turns `A`..`Z` into `a`..`z` one for one and
/// keeps every other character (Unicode's lowercase mapping of ASCII). What
/// the mapping does to other characters is left unstated.
#[verifier::external_body]
fn to_lowercase(s: &str) -> (r: String)
    ensures
        r@ == lowercase(s@),
        all_ascii(s@) ==> r@.len() == s@.len() && forall|i: int|
            0 <= i < s@.len() ==> #[trigger] r@[i] == ascii_lower(s@[i]),
{
    s.to_lowercase()
}

/// The first `n` characters of `s` (all of them when `s` is shorter).
pub open spec fn prefix(s: Seq<char>, n: nat) -> Seq<char> {
    if s.len() <= n {
        s
    } else {
        s.take(n as int)
    }
}

/// The label of the AI chat pill: the first four characters of the chat's
/// name, lowercased.
pub fn ai_pill_label(name: &str) -> (r: String)
    ensures
        r@ == lowercase(prefix(name@, 4)),
        all_ascii(prefix(name@, 4)) ==> r@ == prefix(name@, 4).map_values(
            |c: char| ascii_lower(c),
        ),
{
    let v = crate::text::chars_of(name);
    let n = if v.len() < 4 {
        v.len()
    } else {
        4
    };
    let head = crate::text::string_of_range(&v, 0, n);
    assert(head@ =~= prefix(name@, 4));
    let r = to_lowercase(head.as_str());
    assert(all_ascii(prefix(name@, 4)) ==> r@ =~= prefix(name@, 4).map_values(
        |c: char| ascii_lower(c),
    ));
    r
}

/// The text on an engine's pill.
pub open spec fn pill_text(e: Engine, ai_label: Seq<char>) -> Seq<char> {
    match e {
        Engine::Lens => "lens"@,
        Engine::Yandex => "yandex"@,
        Engine::Bing => "bing"@,
        Engine::AiChat => ai_label,
        Engine::TinEye => "tineye"@,
        Engine::SauceNao => "sauce"@,
    }
}

/// The text on an engine's pill; the AI chat pill shows `ai_label`.
pub fn pill_label(e: Engine, ai_label: &str) -> (s: String)
    ensures
        s@ == pill_text(e, ai_label@),
{
    match e {
        Engine::Lens => String::from_str("lens"),
        Engine::Yandex => String::from_str("yandex"),
        Engine::Bing => String::from_str("bing"),
        Engine::AiChat => String::from_str(ai_label),
        Engine::TinEye => String::from_str("tineye"),
        Engine::SauceNao => String::from_str("sauce"),
    }
}

/// How a pill is drawn.
#[derive(Clone, Copy, PartialEq, Eq, Structural, Debug)]
pub enum PillStyle {
    /// The selected engine: accent fill.
    Active,
    /// Under the pointer but not selected: faint foreground fill.
    Hovered,
    /// Neither: background fill.
    Idle,
}

/// How the pill of `e` is drawn: the selected engine's pill is active,
/// else the hovered one's is hovered, else idle.
pub open spec fn pill_style_of(e: Engine, selected: Engine, hovered: Option<Engine>) -> PillStyle {
    if e == selected {
        PillStyle::Active
    } else if hovered == Some(e) {
        PillStyle::Hovered
    } else {
        PillStyle::Idle
    }
}

/// How the pill of `e` is drawn, given the selected and hovered engines.
pub fn pill_style(e: Engine, selected: Engine, hovered: Option<Engine>) -> (s: PillStyle)
    ensures
        s == pill_style_of(e, selected, hovered),
{
    if e == selected {
        PillStyle::Active
    } else {
        match hovered {
            Some(h) => if h == e {
                PillStyle::Hovered
            } else {
                PillStyle::Idle
            },
            None => PillStyle::Idle,
        }
    }
}

} // verus!

verus! {

/// The selected engine's pill is always drawn active, wherever the pointer
/// is; any other pill is drawn hovered exactly when the pointer is over
/// it, and idle otherwise.
pub proof fn lemma_pill_style_law(e: Engine, selected: Engine, hovered: Option<Engine>)
    ensures
        pill_style_of(selected, selected, hovered) == PillStyle::Active,
        e != selected ==> (pill_style_of(e, selected, hovered) == PillStyle::Hovered <==> hovered
            == Some(e)),
        e != selected ==> (pill_style_of(e, selected, hovered) == PillStyle::Idle <==> hovered
            != Some(e)),
        pill_style_of(e, selected, hovered) == PillStyle::Active <==> e == selected,
{
}

} // verus!
