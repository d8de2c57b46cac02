use omarchy_circle_search::engine::{
    ai_pill_label, pill_label, pill_style, resolve_engines, selected_engine, shortcut_engine,
    Engine, PillStyle, KEY_B, KEY_C, KEY_L, KEY_S, KEY_T, KEY_Y,
};
use omarchy_circle_search::config::default_engines;

#[test]
fn resolves_enabled_engines_in_config_order() {
    let enabled = vec![
        "saucenao".to_string(),
        "bing".to_string(),
        "lens".to_string(),
    ];
    assert_eq!(
        resolve_engines(&enabled),
        vec![Engine::SauceNao, Engine::Bing, Engine::Lens]
    );
}

#[test]
fn defaults_to_first_enabled_engine() {
    let engines = vec![Engine::TinEye, Engine::AiChat];
    assert_eq!(selected_engine(&engines), Engine::TinEye);
}

#[test]
fn ignores_shortcuts_for_hidden_engines() {
    let engines = vec![Engine::AiChat, Engine::TinEye];
    assert_eq!(shortcut_engine(KEY_C, &engines), Some(Engine::AiChat));
    assert_eq!(shortcut_engine(KEY_L, &engines), None);
}

#[test]
fn unknown_names_are_skipped() {
    let enabled = vec!["google".to_string(), "tineye".to_string(), "Lens".to_string()];
    assert_eq!(resolve_engines(&enabled), vec![Engine::TinEye]);
}

#[test]
fn no_known_name_shows_every_engine() {
    let enabled = vec!["nothing".to_string()];
    let all = vec![
        Engine::Lens,
        Engine::Yandex,
        Engine::Bing,
        Engine::AiChat,
        Engine::TinEye,
        Engine::SauceNao,
    ];
    assert_eq!(resolve_engines(&enabled), all);
    assert_eq!(resolve_engines(&[]), all);
}

#[test]
fn default_configuration_shows_every_engine_in_order() {
    assert_eq!(
        resolve_engines(&default_engines()),
        vec![
            Engine::Lens,
            Engine::Yandex,
            Engine::Bing,
            Engine::AiChat,
            Engine::TinEye,
            Engine::SauceNao,
        ]
    );
}

#[test]
fn selected_engine_of_empty_menu_is_lens() {
    assert_eq!(selected_engine(&[]), Engine::Lens);
    assert_eq!(Engine::default(), Engine::Lens);
}

#[test]
fn every_shortcut_key() {
    let all = resolve_engines(&default_engines());
    assert_eq!(shortcut_engine(KEY_L, &all), Some(Engine::Lens));
    assert_eq!(shortcut_engine(KEY_Y, &all), Some(Engine::Yandex));
    assert_eq!(shortcut_engine(KEY_B, &all), Some(Engine::Bing));
    assert_eq!(shortcut_engine(KEY_C, &all), Some(Engine::AiChat));
    assert_eq!(shortcut_engine(KEY_T, &all), Some(Engine::TinEye));
    assert_eq!(shortcut_engine(KEY_S, &all), Some(Engine::SauceNao));
    assert_eq!(shortcut_engine(0x0078, &all), None);
    assert_eq!(shortcut_engine(0x004c, &all), None);
}

#[test]
fn pill_labels() {
    assert_eq!(pill_label(Engine::Lens, "chat"), "lens");
    assert_eq!(pill_label(Engine::SauceNao, "chat"), "sauce");
    assert_eq!(pill_label(Engine::AiChat, "chat"), "chat");
    assert_eq!(pill_label(Engine::Yandex, "x"), "yandex");
}

#[test]
fn ai_pill_label_is_four_lowercase_chars() {
    assert_eq!(ai_pill_label("ChatGPT"), "chat");
    assert_eq!(ai_pill_label("AI"), "ai");
    assert_eq!(ai_pill_label("ÉCOLE"), "écol");
    assert_eq!(ai_pill_label(""), "");
}

#[test]
fn pill_styles() {
    assert_eq!(pill_style(Engine::Bing, Engine::Bing, Some(Engine::Bing)), PillStyle::Active);
    assert_eq!(pill_style(Engine::Bing, Engine::Lens, Some(Engine::Bing)), PillStyle::Hovered);
    assert_eq!(pill_style(Engine::Bing, Engine::Lens, Some(Engine::Yandex)), PillStyle::Idle);
    assert_eq!(pill_style(Engine::Bing, Engine::Lens, None), PillStyle::Idle);
}
