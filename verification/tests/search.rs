use omarchy_circle_search::config::Config;
use omarchy_circle_search::engine::Engine;
use omarchy_circle_search::search::{search_launch, visual_search_target, HelperScript};

fn pairs(v: &[(&str, &str)]) -> Vec<(String, String)> {
    v.iter().map(|(a, b)| (a.to_string(), b.to_string())).collect()
}

#[test]
fn visual_search_targets() {
    assert_eq!(visual_search_target(Engine::Lens), ("Google Lens".to_string(), "lens".to_string()));
    assert_eq!(visual_search_target(Engine::Yandex), ("Yandex Images".to_string(), "yandex".to_string()));
    assert_eq!(visual_search_target(Engine::Bing), ("Bing Visual".to_string(), "bing".to_string()));
    assert_eq!(visual_search_target(Engine::TinEye), ("TinEye".to_string(), "tineye".to_string()));
    assert_eq!(visual_search_target(Engine::SauceNao), ("SauceNao".to_string(), "saucenao".to_string()));
}

#[test]
fn visual_search_launch() {
    let cfg = Config::default();
    let l = search_launch("/tmp/a.png", Engine::Bing, &cfg);
    assert_eq!(l.script, HelperScript::VisualSearch);
    assert_eq!(
        l.env,
        pairs(&[
            ("CS_PATH", "/tmp/a.png"),
            ("CS_ENGINE", "bing"),
            ("CS_ENGINE_NAME", "Bing Visual"),
            ("CS_IMGUR_CLIENT_ID", "546c25a59c58ad7"),
        ])
    );
}

#[test]
fn ai_chat_launch() {
    let mut cfg = Config::default();
    cfg.paste_delay_secs = 12;
    let l = search_launch("/tmp/b.png", Engine::AiChat, &cfg);
    assert_eq!(l.script, HelperScript::AiChat);
    assert_eq!(
        l.env,
        pairs(&[
            ("CS_PATH", "/tmp/b.png"),
            ("CS_AI_URL", "https://chatgpt.com"),
            ("CS_AI_NAME", "ChatGPT"),
            ("CS_PASTE_DELAY", "12"),
        ])
    );
}
