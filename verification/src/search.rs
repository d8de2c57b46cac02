//! How a capture is handed to a search engine or to the AI chat helper.
use vstd::prelude::*;
use vstd::string::StringExecFns;
use crate::config::Config;
use crate::engine::Engine;
use crate::text::{decimal, push_decimal};

verus! {

/// The helper script that carries out a search.
#[derive(Clone, Copy, PartialEq, Eq, Structural, Debug)]
pub enum HelperScript {
    /// Uploads the image and opens the engine's result page.
    VisualSearch,
    /// Copies the image, opens the chat and pastes it.
    AiChat,
}

/// What to run for a search: the helper script and its environment.
pub struct SearchLaunch {
    pub script: HelperScript,
    pub env: Vec<(String, String)>,
}

/// The character sequences of a list of name/value pairs.
pub open spec fn pairs_view(v: Seq<(String, String)>) -> Seq<(Seq<char>, Seq<char>)> {
    v.map_values(|p: (String, String)| (p.0@, p.1@))
}

/// The name shown while a visual search engine is used.
pub open spec fn engine_title(e: Engine) -> Seq<char> {
    match e {
        Engine::Lens => "Google Lens"@,
        Engine::Yandex => "Yandex Images"@,
        Engine::Bing => "Bing Visual"@,
        Engine::TinEye => "TinEye"@,
        Engine::SauceNao => "SauceNao"@,
        Engine::AiChat => Seq::empty(),
    }
}

/// The key by which the upload helper builds a visual search engine's URL.
pub open spec fn engine_key(e: Engine) -> Seq<char> {
    match e {
        Engine::Lens => "lens"@,
        Engine::Yandex => "yandex"@,
        Engine::Bing => "bing"@,
        Engine::TinEye => "tineye"@,
        Engine::SauceNao => "saucenao"@,
        Engine::AiChat => Seq::empty(),
    }
}

/// The display name and URL key of a visual search engine.
pub fn visual_search_target(engine: Engine) -> (r: (String, String))
    requires
        engine != Engine::AiChat,
    ensures
        r.0@ == engine_title(engine),
        r.1@ == engine_key(engine),
{
    match engine {
        Engine::Lens => (String::from_str("Google Lens"), String::from_str("lens")),
        Engine::Yandex => (String::from_str("Yandex Images"), String::from_str("yandex")),
        Engine::Bing => (String::from_str("Bing Visual"), String::from_str("bing")),
        Engine::TinEye => (String::from_str("TinEye"), String::from_str("tineye")),
        Engine::SauceNao => (String::from_str("SauceNao"), String::from_str("saucenao")),
        Engine::AiChat => (String::new(), String::new()),
    }
}

/// The environment of the AI chat helper.
pub open spec fn ai_chat_env(path: Seq<char>, cfg: crate::config::ConfigView) -> Seq<
    (Seq<char>, Seq<char>),
> {
    seq![
        ("CS_PATH"@, path),
        ("CS_AI_URL"@, cfg.ai_chat_url),
        ("CS_AI_NAME"@, cfg.ai_chat_name),
        ("CS_PASTE_DELAY"@, decimal(cfg.paste_delay_secs as nat)),
    ]
}

/// The environment of the upload helper for a visual search engine.
pub open spec fn visual_search_env(
    path: Seq<char>,
    e: Engine,
    cfg: crate::config::ConfigView,
) -> Seq<(Seq<char>, Seq<char>)> {
    seq![
        ("CS_PATH"@, path),
        ("CS_ENGINE"@, engine_key(e)),
        ("CS_ENGINE_NAME"@, engine_title(e)),
        ("CS_IMGUR_CLIENT_ID"@, cfg.imgur_client_id),
    ]
}

/// What to run to search for the image at `path` with `engine`: the AI
/// chat helper for the AI chat, else the upload helper, each with its
/// environment.
pub fn search_launch(path: &str, engine: Engine, config: &Config) -> (l: SearchLaunch)
    ensures
        engine == Engine::AiChat ==> l.script == HelperScript::AiChat && pairs_view(l.env@)
            == ai_chat_env(path@, config@),
        engine != Engine::AiChat ==> l.script == HelperScript::VisualSearch && pairs_view(l.env@)
            == visual_search_env(path@, engine, config@),
{
    let mut env: Vec<(String, String)> = Vec::new();
    env.push((String::from_str("CS_PATH"), String::from_str(path)));
    if engine == Engine::AiChat {
        env.push((String::from_str("CS_AI_URL"), config.ai_chat_url.clone()));
        env.push((String::from_str("CS_AI_NAME"), config.ai_chat_name.clone()));
        let mut delay = String::new();
        push_decimal(&mut delay, config.paste_delay_secs);
        env.push((String::from_str("CS_PASTE_DELAY"), delay));
        assert(pairs_view(env@) =~= ai_chat_env(path@, config@));
        SearchLaunch { script: HelperScript::AiChat, env }
    } else {
        let (title, key) = visual_search_target(engine);
        env.push((String::from_str("CS_ENGINE"), key));
        env.push((String::from_str("CS_ENGINE_NAME"), title));
        env.push((String::from_str("CS_IMGUR_CLIENT_ID"), config.imgur_client_id.clone()));
        assert(pairs_view(env@) =~= visual_search_env(path@, engine, config@));
        SearchLaunch { script: HelperScript::VisualSearch, env }
    }
}

} // verus!

verus! {

/// Whether a list of name/value pairs sets `name` to `value`.
pub open spec fn sets(env: Seq<(Seq<char>, Seq<char>)>, name: Seq<char>, value: Seq<char>) -> bool {
    exists|i: int| 0 <= i < env.len() && env[i] == (name, value)
}

/// The AI chat helper is told the configured chat site, the configured
/// chat name, the configured paste delay in decimal and the image path,
/// whatever the configuration holds; the upload helper is told the image
/// path and the configured Imgur client ID.
pub proof fn lemma_launch_uses_config(
    path: Seq<char>,
    e: Engine,
    cfg: crate::config::ConfigView,
)
    ensures
        sets(ai_chat_env(path, cfg), "CS_AI_URL"@, cfg.ai_chat_url),
        sets(ai_chat_env(path, cfg), "CS_AI_NAME"@, cfg.ai_chat_name),
        sets(ai_chat_env(path, cfg), "CS_PASTE_DELAY"@, decimal(cfg.paste_delay_secs as nat)),
        sets(ai_chat_env(path, cfg), "CS_PATH"@, path),
        sets(visual_search_env(path, e, cfg), "CS_IMGUR_CLIENT_ID"@, cfg.imgur_client_id),
        sets(visual_search_env(path, e, cfg), "CS_PATH"@, path),
{
    let a = ai_chat_env(path, cfg);
    assert(a[0] == ("CS_PATH"@, path));
    assert(a[1] == ("CS_AI_URL"@, cfg.ai_chat_url));
    assert(a[2] == ("CS_AI_NAME"@, cfg.ai_chat_name));
    assert(a[3] == ("CS_PASTE_DELAY"@, decimal(cfg.paste_delay_secs as nat)));
    let v = visual_search_env(path, e, cfg);
    assert(v[0] == ("CS_PATH"@, path));
    assert(v[3] == ("CS_IMGUR_CLIENT_ID"@, cfg.imgur_client_id));
}

} // verus!

verus! {

/// The upload helper is told the engine by the same name that enables it
/// in the configuration file, so every visual engine gets its own key and
/// the helper searches with the engine that was chosen.
pub proof fn lemma_engine_key_is_config_name(path: Seq<char>, e: Engine, cfg: crate::config::ConfigView)
    requires
        e != Engine::AiChat,
    ensures
        crate::engine::engine_named(engine_key(e)) == Some(e),
        sets(visual_search_env(path, e, cfg), "CS_ENGINE"@, engine_key(e)),
        sets(visual_search_env(path, e, cfg), "CS_ENGINE_NAME"@, engine_title(e)),
{
    reveal_strlit("lens");
    reveal_strlit("yandex");
    reveal_strlit("bing");
    reveal_strlit("ai_chat");
    reveal_strlit("tineye");
    reveal_strlit("saucenao");
    assert("lens"@.len() == 4 && "yandex"@.len() == 6 && "bing"@.len() == 4);
    assert("ai_chat"@.len() == 7 && "tineye"@.len() == 6 && "saucenao"@.len() == 8);
    assert("bing"@[0] != "lens"@[0]);
    assert("tineye"@[0] != "yandex"@[0]);
    let v = visual_search_env(path, e, cfg);
    assert(v[1] == ("CS_ENGINE"@, engine_key(e)));
    assert(v[2] == ("CS_ENGINE_NAME"@, engine_title(e)));
}

} // verus!
