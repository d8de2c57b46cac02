use omarchy_circle_search::config::{default_engines, parse, settings_from_file, Config, DEFAULT_CONFIG};

fn names(v: &[&str]) -> Vec<String> {
    v.iter().map(|s| s.to_string()).collect()
}

#[test]
fn default_settings() {
    let c = Config::default();
    assert_eq!(c.ai_chat_url, "https://chatgpt.com");
    assert_eq!(c.ai_chat_name, "ChatGPT");
    assert_eq!(c.imgur_client_id, "546c25a59c58ad7");
    assert_eq!(c.paste_delay_secs, 3);
    assert_eq!(c.enabled_engines, names(&["lens", "yandex", "bing", "ai_chat", "tineye", "saucenao"]));
    assert_eq!(default_engines(), c.enabled_engines);
}

#[test]
fn default_file_parses_to_default_settings() {
    let c = parse(DEFAULT_CONFIG);
    let d = Config::default();
    assert_eq!(c.ai_chat_url, d.ai_chat_url);
    assert_eq!(c.ai_chat_name, d.ai_chat_name);
    assert_eq!(c.imgur_client_id, d.imgur_client_id);
    assert_eq!(c.paste_delay_secs, d.paste_delay_secs);
    assert_eq!(c.enabled_engines, d.enabled_engines);
}

#[test]
fn empty_file_gives_defaults() {
    let c = parse("");
    assert_eq!(c.ai_chat_url, "https://chatgpt.com");
    assert_eq!(c.enabled_engines.len(), 6);
}

#[test]
fn reads_every_setting() {
    let text = "[engines]\nenabled = [\"bing\", 'x', \"lens\"]\n\n[ai_chat]\nurl = \"https://chat.mistral.ai\"\nname = Mistral\npaste_delay = 5\n\n[upload]\nimgur_client_id = \"abc123\"\n";
    let c = parse(text);
    assert_eq!(c.ai_chat_url, "https://chat.mistral.ai");
    assert_eq!(c.ai_chat_name, "Mistral");
    assert_eq!(c.paste_delay_secs, 5);
    assert_eq!(c.imgur_client_id, "abc123");
    assert_eq!(c.enabled_engines, names(&["bing", "'x'", "lens"]));
}

#[test]
fn keys_outside_their_section_are_ignored() {
    let c = parse("url = \"https://x\"\n[upload]\nname = Foo\n[ai_chat]\nimgur_client_id = y\n");
    let d = Config::default();
    assert_eq!(c.ai_chat_url, d.ai_chat_url);
    assert_eq!(c.ai_chat_name, d.ai_chat_name);
    assert_eq!(c.imgur_client_id, d.imgur_client_id);
}

#[test]
fn unknown_sections_and_keys_are_ignored() {
    let c = parse("[future]\nurl = nope\n[ai_chat]\ncolour = red\nurl = yes\n");
    assert_eq!(c.ai_chat_url, "yes");
    assert_eq!(c.ai_chat_name, "ChatGPT");
}

#[test]
fn bad_paste_delay_falls_back_to_three() {
    assert_eq!(parse("[ai_chat]\npaste_delay = 7\npaste_delay = soon\n").paste_delay_secs, 3);
    assert_eq!(parse("[ai_chat]\npaste_delay = -1\n").paste_delay_secs, 3);
    assert_eq!(parse("[ai_chat]\npaste_delay = 18446744073709551616\n").paste_delay_secs, 3);
    assert_eq!(parse("[ai_chat]\npaste_delay =\n").paste_delay_secs, 3);
    assert_eq!(parse("[ai_chat]\npaste_delay = +\n").paste_delay_secs, 3);
}

#[test]
fn paste_delay_forms() {
    assert_eq!(parse("[ai_chat]\npaste_delay = +7\n").paste_delay_secs, 7);
    assert_eq!(parse("[ai_chat]\npaste_delay = \"007\"\n").paste_delay_secs, 7);
    assert_eq!(parse("[ai_chat]\npaste_delay = 18446744073709551615\n").paste_delay_secs, u64::MAX);
    assert_eq!(parse("[ai_chat]\npaste_delay = 0\n").paste_delay_secs, 0);
}

#[test]
fn empty_engine_list_keeps_previous() {
    let c = parse("[engines]\nenabled = []\n");
    assert_eq!(c.enabled_engines.len(), 6);
    let c = parse("[engines]\nenabled = [\"tineye\"]\nenabled = [ , \"\" ]\n");
    assert_eq!(c.enabled_engines, names(&["tineye"]));
}

#[test]
fn engine_list_without_brackets_or_quotes() {
    let c = parse("[engines]\nenabled = lens , bing\n");
    assert_eq!(c.enabled_engines, names(&["lens", "bing"]));
}

#[test]
fn later_setting_wins_and_value_keeps_equals_signs() {
    let c = parse("[ai_chat]\nurl = a\nurl = \"https://x.com/?q=1\"\n");
    assert_eq!(c.ai_chat_url, "https://x.com/?q=1");
}

#[test]
fn comments_blank_lines_and_crlf() {
    let c = parse("# comment\r\n\r\n  [ai_chat]  \r\n   # url = no\r\n  name = \"Le Chat\"  \r\n");
    assert_eq!(c.ai_chat_name, "Le Chat");
    assert_eq!(c.ai_chat_url, "https://chatgpt.com");
}

#[test]
fn quotes_are_stripped_repeatedly_and_unicode_space_trimmed() {
    let c = parse("[ai_chat]\nname = \"\"Mistral\"\u{3000}\n\u{a0}url\u{a0}=\u{2003}u\n");
    assert_eq!(c.ai_chat_name, "Mistral");
    assert_eq!(c.ai_chat_url, "u");
}

#[test]
fn section_header_may_be_empty_or_odd() {
    let c = parse("[ai_chat]\n[]\nurl = x\n[ai_chat]\nname = y\n");
    assert_eq!(c.ai_chat_url, "https://chatgpt.com");
    assert_eq!(c.ai_chat_name, "y");
    let c = parse("[ ai_chat ]\nname = z\n");
    assert_eq!(c.ai_chat_name, "ChatGPT");
}

#[test]
fn line_without_equals_is_ignored() {
    let c = parse("[ai_chat]\nname\nname: x\n");
    assert_eq!(c.ai_chat_name, "ChatGPT");
}

#[test]
fn settings_from_missing_or_present_file() {
    let none = settings_from_file(None);
    assert_eq!(none.ai_chat_name, "ChatGPT");
    assert_eq!(none.paste_delay_secs, 3);
    let written = settings_from_file(Some(DEFAULT_CONFIG));
    assert_eq!(written.ai_chat_url, none.ai_chat_url);
    assert_eq!(written.ai_chat_name, none.ai_chat_name);
    assert_eq!(written.imgur_client_id, none.imgur_client_id);
    assert_eq!(written.paste_delay_secs, none.paste_delay_secs);
    assert_eq!(written.enabled_engines, none.enabled_engines);
    let some = settings_from_file(Some("[ai_chat]\nname = Le Chat\n"));
    assert_eq!(some.ai_chat_name, "Le Chat");
}

#[test]
fn ignored_lines_inserted_in_the_middle_change_nothing() {
    let base = "[ai_chat]\nurl = a\n[upload]\nimgur_client_id = b\n";
    let grown = "[ai_chat]\ntheme = dark\nurl = a\n[upload]\nretries = 3\nimgur_client_id = b\n";
    let (x, y) = (parse(base), parse(grown));
    assert_eq!(x.ai_chat_url, y.ai_chat_url);
    assert_eq!(x.imgur_client_id, y.imgur_client_id);
    assert_eq!(x.ai_chat_name, y.ai_chat_name);
}

#[test]
fn unknown_section_appended_changes_nothing() {
    let base = "[ai_chat]\nurl = a\n";
    let grown = "[ai_chat]\nurl = a\n[history]\nurl = b\nname = c\nenabled = [\"bing\"]\n";
    let (x, y) = (parse(base), parse(grown));
    assert_eq!(x.ai_chat_url, y.ai_chat_url);
    assert_eq!(x.ai_chat_name, y.ai_chat_name);
    assert_eq!(x.enabled_engines, y.enabled_engines);
}

#[test]
fn known_keys_in_other_sections_are_ignored() {
    let c = parse("[ai_chat]\nenabled = [\"bing\"]\nimgur_client_id = x\n[upload]\nurl = y\n[engines]\nname = z\n");
    let d = Config::default();
    assert_eq!(c.enabled_engines, d.enabled_engines);
    assert_eq!(c.imgur_client_id, d.imgur_client_id);
    assert_eq!(c.ai_chat_url, d.ai_chat_url);
    assert_eq!(c.ai_chat_name, d.ai_chat_name);
}

#[test]
fn unknown_sections_with_unknown_headers_change_nothing() {
    let base = "[ai_chat]\nname = a\n";
    let grown = "[ai_chat]\nname = a\n[foo]\nname = b\n[bar]\nurl = c\n";
    assert_eq!(parse(base).ai_chat_name, parse(grown).ai_chat_name);
    assert_eq!(parse(grown).ai_chat_url, "https://chatgpt.com");
    // a known header afterwards does take effect again
    assert_eq!(parse("[foo]\n[ai_chat]\nurl = x\n").ai_chat_url, "x");
}
