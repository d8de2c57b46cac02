//! The configuration file `~/.config/omarchy/circle-search.toml`.
use vstd::prelude::*;
use vstd::string::StringExecFns;
use crate::text::{
    CharClass, chars_of, find_char, find_in_range, lemma_find_char_at, lemma_space_class_is_unicode_white_space,
    lemma_strip_end_pad, lemma_strip_padded, lemma_strip_start_pad, parse_u64, strip_end, strip_start,
    unicode_white_space, parse_u64_range, pieces,
    range_eq, range_seqs, split_ranges, string_of_range, strip, strip_range,
};

verus! {

/// Settings read from the configuration file.
pub struct Config {
    pub ai_chat_url: String,
    pub ai_chat_name: String,
    pub imgur_client_id: String,
    pub paste_delay_secs: u64,
    pub enabled_engines: Vec<String>,
}

/// The contents of a [`Config`], as character sequences.
pub struct ConfigView {
    pub ai_chat_url: Seq<char>,
    pub ai_chat_name: Seq<char>,
    pub imgur_client_id: Seq<char>,
    pub paste_delay_secs: u64,
    pub enabled_engines: Seq<Seq<char>>,
}

/// The character sequences of a list of strings.
pub open spec fn strings_view(v: Seq<String>) -> Seq<Seq<char>> {
    v.map_values(|s: String| s@)
}

impl View for Config {
    type V = ConfigView;

    open spec fn view(&self) -> ConfigView {
        ConfigView {
            ai_chat_url: self.ai_chat_url@,
            ai_chat_name: self.ai_chat_name@,
            imgur_client_id: self.imgur_client_id@,
            paste_delay_secs: self.paste_delay_secs,
            enabled_engines: strings_view(self.enabled_engines@),
        }
    }
}

/// The names of all engines, in the order of the engine menu.
pub open spec fn default_engine_names() -> Seq<Seq<char>> {
    seq!["lens"@, "yandex"@, "bing"@, "ai_chat"@, "tineye"@, "saucenao"@]
}

/// The delay before auto-paste when the file does not set a valid one.
pub open spec fn default_paste_delay() -> u64 {
    3
}

/// The settings used where the file says nothing.
pub open spec fn default_config() -> ConfigView {
    ConfigView {
        ai_chat_url: "https://chatgpt.com"@,
        ai_chat_name: "ChatGPT"@,
        imgur_client_id: "546c25a59c58ad7"@,
        paste_delay_secs: default_paste_delay(),
        enabled_engines: default_engine_names(),
    }
}

/// All engine names, in menu order.
pub fn default_engines() -> (v: Vec<String>)
    ensures
        strings_view(v@) == default_engine_names(),
{
    let mut v: Vec<String> = Vec::new();
    v.push(String::from_str("lens"));
    v.push(String::from_str("yandex"));
    v.push(String::from_str("bing"));
    v.push(String::from_str("ai_chat"));
    v.push(String::from_str("tineye"));
    v.push(String::from_str("saucenao"));
    assert(strings_view(v@) =~= default_engine_names());
    v
}

impl Default for Config {
    fn default() -> (c: Config)
        ensures
            c@ == default_config(),
    {
        let names = default_engines();
        Config {
            ai_chat_url: String::from_str("https://chatgpt.com"),
            ai_chat_name: String::from_str("ChatGPT"),
            imgur_client_id: String::from_str("546c25a59c58ad7"),
            paste_delay_secs: 3,
            enabled_engines: names,
        }
    }
}

/// The engine names of an `enabled = [...]` value: brackets stripped, cut
/// at commas, each piece trimmed of white space and quotes, empty pieces
/// dropped.
pub open spec fn engine_list(value: Seq<char>) -> Seq<Seq<char>> {
    clean_names(pieces(strip(value, CharClass::Bracket), ','))
}

/// A list piece with white space and then quotes trimmed from both ends.
pub open spec fn clean_name(p: Seq<char>) -> Seq<char> {
    strip(strip(p, CharClass::Space), CharClass::Quote)
}

/// The non-empty cleaned pieces, in order.
pub open spec fn clean_names(ps: Seq<Seq<char>>) -> Seq<Seq<char>>
    decreases ps.len(),
{
    if ps.len() == 0 {
        Seq::empty()
    } else {
        let rest = clean_names(ps.drop_last());
        let t = clean_name(ps.last());
        if t.len() > 0 {
            rest.push(t)
        } else {
            rest
        }
    }
}

/// The effect of `key = value` in section `section`: the five known
/// settings are taken, everything else is ignored.
pub open spec fn assign(
    cfg: ConfigView,
    section: Seq<char>,
    key: Seq<char>,
    value: Seq<char>,
) -> ConfigView {
    if section == "ai_chat"@ && key == "url"@ {
        ConfigView { ai_chat_url: value, ..cfg }
    } else if section == "ai_chat"@ && key == "name"@ {
        ConfigView { ai_chat_name: value, ..cfg }
    } else if section == "ai_chat"@ && key == "paste_delay"@ {
        ConfigView {
            paste_delay_secs: match parse_u64(value) {
                Some(n) => n,
                None => default_paste_delay(),
            },
            ..cfg
        }
    } else if section == "upload"@ && key == "imgur_client_id"@ {
        ConfigView { imgur_client_id: value, ..cfg }
    } else if section == "engines"@ && key == "enabled"@ && engine_list(value).len() > 0 {
        ConfigView { enabled_engines: engine_list(value), ..cfg }
    } else {
        cfg
    }
}

/// Whether a trimmed line is a `[section]` header.
pub open spec fn is_header(line: Seq<char>) -> bool {
    line.len() > 0 && line[0] == '[' && line.last() == ']'
}

/// The state (current section, settings so far) after one more line.
pub open spec fn apply_line(st: (Seq<char>, ConfigView), raw: Seq<char>) -> (
    Seq<char>,
    ConfigView,
) {
    let line = strip(raw, CharClass::Space);
    if line.len() == 0 || line[0] == '#' {
        st
    } else if is_header(line) {
        (line.subrange(1, line.len() - 1), st.1)
    } else {
        match find_char(line, '=') {
            None => st,
            Some(i) => (
                st.0,
                assign(
                    st.1,
                    st.0,
                    strip(line.take(i), CharClass::Space),
                    strip(strip(line.skip(i + 1), CharClass::Space), CharClass::Quote),
                ),
            ),
        }
    }
}

/// The state after a list of lines, starting in no section with the
/// default settings.
pub open spec fn apply_lines(lines: Seq<Seq<char>>) -> (Seq<char>, ConfigView)
    decreases lines.len(),
{
    if lines.len() == 0 {
        (Seq::empty(), default_config())
    } else {
        apply_line(apply_lines(lines.drop_last()), lines.last())
    }
}

/// The settings that a configuration file's text gives. The text is cut
/// into lines at `\n`; a `\r` before it is white space and trimmed with
/// the rest, and the empty piece after a final `\n` is a blank line.
pub open spec fn parse_config(content: Seq<char>) -> ConfigView {
    apply_lines(pieces(content, '\n')).1
}

} // verus!

verus! {

/// The engine names that the value in `lo..hi` lists.
fn engine_list_range(v: &Vec<char>, lo: usize, hi: usize) -> (names: Vec<String>)
    requires
        lo <= hi <= v@.len(),
    ensures
        strings_view(names@) == engine_list(v@.subrange(lo as int, hi as int)),
{
    let (ilo, ihi) = strip_range(v, lo, hi, CharClass::Bracket);
    let ranges = split_ranges(v, ilo, ihi, ',');
    let ghost ps = pieces(v@.subrange(ilo as int, ihi as int), ',');
    let mut names: Vec<String> = Vec::new();
    let mut k: usize = 0;
    assert(ps.take(0) =~= Seq::<Seq<char>>::empty());
    while k < ranges.len()
        invariant
            ps == range_seqs(v@, ranges@),
            k <= ranges@.len(),
            ihi <= v@.len(),
            forall|j: int| 0 <= j < ranges@.len() ==> ilo <= #[trigger] ranges@[j].0 <= ranges@[j].1 <= ihi,
            strings_view(names@) == clean_names(ps.take(k as int)),
        decreases ranges@.len() - k,
    {
        let (a0, b0) = ranges[k];
        assert(ilo <= ranges@[k as int].0 <= ranges@[k as int].1 <= ihi);
        let (a1, b1) = strip_range(v, a0, b0, CharClass::Space);
        let (a2, b2) = strip_range(v, a1, b1, CharClass::Quote);
        assert(ps.take(k + 1).drop_last() =~= ps.take(k as int));
        assert(ps.take(k + 1).last() == v@.subrange(a0 as int, b0 as int));
        if a2 < b2 {
            let ghost old_names = names@;
            names.push(string_of_range(v, a2, b2));
            assert(strings_view(names@) =~= strings_view(old_names).push(
                v@.subrange(a2 as int, b2 as int),
            ));
        }
        k = k + 1;
    }
    assert(ps.take(ranges@.len() as int) =~= ps);
    names
}

/// Applies `key = value` (given as ranges) in the current section.
fn assign_range(
    cfg: &mut Config,
    v: &Vec<char>,
    sec: (usize, usize),
    key: (usize, usize),
    val: (usize, usize),
)
    requires
        sec.0 <= sec.1 <= v@.len(),
        key.0 <= key.1 <= v@.len(),
        val.0 <= val.1 <= v@.len(),
    ensures
        final(cfg)@ == assign(
            old(cfg)@,
            v@.subrange(sec.0 as int, sec.1 as int),
            v@.subrange(key.0 as int, key.1 as int),
            v@.subrange(val.0 as int, val.1 as int),
        ),
{
    let in_ai = range_eq(v, sec.0, sec.1, "ai_chat");
    if in_ai && range_eq(v, key.0, key.1, "url") {
        cfg.ai_chat_url = string_of_range(v, val.0, val.1);
    } else if in_ai && range_eq(v, key.0, key.1, "name") {
        cfg.ai_chat_name = string_of_range(v, val.0, val.1);
    } else if in_ai && range_eq(v, key.0, key.1, "paste_delay") {
        cfg.paste_delay_secs = match parse_u64_range(v, val.0, val.1) {
            Some(n) => n,
            None => 3,
        };
    } else if range_eq(v, sec.0, sec.1, "upload") && range_eq(v, key.0, key.1, "imgur_client_id") {
        cfg.imgur_client_id = string_of_range(v, val.0, val.1);
    } else if range_eq(v, sec.0, sec.1, "engines") && range_eq(v, key.0, key.1, "enabled") {
        let names = engine_list_range(v, val.0, val.1);
        if names.len() > 0 {
            cfg.enabled_engines = names;
        }
    }
}

/// Applies one line (the range `lo..hi`) and returns the new section range.
fn apply_line_range(cfg: &mut Config, v: &Vec<char>, sec: (usize, usize), lo: usize, hi: usize) -> (r: (
    usize,
    usize,
))
    requires
        sec.0 <= sec.1 <= v@.len(),
        lo <= hi <= v@.len(),
    ensures
        r.0 <= r.1 <= v@.len(),
        (v@.subrange(r.0 as int, r.1 as int), final(cfg)@) == apply_line(
            (v@.subrange(sec.0 as int, sec.1 as int), old(cfg)@),
            v@.subrange(lo as int, hi as int),
        ),
{
    let (a, b) = strip_range(v, lo, hi, CharClass::Space);
    let ghost line = v@.subrange(a as int, b as int);
    if a == b || v[a] == '#' {
        return sec;
    }
    if v[a] == '[' && v[b - 1] == ']' {
        assert(line.subrange(1, line.len() - 1) =~= v@.subrange(a + 1, b - 1));
        return (a + 1, b - 1);
    }
    match find_in_range(v, a, b, '=') {
        None => sec,
        Some(j) => {
            let k = strip_range(v, a, j, CharClass::Space);
            let (c, d) = strip_range(v, j + 1, b, CharClass::Space);
            let w = strip_range(v, c, d, CharClass::Quote);
            assert(line.take(j - a) =~= v@.subrange(a as int, j as int));
            assert(line.skip(j - a + 1) =~= v@.subrange(j + 1, b as int));
            assign_range(cfg, v, sec, k, w);
            sec
        },
    }
}

/// Reads the settings from a configuration file's text. Lines are trimmed;
/// blank lines and lines starting with `#` are skipped; `[name]` starts a
/// section; `key = value` sets one of the known settings of the current
/// section (value trimmed and unquoted) and is otherwise ignored, as are
/// other lines.
pub fn parse(content: &str) -> (cfg: Config)
    ensures
        cfg@ == parse_config(content@),
{
    let v = chars_of(content);
    let lines = split_ranges(&v, 0, v.len(), '\n');
    let ghost ls = pieces(v@.subrange(0, v@.len() as int), '\n');
    assert(v@.subrange(0, v@.len() as int) =~= content@);
    let mut cfg = Config::default();
    let mut sec: (usize, usize) = (0, 0);
    let mut i: usize = 0;
    assert(ls.take(0) =~= Seq::<Seq<char>>::empty());
    assert(v@.subrange(0, 0) =~= Seq::<char>::empty());
    while i < lines.len()
        invariant
            ls == range_seqs(v@, lines@),
            i <= lines@.len(),
            forall|j: int| 0 <= j < lines@.len() ==> 0 <= #[trigger] lines@[j].0 <= lines@[j].1 <= v@.len(),
            sec.0 <= sec.1 <= v@.len(),
            (v@.subrange(sec.0 as int, sec.1 as int), cfg@) == apply_lines(ls.take(i as int)),
        decreases lines@.len() - i,
    {
        let (lo, hi) = lines[i];
        assert(0 <= lines@[i as int].0 <= lines@[i as int].1 <= v@.len());
        assert(ls.take(i + 1).drop_last() =~= ls.take(i as int));
        assert(ls.take(i + 1).last() == v@.subrange(lo as int, hi as int));
        sec = apply_line_range(&mut cfg, &v, sec, lo, hi);
        i = i + 1;
    }
    assert(ls.take(lines@.len() as int) =~= ls);
    cfg
}

} // verus!

verus! {

/// The section in force at the end of a configuration text.
pub open spec fn section_after(content: Seq<char>) -> Seq<char> {
    apply_lines(pieces(content, '\n')).0
}

/// Appending a line after a newline adds exactly that line.
pub proof fn lemma_pieces_append_line(c: Seq<char>, l: Seq<char>)
    requires
        forall|i: int| 0 <= i < l.len() ==> l[i] != '\n',
    ensures
        pieces(c + seq!['\n'] + l, '\n') == pieces(c, '\n').push(l),
    decreases l.len(),
{
    if l.len() == 0 {
        assert(c + seq!['\n'] + l =~= c.push('\n'));
        assert(c.push('\n').drop_last() =~= c);
        assert(l =~= Seq::<char>::empty());
        assert(pieces(c + seq!['\n'] + l, '\n') == pieces(c, '\n').push(Seq::empty()));
    } else {
        let l0 = l.drop_last();
        assert(l.last() != '\n');
        lemma_pieces_append_line(c, l0);
        crate::text::lemma_pieces_nonempty(c + seq!['\n'] + l0, '\n');
        assert((c + seq!['\n'] + l).drop_last() =~= c + seq!['\n'] + l0);
        assert((c + seq!['\n'] + l).last() == l.last());
        assert(l0.push(l.last()) =~= l);
        assert(pieces(c, '\n').push(l0).update(pieces(c, '\n').len() as int, l)
            =~= pieces(c, '\n').push(l));
    }
}

/// Parsing a text with one more line applies that line to the state.
pub proof fn lemma_apply_appended_line(c: Seq<char>, l: Seq<char>)
    requires
        forall|i: int| 0 <= i < l.len() ==> l[i] != '\n',
    ensures
        apply_lines(pieces(c + seq!['\n'] + l, '\n')) == apply_line(
            apply_lines(pieces(c, '\n')),
            l,
        ),
{
    lemma_pieces_append_line(c, l);
    assert(pieces(c, '\n').push(l).drop_last() =~= pieces(c, '\n'));
}

/// Blank lines and `#` comments change nothing.
pub proof fn lemma_comment_line_ignored(c: Seq<char>, l: Seq<char>)
    requires
        forall|i: int| 0 <= i < l.len() ==> l[i] != '\n',
        strip(l, CharClass::Space).len() == 0 || strip(l, CharClass::Space)[0] == '#',
    ensures
        parse_config(c + seq!['\n'] + l) == parse_config(c),
        section_after(c + seq!['\n'] + l) == section_after(c),
{
    lemma_apply_appended_line(c, l);
}

/// Whether a section name is one that holds settings.
pub open spec fn is_known_section(section: Seq<char>) -> bool {
    section == "ai_chat"@ || section == "upload"@ || section == "engines"@
}

/// Unknown keys are ignored: a `key = value` line whose key names no
/// setting of the section in force leaves the settings (and the section)
/// as they were.
pub proof fn lemma_unknown_key_ignored(c: Seq<char>, l: Seq<char>)
    requires
        forall|i: int| 0 <= i < l.len() ==> l[i] != '\n',
        !is_header(strip(l, CharClass::Space)),
        find_char(strip(l, CharClass::Space), '=') matches Some(i) && !is_setting(
            section_after(c),
            strip(strip(l, CharClass::Space).take(i), CharClass::Space),
        ),
    ensures
        parse_config(c + seq!['\n'] + l) == parse_config(c),
        section_after(c + seq!['\n'] + l) == section_after(c),
{
    lemma_apply_appended_line(c, l);
}

/// Unknown sections are ignored: while the section in force is not one of
/// `ai_chat`, `upload` and `engines`, any line other than a new section
/// header leaves the settings (and the section) as they were.
pub proof fn lemma_unknown_section_ignored(c: Seq<char>, l: Seq<char>)
    requires
        forall|i: int| 0 <= i < l.len() ==> l[i] != '\n',
        !is_known_section(section_after(c)),
        !is_header(strip(l, CharClass::Space)),
    ensures
        parse_config(c + seq!['\n'] + l) == parse_config(c),
        section_after(c + seq!['\n'] + l) == section_after(c),
{
    lemma_apply_appended_line(c, l);
}

/// A later setting of a key overrides an earlier one: after a line
/// `url = <v>` in section `ai_chat`, the chat URL is `v` (trimmed and
/// unquoted), whatever came before.
pub proof fn lemma_last_setting_wins(c: Seq<char>, l: Seq<char>)
    requires
        forall|i: int| 0 <= i < l.len() ==> l[i] != '\n',
        section_after(c) == "ai_chat"@,
        !is_header(strip(l, CharClass::Space)),
        strip(l, CharClass::Space).len() > 0,
        strip(l, CharClass::Space)[0] != '#',
        find_char(strip(l, CharClass::Space), '=') matches Some(i) && strip(
            strip(l, CharClass::Space).take(i),
            CharClass::Space,
        ) == "url"@,
    ensures
        parse_config(c + seq!['\n'] + l).ai_chat_url == strip(
            strip(
                strip(l, CharClass::Space).skip(find_char(strip(l, CharClass::Space), '=')->0 + 1),
                CharClass::Space,
            ),
            CharClass::Quote,
        ),
{
    lemma_apply_appended_line(c, l);
}

} // verus!

verus! {

/// The file written on first run; it parses to the default settings
/// (`default_config::lemma_default_file_parses_to_defaults`).
pub const DEFAULT_CONFIG: &'static str = "\
# Circle Search — configuration

[engines]
# Remove or reorder engines. Available: lens, yandex, bing, ai_chat, tineye, saucenao
enabled = [\"lens\", \"yandex\", \"bing\", \"ai_chat\", \"tineye\", \"saucenao\"]

[ai_chat]
url = \"https://chatgpt.com\"
name = \"ChatGPT\"
# paste_delay = 3   # seconds to wait for browser to load before auto-pasting

[upload]
# imgur_client_id = \"your_client_id_here\"   # override if the default hits rate limits
";

} // verus!

verus! {

/// The state after applying `lines`, one after another, to `st`.
pub open spec fn apply_from(st: (Seq<char>, ConfigView), lines: Seq<Seq<char>>) -> (
    Seq<char>,
    ConfigView,
)
    decreases lines.len(),
{
    if lines.len() == 0 {
        st
    } else {
        apply_line(apply_from(st, lines.drop_last()), lines.last())
    }
}

/// Applying two lists of lines is applying the first, then the second.
pub proof fn lemma_apply_lines_concat(p: Seq<Seq<char>>, q: Seq<Seq<char>>)
    ensures
        apply_lines(p + q) == apply_from(apply_lines(p), q),
    decreases q.len(),
{
    if q.len() == 0 {
        assert(p + q =~= p);
    } else {
        lemma_apply_lines_concat(p, q.drop_last());
        assert((p + q).drop_last() =~= p + q.drop_last());
        assert((p + q).last() == q.last());
    }
}

/// Whether a line is ignored when `section` is in force: blank, a `#`
/// comment, or a non-header line that sets none of the five settings
/// there (no `=`, or a (section, key) pair that names no setting).
pub open spec fn is_ignored_line(section: Seq<char>, l: Seq<char>) -> bool {
    let t = strip(l, CharClass::Space);
    ||| t.len() == 0
    ||| t[0] == '#'
    ||| (!is_header(t) && match find_char(t, '=') {
        None => true,
        Some(i) => !is_setting(section, strip(t.take(i), CharClass::Space)),
    })
}

/// Whether `key` in `section` names one of the five settings.
pub open spec fn is_setting(section: Seq<char>, key: Seq<char>) -> bool {
    ||| (section == "ai_chat"@ && (key == "url"@ || key == "name"@ || key == "paste_delay"@))
    ||| (section == "upload"@ && key == "imgur_client_id"@)
    ||| (section == "engines"@ && key == "enabled"@)
}

/// An ignored line leaves the state as it was.
pub proof fn lemma_ignored_line_no_effect(st: (Seq<char>, ConfigView), l: Seq<char>)
    requires
        is_ignored_line(st.0, l),
    ensures
        apply_line(st, l) == st,
{
}

/// Unknown keys and sections are ignored wherever they stand: inserting
/// between two lines of a text a line that is ignored in the section in
/// force there leaves the settings (and every later section) as they were.
pub proof fn lemma_ignored_line_inserted(a: Seq<char>, l: Seq<char>, b: Seq<char>)
    requires
        forall|i: int| 0 <= i < l.len() ==> l[i] != '\n',
        is_ignored_line(section_after(a), l),
    ensures
        apply_lines(pieces(a + seq!['\n'] + l + seq!['\n'] + b, '\n')) == apply_lines(
            pieces(a + seq!['\n'] + b, '\n'),
        ),
        parse_config(a + seq!['\n'] + l + seq!['\n'] + b) == parse_config(a + seq!['\n'] + b),
{
    let pa = pieces(a, '\n');
    let pb = pieces(b, '\n');
    crate::text::lemma_pieces_concat(a, l + seq!['\n'] + b, '\n');
    crate::text::lemma_pieces_concat(l, b, '\n');
    crate::text::lemma_pieces_single(l, '\n');
    crate::text::lemma_pieces_concat(a, b, '\n');
    assert(a + seq!['\n'] + l + seq!['\n'] + b =~= a + seq!['\n'] + (l + seq!['\n'] + b));
    assert(pieces(a + seq!['\n'] + l + seq!['\n'] + b, '\n') =~= pa + (seq![l] + pb));
    lemma_apply_lines_concat(pa, seq![l] + pb);
    lemma_apply_lines_concat(pa, pb);
    lemma_apply_from_split(apply_lines(pa), l, pb);
}

/// An ignored line can also stand first: before the first line, no
/// section is in force.
pub proof fn lemma_ignored_line_prepended(l: Seq<char>, b: Seq<char>)
    requires
        forall|i: int| 0 <= i < l.len() ==> l[i] != '\n',
        is_ignored_line(Seq::empty(), l),
    ensures
        apply_lines(pieces(l + seq!['\n'] + b, '\n')) == apply_lines(pieces(b, '\n')),
        parse_config(l + seq!['\n'] + b) == parse_config(b),
{
    let pb = pieces(b, '\n');
    crate::text::lemma_pieces_concat(l, b, '\n');
    crate::text::lemma_pieces_single(l, '\n');
    assert(Seq::<Seq<char>>::empty() + (seq![l] + pb) =~= seq![l] + pb);
    assert(Seq::<Seq<char>>::empty() + pb =~= pb);
    lemma_apply_lines_concat(Seq::empty(), seq![l] + pb);
    lemma_apply_lines_concat(Seq::empty(), pb);
    lemma_apply_from_split(apply_lines(Seq::empty()), l, pb);
}

/// The section that a header line names.
pub open spec fn header_name(t: Seq<char>) -> Seq<char> {
    t.subrange(1, t.len() - 1)
}

/// While an unknown section is in force, lines whose headers (if any) name
/// unknown sections keep an unknown section in force and leave the
/// settings as they were.
proof fn lemma_unknown_section_body(st: (Seq<char>, ConfigView), q: Seq<Seq<char>>)
    requires
        !is_known_section(st.0),
        forall|i: int|
            0 <= i < q.len() && is_header(strip(#[trigger] q[i], CharClass::Space))
                ==> !is_known_section(header_name(strip(q[i], CharClass::Space))),
    ensures
        !is_known_section(apply_from(st, q).0),
        apply_from(st, q).1 == st.1,
    decreases q.len(),
{
    if q.len() > 0 {
        let q0 = q.drop_last();
        assert forall|i: int|
            0 <= i < q0.len() && is_header(strip(#[trigger] q0[i], CharClass::Space))
                implies !is_known_section(header_name(strip(q0[i], CharClass::Space))) by {
            assert(q0[i] == q[i]);
        }
        lemma_unknown_section_body(st, q0);
        let l = q[q.len() - 1];
        assert(is_header(strip(l, CharClass::Space)) ==> !is_known_section(
            header_name(strip(l, CharClass::Space)),
        ));
    }
}

/// Unknown sections are ignored: appending a header `[s]` of a section
/// other than `ai_chat`, `upload` and `engines`, followed by lines whose
/// section headers (if any) also name such sections, leaves the settings
/// as they were.
pub proof fn lemma_unknown_section_appended(c: Seq<char>, s: Seq<char>, body: Seq<char>)
    requires
        forall|i: int| 0 <= i < s.len() ==> s[i] != '\n',
        !is_known_section(s),
        forall|i: int|
            0 <= i < pieces(body, '\n').len() && is_header(
                strip(#[trigger] pieces(body, '\n')[i], CharClass::Space),
            ) ==> !is_known_section(
                header_name(strip(pieces(body, '\n')[i], CharClass::Space)),
            ),
    ensures
        parse_config(c + seq!['\n'] + (seq!['['] + s + seq![']']) + seq!['\n'] + body)
            == parse_config(c),
{
    let h = seq!['['] + s + seq![']'];
    let pc = pieces(c, '\n');
    let pb = pieces(body, '\n');
    assert forall|i: int| 0 <= i < h.len() implies h[i] != '\n' by {
        if 0 < i < h.len() - 1 {
            assert(h[i] == s[i - 1]);
        }
    }
    crate::text::lemma_pieces_concat(c, h + seq!['\n'] + body, '\n');
    crate::text::lemma_pieces_concat(h, body, '\n');
    crate::text::lemma_pieces_single(h, '\n');
    assert(c + seq!['\n'] + h + seq!['\n'] + body =~= c + seq!['\n'] + (h + seq!['\n'] + body));
    assert(pieces(c + seq!['\n'] + h + seq!['\n'] + body, '\n') =~= pc + (seq![h] + pb));
    lemma_apply_lines_concat(pc, seq![h] + pb);
    let st = apply_lines(pc);
    // The header line: nothing to trim, and it names section `s`.
    assert(h[0] == '[' && h.last() == ']');
    assert(strip(h, CharClass::Space) == h);
    assert(h.subrange(1, h.len() - 1) =~= s);
    let st2 = (s, st.1);
    assert(apply_line(st, h) == st2);
    lemma_unknown_section_body(st2, pb);
    lemma_apply_from_split(st, h, pb);
}

/// Applying one line and then a list is applying the list with the line
/// in front.
proof fn lemma_apply_from_split(st: (Seq<char>, ConfigView), l: Seq<char>, q: Seq<Seq<char>>)
    ensures
        apply_from(st, seq![l] + q) == apply_from(apply_line(st, l), q),
    decreases q.len(),
{
    if q.len() == 0 {
        assert(seq![l] + q =~= seq![l]);
        assert(seq![l].drop_last() =~= Seq::<Seq<char>>::empty());
        assert(seq![l].last() == l);
        assert(apply_from(st, Seq::<Seq<char>>::empty()) == st);
        assert(apply_from(st, seq![l]) == apply_line(st, l));
    } else {
        lemma_apply_from_split(st, l, q.drop_last());
        assert((seq![l] + q).drop_last() =~= seq![l] + q.drop_last());
        assert((seq![l] + q).last() == q.last());
    }
}

} // verus!

verus! {

/// The settings a run loads, given the configuration file's text if it
/// could be read.
pub open spec fn loaded_config(content: Option<Seq<char>>) -> ConfigView {
    match content {
        Some(t) => parse_config(t),
        None => default_config(),
    }
}

/// The settings a run loads: the defaults when there is no file to read
/// (no home directory, the file was missing and has just been written, or
/// reading failed), else what the file's text sets.
pub fn settings_from_file(content: Option<&str>) -> (c: Config)
    ensures
        c@ == loaded_config(
            match content {
                Some(t) => Some(t@),
                None => None,
            },
        ),
{
    match content {
        Some(t) => parse(t),
        None => Config::default(),
    }
}

} // verus!

verus! {

/// White space of any kind (tabs as well as spaces) around a line and
/// around the `=` of a `key = value` line (one that does not start with
/// `[`, which could make it a header) changes nothing: the line acts as
/// `key=value`.
pub proof fn lemma_padded_line(
    st: (Seq<char>, ConfigView),
    k: Seq<char>,
    v: Seq<char>,
    p0: Seq<char>,
    p1: Seq<char>,
    p2: Seq<char>,
    p3: Seq<char>,
)
    requires
        k.len() > 0,
        v.len() > 0,
        forall|i: int| 0 <= i < k.len() ==> k[i] != '=',
        !unicode_white_space(k[0]),
        k[0] != '[',
        !unicode_white_space(v.last()),
        forall|i: int| 0 <= i < p0.len() ==> unicode_white_space(#[trigger] p0[i]),
        forall|i: int| 0 <= i < p1.len() ==> unicode_white_space(#[trigger] p1[i]),
        forall|i: int| 0 <= i < p2.len() ==> unicode_white_space(#[trigger] p2[i]),
        forall|i: int| 0 <= i < p3.len() ==> unicode_white_space(#[trigger] p3[i]),
    ensures
        apply_line(st, p0 + k + p1 + seq!['='] + p2 + v + p3) == apply_line(st, k + seq!['='] + v),
{
    let t = k + p1 + seq!['='] + p2 + v;
    let u = k + seq!['='] + v;
    assert(p0 + k + p1 + seq!['='] + p2 + v + p3 =~= p0 + t + p3);
    assert(t[0] == k[0] && t.last() == v.last());
    assert(u[0] == k[0] && u.last() == v.last());
    lemma_strip_padded(p0, t, p3);
    lemma_strip_padded(Seq::empty(), u, Seq::empty());
    assert(Seq::<char>::empty() + u + Seq::<char>::empty() =~= u);
    lemma_space_class_is_unicode_white_space(k[0]);
    let n = k.len() as int;
    let m = p1.len() as int;
    assert forall|i: int| 0 <= i < n + m implies t[i] != '=' by {
        if i < n {
            assert(t[i] == k[i]);
        } else {
            assert(t[i] == p1[i - n]);
            assert(unicode_white_space(p1[i - n]));
        }
    }
    assert(t[n + m] == '=');
    lemma_find_char_at(t, '=', n + m);
    assert forall|i: int| 0 <= i < n implies u[i] != '=' by {
        assert(u[i] == k[i]);
    }
    assert(u[n] == '=');
    lemma_find_char_at(u, '=', n);
    assert(t.take(n + m) =~= k + p1);
    assert(u.take(n) =~= k);
    assert((k + p1)[0] == k[0]);
    assert(strip_start(k + p1, CharClass::Space) == k + p1);
    assert(strip_start(k, CharClass::Space) == k);
    lemma_strip_end_pad(k, p1);
    assert(t.skip(n + m + 1) =~= p2 + v);
    assert(u.skip(n + 1) =~= v);
    lemma_strip_start_pad(p2, v);
    let l = p0 + k + p1 + seq!['='] + p2 + v + p3;
    assert(strip(l, CharClass::Space) == t);
    assert(strip(u, CharClass::Space) == u);
    assert(strip(t.take(n + m), CharClass::Space) == strip(u.take(n), CharClass::Space));
    assert(strip(t.skip(n + m + 1), CharClass::Space) == strip(u.skip(n + 1), CharClass::Space));
    assert(find_char(t, '=') == Some(n + m));
    assert(find_char(u, '=') == Some(n));
    assert(is_header(t) == is_header(u));
    assert(t.len() > 0 && u.len() > 0);
}

/// In a configuration text, a `key = value` line (not starting with `[`)
/// reads the same whatever white space (tabs or spaces) pads it or its
/// `=`: `url\t= x` sets what `url = x` sets.
pub proof fn lemma_padding_kind_irrelevant(
    c: Seq<char>,
    k: Seq<char>,
    v: Seq<char>,
    p0: Seq<char>,
    p1: Seq<char>,
    p2: Seq<char>,
    p3: Seq<char>,
)
    requires
        k.len() > 0,
        v.len() > 0,
        forall|i: int| 0 <= i < k.len() ==> k[i] != '=' && k[i] != '\n',
        forall|i: int| 0 <= i < v.len() ==> v[i] != '\n',
        !unicode_white_space(k[0]),
        k[0] != '[',
        !unicode_white_space(v.last()),
        forall|i: int| 0 <= i < p0.len() ==> unicode_white_space(#[trigger] p0[i]) && p0[i] != '\n',
        forall|i: int| 0 <= i < p1.len() ==> unicode_white_space(#[trigger] p1[i]) && p1[i] != '\n',
        forall|i: int| 0 <= i < p2.len() ==> unicode_white_space(#[trigger] p2[i]) && p2[i] != '\n',
        forall|i: int| 0 <= i < p3.len() ==> unicode_white_space(#[trigger] p3[i]) && p3[i] != '\n',
    ensures
        parse_config(c + seq!['\n'] + (p0 + k + p1 + seq!['='] + p2 + v + p3)) == parse_config(
            c + seq!['\n'] + (k + seq![' ', '=', ' '] + v),
        ),
{
    let l1 = p0 + k + p1 + seq!['='] + p2 + v + p3;
    let l2 = k + seq![' ', '=', ' '] + v;
    assert forall|i: int| 0 <= i < l1.len() implies l1[i] != '\n' by {
        let a = p0.len() as int;
        let b = a + k.len();
        let d = b + p1.len();
        let e = d + 1 + p2.len();
        let f = e + v.len();
        if i < a {
            assert(l1[i] == p0[i]);
        } else if i < b {
            assert(l1[i] == k[i - a]);
        } else if i < d {
            assert(l1[i] == p1[i - b]);
        } else if i == d {
            assert(l1[i] == '=');
        } else if i < e {
            assert(l1[i] == p2[i - d - 1]);
        } else if i < f {
            assert(l1[i] == v[i - e]);
        } else {
            assert(l1[i] == p3[i - f]);
        }
    }
    assert forall|i: int| 0 <= i < l2.len() implies l2[i] != '\n' by {
        let n = k.len() as int;
        if i < n {
            assert(l2[i] == k[i]);
        } else if i >= n + 3 {
            assert(l2[i] == v[i - n - 3]);
        }
    }
    lemma_apply_appended_line(c, l1);
    lemma_apply_appended_line(c, l2);
    let st = apply_lines(pieces(c, '\n'));
    lemma_padded_line(st, k, v, p0, p1, p2, p3);
    assert(k + seq![' '] + seq!['='] + seq![' '] + v + Seq::<char>::empty() =~= l2);
    assert forall|i: int| 0 <= i < 1 implies unicode_white_space(#[trigger] seq![' '][i]) by {}
    assert forall|i: int| 0 <= i < 0 implies unicode_white_space(#[trigger] Seq::<char>::empty()[i]) by {}
    lemma_padded_line(st, k, v, Seq::empty(), seq![' '], seq![' '], Seq::empty());
    assert(Seq::<char>::empty() + k + seq![' '] + seq!['='] + seq![' '] + v + Seq::<char>::empty()
        =~= l2);
}

} // verus!

verus! {

/// What one `key = value` line does, setting by setting: in section
/// `ai_chat`, `url` and `name` take the value, `paste_delay` takes its
/// number or 3 when it is not one; in `upload`, `imgur_client_id` takes
/// the value; in `engines`, `enabled` takes the listed names unless the
/// list is empty. Every other setting keeps its value.
pub proof fn lemma_setting_lines(c: Seq<char>, l: Seq<char>)
    requires
        forall|i: int| 0 <= i < l.len() ==> l[i] != '\n',
        !is_header(strip(l, CharClass::Space)),
        strip(l, CharClass::Space).len() > 0,
        strip(l, CharClass::Space)[0] != '#',
        find_char(strip(l, CharClass::Space), '=') is Some,
    ensures
        ({
            let t = strip(l, CharClass::Space);
            let i = find_char(t, '=')->0;
            let key = strip(t.take(i), CharClass::Space);
            let value = strip(strip(t.skip(i + 1), CharClass::Space), CharClass::Quote);
            let sec = section_after(c);
            let before = parse_config(c);
            let after = parse_config(c + seq!['\n'] + l);
            &&& section_after(c + seq!['\n'] + l) == sec
            &&& (sec == "ai_chat"@ && key == "url"@) ==> after == ConfigView {
                ai_chat_url: value,
                ..before
            }
            &&& (sec == "ai_chat"@ && key == "name"@) ==> after == ConfigView {
                ai_chat_name: value,
                ..before
            }
            &&& (sec == "ai_chat"@ && key == "paste_delay"@) ==> after == ConfigView {
                paste_delay_secs: if parse_u64(value) is Some {
                    parse_u64(value)->0
                } else {
                    3
                },
                ..before
            }
            &&& (sec == "upload"@ && key == "imgur_client_id"@) ==> after == ConfigView {
                imgur_client_id: value,
                ..before
            }
            &&& (sec == "engines"@ && key == "enabled"@ && engine_list(value).len() > 0) ==> after
                == ConfigView { enabled_engines: engine_list(value), ..before }
            &&& (sec == "engines"@ && key == "enabled"@ && engine_list(value).len() == 0)
                ==> after == before
        }),
{
    lemma_apply_appended_line(c, l);
    reveal_strlit("ai_chat");
    reveal_strlit("upload");
    reveal_strlit("engines");
    reveal_strlit("url");
    reveal_strlit("name");
    reveal_strlit("paste_delay");
    reveal_strlit("imgur_client_id");
    reveal_strlit("enabled");
    assert("ai_chat"@[0] != "engines"@[0]);
    assert("ai_chat"@.len() != "upload"@.len());
    assert("engines"@.len() != "upload"@.len());
    assert("url"@.len() != "name"@.len());
}

} // verus!
