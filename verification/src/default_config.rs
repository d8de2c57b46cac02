//! The configuration file written on first run.
use vstd::prelude::*;
use crate::config::{
    ConfigView, clean_name, clean_names, default_engine_names, engine_list, DEFAULT_CONFIG, apply_line, apply_lines, assign, default_config, is_header,
    parse_config,
};
use crate::text::{
    CharClass, find_char, in_class, is_ws, lemma_find_char_at, lemma_pieces_concat,
    lemma_pieces_single, pieces, strip, strip_end, strip_start,
};

verus! {

/// The lines of [`DEFAULT_CONFIG`].
pub open spec fn default_file_lines() -> Seq<Seq<char>> {
    seq![
        "# Circle Search — configuration"@,
        ""@,
        "[engines]"@,
        "# Remove or reorder engines. Available: lens, yandex, bing, ai_chat, tineye, saucenao"@,
        "enabled = [\"lens\", \"yandex\", \"bing\", \"ai_chat\", \"tineye\", \"saucenao\"]"@,
        ""@,
        "[ai_chat]"@,
        "url = \"https://chatgpt.com\""@,
        "name = \"ChatGPT\""@,
        "# paste_delay = 3   # seconds to wait for browser to load before auto-pasting"@,
        ""@,
        "[upload]"@,
        "# imgur_client_id = \"your_client_id_here\"   # override if the default hits rate limits"@,
        ""@,
    ]
}

/// The text of [`DEFAULT_CONFIG`] is its lines joined by newlines.
proof fn lemma_default_text()
    ensures
        DEFAULT_CONFIG@ == ("# Circle Search — configuration"@ + seq!['\n'] + (""@ + seq!['\n'] + ("[engines]"@ + seq!['\n'] + ("# Remove or reorder engines. Available: lens, yandex, bing, ai_chat, tineye, saucenao"@ + seq!['\n'] + ("enabled = [\"lens\", \"yandex\", \"bing\", \"ai_chat\", \"tineye\", \"saucenao\"]"@ + seq!['\n'] + (""@ + seq!['\n'] + ("[ai_chat]"@ + seq!['\n'] + ("url = \"https://chatgpt.com\""@ + seq!['\n'] + ("name = \"ChatGPT\""@ + seq!['\n'] + ("# paste_delay = 3   # seconds to wait for browser to load before auto-pasting"@ + seq!['\n'] + (""@ + seq!['\n'] + ("[upload]"@ + seq!['\n'] + ("# imgur_client_id = \"your_client_id_here\"   # override if the default hits rate limits"@ + seq!['\n'] + ""@))))))))))))),
{
    reveal_strlit("\
# Circle Search — configuration

[engines]
# Remove or reorder engines. Available: lens, yandex, bing, ai_chat, tineye, saucenao
enabled = [\"lens\", \"yandex\", \"bing\", \"ai_chat\", \"tineye\", \"saucenao\"]

[ai_chat]
url = \"https://chatgpt.com\"
name = \"ChatGPT\"
# paste_delay = 3   # seconds to wait for browser to load before auto-pasting

[upload]
# imgur_client_id = \"your_client_id_here\"   # override if the default hits rate limits
");
    reveal_strlit("");
    reveal_strlit("# Circle Search — configuration");
    reveal_strlit("# Remove or reorder engines. Available: lens, yandex, bing, ai_chat, tineye, saucenao");
    reveal_strlit("# imgur_client_id = \"your_client_id_here\"   # override if the default hits rate limits");
    reveal_strlit("# paste_delay = 3   # seconds to wait for browser to load before auto-pasting");
    reveal_strlit("[ai_chat]");
    reveal_strlit("[engines]");
    reveal_strlit("[upload]");
    reveal_strlit("enabled = [\"lens\", \"yandex\", \"bing\", \"ai_chat\", \"tineye\", \"saucenao\"]");
    reveal_strlit("name = \"ChatGPT\"");
    reveal_strlit("url = \"https://chatgpt.com\"");
}

/// Pieces joined by a separator.
pub open spec fn join_lines(ls: Seq<Seq<char>>, sep: char) -> Seq<char>
    decreases ls.len(),
{
    if ls.len() <= 1 {
        if ls.len() == 1 {
            ls[0]
        } else {
            Seq::empty()
        }
    } else {
        ls[0] + seq![sep] + join_lines(ls.drop_first(), sep)
    }
}

/// Joining pieces free of the separator and cutting at it gives them back.
proof fn lemma_pieces_join(ls: Seq<Seq<char>>, sep: char)
    requires
        ls.len() >= 1,
        forall|i: int, j: int| 0 <= i < ls.len() && 0 <= j < ls[i].len() ==> #[trigger] ls[i][j] != sep,
    ensures
        pieces(join_lines(ls, sep), sep) == ls,
    decreases ls.len(),
{
    assert forall|j: int| 0 <= j < ls[0].len() implies ls[0][j] != sep by {
        assert(ls[0][j] != sep);
    }
    lemma_pieces_single(ls[0], sep);
    if ls.len() == 1 {
        assert(seq![ls[0]] =~= ls);
    } else {
        let rest = ls.drop_first();
        assert forall|i: int, j: int| 0 <= i < rest.len() && 0 <= j < rest[i].len() implies #[trigger] rest[i][j] != sep by {
            assert(rest[i] == ls[i + 1]);
            assert(ls[i + 1][j] != sep);
        }
        lemma_pieces_join(rest, sep);
        lemma_pieces_concat(ls[0], join_lines(rest, sep), sep);
        assert(seq![ls[0]] + rest =~= ls);
    }
}

/// The default file cuts into [`default_file_lines`].
proof fn lemma_default_pieces()
    ensures
        pieces(DEFAULT_CONFIG@, '\n') == default_file_lines(),
{
    lemma_default_text();
    let ls = default_file_lines();
    assert(DEFAULT_CONFIG@ == join_lines(ls, '\n')) by {
        reveal_with_fuel(join_lines, 15);
        assert(ls.drop_first() =~= seq![ls[1], ls[2], ls[3], ls[4], ls[5], ls[6], ls[7], ls[8], ls[9], ls[10], ls[11], ls[12], ls[13]]);
    }
    assert forall|i: int, j: int| 0 <= i < ls.len() && 0 <= j < ls[i].len() implies #[trigger] ls[i][j] != '\n' by {
        reveal_strlit("");
        reveal_strlit("# Circle Search — configuration");
        reveal_strlit("# Remove or reorder engines. Available: lens, yandex, bing, ai_chat, tineye, saucenao");
        reveal_strlit("# imgur_client_id = \"your_client_id_here\"   # override if the default hits rate limits");
        reveal_strlit("# paste_delay = 3   # seconds to wait for browser to load before auto-pasting");
        reveal_strlit("[ai_chat]");
        reveal_strlit("[engines]");
        reveal_strlit("[upload]");
        reveal_strlit("enabled = [\"lens\", \"yandex\", \"bing\", \"ai_chat\", \"tineye\", \"saucenao\"]");
        reveal_strlit("name = \"ChatGPT\"");
        reveal_strlit("url = \"https://chatgpt.com\"");
    }
    lemma_pieces_join(ls, '\n');
}


/// Nothing to strip when neither end is of the class.
proof fn lemma_strip_untouched(s: Seq<char>, cls: CharClass)
    requires
        s.len() > 0,
        !in_class(cls, s[0]),
        !in_class(cls, s.last()),
    ensures
        strip(s, cls) == s,
{
    assert(strip_start(s, cls) == s);
    assert(strip_end(s, cls) == s);
}

/// One character of the class at each end is stripped.
proof fn lemma_strip_wrapped(c0: char, u: Seq<char>, c1: char, cls: CharClass)
    requires
        in_class(cls, c0),
        in_class(cls, c1),
        u.len() > 0,
        !in_class(cls, u[0]),
        !in_class(cls, u.last()),
    ensures
        strip(seq![c0] + u + seq![c1], cls) == u,
{
    let s = seq![c0] + u + seq![c1];
    assert(s.drop_first() =~= u.push(c1));
    assert(u.push(c1)[0] == u[0]);
    assert(strip_start(u.push(c1), cls) == u.push(c1));
    assert(strip_start(s, cls) == u.push(c1));
    assert(u.push(c1).drop_last() =~= u);
    assert(strip_end(u, cls) == u);
    assert(strip_end(u.push(c1), cls) == u);
}

/// A leading space is stripped.
proof fn lemma_strip_leading_space(v: Seq<char>)
    requires
        v.len() > 0,
        !is_ws(v[0]),
        !is_ws(v.last()),
    ensures
        strip(seq![' '] + v, CharClass::Space) == v,
{
    let s = seq![' '] + v;
    assert(s.drop_first() =~= v);
    assert(strip_start(v, CharClass::Space) == v);
    assert(strip_start(s, CharClass::Space) == v);
    assert(strip_end(v, CharClass::Space) == v);
}

/// A trailing space is stripped.
proof fn lemma_strip_trailing_space(k: Seq<char>)
    requires
        k.len() > 0,
        !is_ws(k[0]),
        !is_ws(k.last()),
    ensures
        strip(k.push(' '), CharClass::Space) == k,
{
    let s = k.push(' ');
    assert(s[0] == k[0]);
    assert(strip_start(s, CharClass::Space) == s);
    assert(s.drop_last() =~= k);
    assert(strip_end(k, CharClass::Space) == k);
}

/// The effect of a line `k = v`.
proof fn lemma_key_line(st: (Seq<char>, ConfigView), k: Seq<char>, v: Seq<char>)
    requires
        k.len() > 0,
        v.len() > 0,
        forall|i: int| 0 <= i < k.len() ==> k[i] != '=',
        !is_ws(k[0]),
        !is_ws(k.last()),
        k[0] != '#',
        k[0] != '[',
        !is_ws(v[0]),
        !is_ws(v.last()),
    ensures
        apply_line(st, k + seq![' ', '=', ' '] + v) == (
            st.0,
            assign(st.1, st.0, k, strip(v, CharClass::Quote)),
        ),
{
    let line = k + seq![' ', '=', ' '] + v;
    let n = k.len() as int;
    assert(line[0] == k[0]);
    assert(line.last() == v.last());
    lemma_strip_untouched(line, CharClass::Space);
    assert(!is_header(line));
    assert forall|i: int| 0 <= i < n + 1 implies line[i] != '=' by {
        if i < n {
            assert(line[i] == k[i]);
        }
    }
    assert(line[n + 1] == '=');
    lemma_find_char_at(line, '=', n + 1);
    assert(line.take(n + 1) =~= k.push(' '));
    lemma_strip_trailing_space(k);
    assert(line.skip(n + 2) =~= seq![' '] + v);
    lemma_strip_leading_space(v);
}

/// The effect of a header line `[s]`.
proof fn lemma_header_line(st: (Seq<char>, ConfigView), s: Seq<char>)
    ensures
        apply_line(st, seq!['['] + s + seq![']']) == (s, st.1),
{
    let h = seq!['['] + s + seq![']'];
    assert(h[0] == '[' && h.last() == ']');
    lemma_strip_untouched(h, CharClass::Space);
    assert(h.subrange(1, h.len() - 1) =~= s);
}

/// A comment line changes nothing.
proof fn lemma_comment_line(st: (Seq<char>, ConfigView), l: Seq<char>)
    requires
        l.len() > 0,
        l[0] == '#',
        !is_ws(l.last()),
    ensures
        apply_line(st, l) == st,
{
    lemma_strip_untouched(l, CharClass::Space);
}

/// A blank line changes nothing.
proof fn lemma_blank_line(st: (Seq<char>, ConfigView))
    ensures
        apply_line(st, Seq::empty()) == st,
{
    assert(strip(Seq::<char>::empty(), CharClass::Space) =~= Seq::<char>::empty());
}


/// The engine list of the default file names every engine, in menu order.
proof fn lemma_default_engine_list()
    ensures
        engine_list("[\"lens\", \"yandex\", \"bing\", \"ai_chat\", \"tineye\", \"saucenao\"]"@)
            == default_engine_names(),
{
    let v = "[\"lens\", \"yandex\", \"bing\", \"ai_chat\", \"tineye\", \"saucenao\"]"@;
    let inner = "\"lens\", \"yandex\", \"bing\", \"ai_chat\", \"tineye\", \"saucenao\""@;
    reveal_strlit("[\"lens\", \"yandex\", \"bing\", \"ai_chat\", \"tineye\", \"saucenao\"]");
    reveal_strlit("\"lens\", \"yandex\", \"bing\", \"ai_chat\", \"tineye\", \"saucenao\"");
    assert(v =~= seq!['['] + inner + seq![']']);
    lemma_strip_wrapped('[', inner, ']', CharClass::Bracket);
    let ps = seq![
        "\"lens\""@,
        " \"yandex\""@,
        " \"bing\""@,
        " \"ai_chat\""@,
        " \"tineye\""@,
        " \"saucenao\""@,
    ];
    reveal_strlit("\"lens\"");
    reveal_strlit(" \"yandex\"");
    reveal_strlit(" \"bing\"");
    reveal_strlit(" \"ai_chat\"");
    reveal_strlit(" \"tineye\"");
    reveal_strlit(" \"saucenao\"");
    assert(inner == join_lines(ps, ',')) by {
        reveal_with_fuel(join_lines, 7);
        assert(ps.drop_first() =~= seq![ps[1], ps[2], ps[3], ps[4], ps[5]]);
        assert(ps.drop_first().drop_first() =~= seq![ps[2], ps[3], ps[4], ps[5]]);
        assert(ps.drop_first().drop_first().drop_first() =~= seq![ps[3], ps[4], ps[5]]);
        assert(ps.drop_first().drop_first().drop_first().drop_first() =~= seq![ps[4], ps[5]]);
        assert(ps.drop_first().drop_first().drop_first().drop_first().drop_first() =~= seq![
            ps[5],
        ]);
    }
    assert forall|i: int, j: int| 0 <= i < ps.len() && 0 <= j < ps[i].len() implies #[trigger] ps[i][j]
        != ',' by {}
    lemma_pieces_join(ps, ',');
    reveal_strlit("lens");
    reveal_strlit("yandex");
    reveal_strlit("bing");
    reveal_strlit("ai_chat");
    reveal_strlit("tineye");
    reveal_strlit("saucenao");
    let names = default_engine_names();
    assert forall|i: int| 0 <= i < 6 implies clean_name(#[trigger] ps[i]) == names[i] by {
        let q = seq!['"'] + names[i] + seq!['"'];
        if i == 0 {
            assert(ps[i] =~= q);
            lemma_strip_untouched(q, CharClass::Space);
        } else {
            assert(ps[i] =~= seq![' '] + q);
            lemma_strip_leading_space(q);
        }
        lemma_strip_wrapped('"', names[i], '"', CharClass::Quote);
    }
    assert forall|k: int| 0 <= k < 6 implies #[trigger] ps.take(k + 1).drop_last() =~= ps.take(k)
        && ps.take(k + 1).last() == ps[k] by {}
    assert(clean_names(ps.take(0)) =~= Seq::<Seq<char>>::empty());
    assert(ps.take(1).drop_last() =~= ps.take(0));
    assert(clean_names(ps.take(1)) =~= names.take(1));
    assert(ps.take(2).drop_last() =~= ps.take(1));
    assert(clean_names(ps.take(2)) =~= names.take(2));
    assert(ps.take(3).drop_last() =~= ps.take(2));
    assert(clean_names(ps.take(3)) =~= names.take(3));
    assert(ps.take(4).drop_last() =~= ps.take(3));
    assert(clean_names(ps.take(4)) =~= names.take(4));
    assert(ps.take(5).drop_last() =~= ps.take(4));
    assert(clean_names(ps.take(5)) =~= names.take(5));
    assert(ps.take(6).drop_last() =~= ps.take(5));
    assert(clean_names(ps.take(6)) =~= names.take(6));
    assert(ps.take(6) =~= ps);
    assert(names.take(6) =~= names);
}


/// The file written on first run loads as the default settings: parsing
/// [`DEFAULT_CONFIG`] gives [`default_config`], and the section in force
/// at its end is `upload`.
pub proof fn lemma_default_file_parses_to_defaults()
    ensures
        parse_config(DEFAULT_CONFIG@) == default_config(),
        apply_lines(pieces(DEFAULT_CONFIG@, '\n')) == ("upload"@, default_config()),
{
    lemma_default_pieces();
    let ls = default_file_lines();
    let d = default_config();
    let e = Seq::<char>::empty();
    reveal_strlit(" \"ai_chat\"");
    reveal_strlit(" \"bing\"");
    reveal_strlit(" \"saucenao\"");
    reveal_strlit(" \"tineye\"");
    reveal_strlit(" \"yandex\"");
    reveal_strlit("");
    reveal_strlit("# Circle Search — configuration");
    reveal_strlit("# Remove or reorder engines. Available: lens, yandex, bing, ai_chat, tineye, saucenao");
    reveal_strlit("# imgur_client_id = \"your_client_id_here\"   # override if the default hits rate limits");
    reveal_strlit("# paste_delay = 3   # seconds to wait for browser to load before auto-pasting");
    reveal_strlit("[ai_chat]");
    reveal_strlit("[engines]");
    reveal_strlit("[upload]");
    reveal_strlit("\"lens\"");
    reveal_strlit("enabled = [\"lens\", \"yandex\", \"bing\", \"ai_chat\", \"tineye\", \"saucenao\"]");
    reveal_strlit("name = \"ChatGPT\"");
    reveal_strlit("url = \"https://chatgpt.com\"");
    reveal_strlit("engines");
    reveal_strlit("ai_chat");
    reveal_strlit("upload");
    reveal_strlit("enabled");
    reveal_strlit("url");
    reveal_strlit("name");
    reveal_strlit("paste_delay");
    reveal_strlit("imgur_client_id");
    reveal_strlit("https://chatgpt.com");
    reveal_strlit("ChatGPT");
    reveal_strlit("\"https://chatgpt.com\"");
    reveal_strlit("\"ChatGPT\"");
    reveal_strlit("[\"lens\", \"yandex\", \"bing\", \"ai_chat\", \"tineye\", \"saucenao\"]");
    assert(ls.take(1).drop_last() =~= ls.take(0));
    assert(ls.take(1).last() == ls[0]);
    assert(ls.take(2).drop_last() =~= ls.take(1));
    assert(ls.take(2).last() == ls[1]);
    assert(ls.take(3).drop_last() =~= ls.take(2));
    assert(ls.take(3).last() == ls[2]);
    assert(ls.take(4).drop_last() =~= ls.take(3));
    assert(ls.take(4).last() == ls[3]);
    assert(ls.take(5).drop_last() =~= ls.take(4));
    assert(ls.take(5).last() == ls[4]);
    assert(ls.take(6).drop_last() =~= ls.take(5));
    assert(ls.take(6).last() == ls[5]);
    assert(ls.take(7).drop_last() =~= ls.take(6));
    assert(ls.take(7).last() == ls[6]);
    assert(ls.take(8).drop_last() =~= ls.take(7));
    assert(ls.take(8).last() == ls[7]);
    assert(ls.take(9).drop_last() =~= ls.take(8));
    assert(ls.take(9).last() == ls[8]);
    assert(ls.take(10).drop_last() =~= ls.take(9));
    assert(ls.take(10).last() == ls[9]);
    assert(ls.take(11).drop_last() =~= ls.take(10));
    assert(ls.take(11).last() == ls[10]);
    assert(ls.take(12).drop_last() =~= ls.take(11));
    assert(ls.take(12).last() == ls[11]);
    assert(ls.take(13).drop_last() =~= ls.take(12));
    assert(ls.take(13).last() == ls[12]);
    assert(ls.take(14).drop_last() =~= ls.take(13));
    assert(ls.take(14).last() == ls[13]);
    assert(ls.take(14) =~= ls);
    let ev = "[\"lens\", \"yandex\", \"bing\", \"ai_chat\", \"tineye\", \"saucenao\"]"@;
    let q = seq![' ', '=', ' '];
    // Line 0: a comment.
    let st0 = (e, d);
    assert(apply_lines(ls.take(0)) == st0);
    lemma_comment_line(st0, ls[0]);
    assert(apply_lines(ls.take(1)) == st0);
    // Line 1: blank.
    assert(ls[1] =~= e);
    lemma_blank_line(st0);
    assert(apply_lines(ls.take(2)) == st0);
    // Line 2: [engines].
    assert(ls[2] =~= seq!['['] + "engines"@ + seq![']']);
    lemma_header_line(st0, "engines"@);
    let st1 = ("engines"@, d);
    assert(apply_lines(ls.take(3)) == st1);
    // Line 3: a comment.
    lemma_comment_line(st1, ls[3]);
    assert(apply_lines(ls.take(4)) == st1);
    // Line 4: the engine list.
    assert(ls[4] =~= "enabled"@ + q + ev);
    lemma_key_line(st1, "enabled"@, ev);
    lemma_strip_untouched(ev, CharClass::Quote);
    lemma_default_engine_list();
    assert("engines"@[0] != "ai_chat"@[0]);
    assert("engines"@ != "upload"@);
    assert(assign(d, "engines"@, "enabled"@, ev) == d);
    assert(apply_lines(ls.take(5)) == st1);
    // Line 5: blank.
    assert(ls[5] =~= e);
    lemma_blank_line(st1);
    assert(apply_lines(ls.take(6)) == st1);
    // Line 6: [ai_chat].
    assert(ls[6] =~= seq!['['] + "ai_chat"@ + seq![']']);
    lemma_header_line(st1, "ai_chat"@);
    let st2 = ("ai_chat"@, d);
    assert(apply_lines(ls.take(7)) == st2);
    // Line 7: the chat URL.
    let uq = "\"https://chatgpt.com\""@;
    assert(ls[7] =~= "url"@ + q + uq);
    lemma_key_line(st2, "url"@, uq);
    assert(uq =~= seq!['"'] + "https://chatgpt.com"@ + seq!['"']);
    lemma_strip_wrapped('"', "https://chatgpt.com"@, '"', CharClass::Quote);
    assert(assign(d, "ai_chat"@, "url"@, "https://chatgpt.com"@) == d);
    assert(apply_lines(ls.take(8)) == st2);
    // Line 8: the chat name.
    let nq = "\"ChatGPT\""@;
    assert(ls[8] =~= "name"@ + q + nq);
    lemma_key_line(st2, "name"@, nq);
    assert(nq =~= seq!['"'] + "ChatGPT"@ + seq!['"']);
    lemma_strip_wrapped('"', "ChatGPT"@, '"', CharClass::Quote);
    assert("name"@ != "url"@);
    assert(assign(d, "ai_chat"@, "name"@, "ChatGPT"@) == d);
    assert(apply_lines(ls.take(9)) == st2);
    // Line 9: a comment.
    lemma_comment_line(st2, ls[9]);
    assert(apply_lines(ls.take(10)) == st2);
    // Line 10: blank.
    assert(ls[10] =~= e);
    lemma_blank_line(st2);
    assert(apply_lines(ls.take(11)) == st2);
    // Line 11: [upload].
    assert(ls[11] =~= seq!['['] + "upload"@ + seq![']']);
    lemma_header_line(st2, "upload"@);
    let st3 = ("upload"@, d);
    assert(apply_lines(ls.take(12)) == st3);
    // Line 12: a comment.
    lemma_comment_line(st3, ls[12]);
    assert(apply_lines(ls.take(13)) == st3);
    // Line 13: the empty piece after the final newline.
    assert(ls[13] =~= e);
    lemma_blank_line(st3);
    assert(apply_lines(ls.take(14)) == st3);
}

} // verus!

verus! {

/// The first-run write does not change what later runs load: the first
/// run, which finds no file, loads the defaults, and every later run reads
/// the file that was written and loads the same settings.
pub proof fn lemma_first_run_matches_later_runs()
    ensures
        crate::config::loaded_config(Some(DEFAULT_CONFIG@)) == crate::config::loaded_config(None),
{
    lemma_default_file_parses_to_defaults();
}

} // verus!
