//! Colours of the current Omarchy theme (`colors.toml`).
use vstd::prelude::*;
use crate::text::{
    CharClass, chars_of, find_char, find_in_range, pieces, range_eq, range_seqs, split_ranges,
    strip, strip_range, strip_start, strip_start_range,
};

verus! {

/// A colour as red, green and blue bytes.
#[derive(Clone, Copy, PartialEq, Eq, Structural, Debug)]
pub struct Rgb {
    pub r: u8,
    pub g: u8,
    pub b: u8,
}

/// Number of bytes that UTF-8 takes for a character.
pub open spec fn utf8_width(c: char) -> nat {
    let u = c as u32;
    if u < 0x80 {
        1
    } else if u < 0x800 {
        2
    } else if u < 0x10000 {
        3
    } else {
        4
    }
}

/// Number of bytes that UTF-8 takes for a character sequence (`str::len`).
pub open spec fn byte_len(s: Seq<char>) -> nat
    decreases s.len(),
{
    if s.len() == 0 {
        0
    } else {
        byte_len(s.drop_last()) + utf8_width(s.last())
    }
}

/// Value of a hexadecimal digit (either case).
pub open spec fn hex_digit(c: char) -> Option<u8> {
    if '0' <= c && c <= '9' {
        Some(((c as u32) - 48) as u8)
    } else if 'a' <= c && c <= 'f' {
        Some(((c as u32) - 87) as u8)
    } else if 'A' <= c && c <= 'F' {
        Some(((c as u32) - 55) as u8)
    } else {
        None
    }
}

/// What `u8::from_str_radix(s, 16)` gives for a two-character string `ab`:
/// an optional `+` then hexadecimal digits.
pub open spec fn hex_byte(a: char, b: char) -> Option<u8> {
    if a == '+' {
        hex_digit(b)
    } else {
        match (hex_digit(a), hex_digit(b)) {
            (Some(x), Some(y)) => Some((16 * x + y) as u8),
            _ => None,
        }
    }
}

/// Whether taking the first two bytes of `h` as a string slice panics
/// because byte 2 falls inside a character.
pub open spec fn pair_panics(h: Seq<char>) -> bool {
    !(h.len() >= 2 && utf8_width(h[0]) == 1 && utf8_width(h[1]) == 1) && !(h.len() >= 1
        && utf8_width(h[0]) == 2)
}

/// The byte that the first two bytes of `h` spell in hexadecimal: `None`
/// when they are one two-byte character or not a number.
pub open spec fn pair_value(h: Seq<char>) -> Option<u8> {
    if h.len() >= 2 && utf8_width(h[0]) == 1 && utf8_width(h[1]) == 1 {
        hex_byte(h[0], h[1])
    } else {
        None
    }
}

/// A colour value without surrounding white space and leading `#`s.
pub open spec fn hex_body(hex: Seq<char>) -> Seq<char> {
    strip_start(strip(hex, CharClass::Space), CharClass::Hash)
}

/// Whether reading a colour value cuts a character apart (the byte slices
/// `0..2`, `2..4`, `4..6` of a six-byte body, each taken only once the
/// previous one parsed).
pub open spec fn hex_panics(hex: Seq<char>) -> bool {
    let h = hex_body(hex);
    byte_len(h) == 6 && (pair_panics(h) || (pair_value(h) is Some && (pair_panics(h.skip(2)) || (
    pair_value(h.skip(2)) is Some && pair_panics(h.skip(4))))))
}

/// The colour that a value such as `"#1e1e2e"` denotes: a body of exactly
/// six bytes whose three pairs each parse as a hexadecimal byte.
pub open spec fn hex_color(hex: Seq<char>) -> Option<Rgb> {
    let h = hex_body(hex);
    if byte_len(h) == 6 && pair_value(h) is Some && pair_value(h.skip(2)) is Some && pair_value(
        h.skip(4),
    ) is Some {
        Some(Rgb { r: pair_value(h)->0, g: pair_value(h.skip(2))->0, b: pair_value(h.skip(4))->0 })
    } else {
        None
    }
}

fn utf8_width_of(c: char) -> (w: usize)
    ensures
        w == utf8_width(c),
{
    let u = c as u32;
    if u < 0x80 {
        1
    } else if u < 0x800 {
        2
    } else if u < 0x10000 {
        3
    } else {
        4
    }
}

fn hex_digit_of(c: char) -> (d: Option<u8>)
    ensures
        d == hex_digit(c),
{
    if '0' <= c && c <= '9' {
        Some(((c as u32) - 48) as u8)
    } else if 'a' <= c && c <= 'f' {
        Some(((c as u32) - 87) as u8)
    } else if 'A' <= c && c <= 'F' {
        Some(((c as u32) - 55) as u8)
    } else {
        None
    }
}

fn hex_byte_of(a: char, b: char) -> (r: Option<u8>)
    ensures
        r == hex_byte(a, b),
{
    if a == '+' {
        hex_digit_of(b)
    } else {
        match (hex_digit_of(a), hex_digit_of(b)) {
            (Some(x), Some(y)) => Some(16 * x + y),
            _ => None,
        }
    }
}

/// Reads the pair at `lo` (within `lo..hi`): whether it panics, and its value.
fn pair_at(v: &Vec<char>, lo: usize, hi: usize) -> (r: (bool, Option<u8>))
    requires
        lo <= hi <= v@.len(),
    ensures
        r.0 == pair_panics(v@.subrange(lo as int, hi as int)),
        r.1 == pair_value(v@.subrange(lo as int, hi as int)),
{
    let ghost h = v@.subrange(lo as int, hi as int);
    if hi - lo >= 2 && utf8_width_of(v[lo]) == 1 && utf8_width_of(v[lo + 1]) == 1 {
        assert(h[0] == v@[lo as int] && h[1] == v@[lo + 1]);
        (false, hex_byte_of(v[lo], v[lo + 1]))
    } else if hi - lo >= 1 && utf8_width_of(v[lo]) == 2 {
        assert(h[0] == v@[lo as int]);
        (false, None)
    } else {
        assert(hi - lo >= 1 ==> h[0] == v@[lo as int]);
        assert(hi - lo >= 2 ==> h[1] == v@[lo + 1]);
        (true, None)
    }
}

/// Reads the colour value in `lo..hi`: whether it panics, and the colour.
fn hex_eval(v: &Vec<char>, lo: usize, hi: usize) -> (r: (bool, Option<Rgb>))
    requires
        lo <= hi <= v@.len(),
    ensures
        r.0 == hex_panics(v@.subrange(lo as int, hi as int)),
        !r.0 ==> r.1 == hex_color(v@.subrange(lo as int, hi as int)),
{
    let ghost hex = v@.subrange(lo as int, hi as int);
    let (a0, b) = strip_range(v, lo, hi, CharClass::Space);
    let a = strip_start_range(v, a0, b, CharClass::Hash);
    let ghost h = v@.subrange(a as int, b as int);
    assert(h == hex_body(hex));
    let mut total: usize = 0;
    let mut k = a;
    assert(v@.subrange(a as int, a as int) =~= Seq::<char>::empty());
    while k < b
        invariant
            a <= k <= b <= v@.len(),
            total <= 7,
            total == (if byte_len(v@.subrange(a as int, k as int)) < 7 {
                byte_len(v@.subrange(a as int, k as int))
            } else {
                7
            }),
        decreases b - k,
    {
        assert(v@.subrange(a as int, k + 1).drop_last() =~= v@.subrange(a as int, k as int));
        let w = utf8_width_of(v[k]);
        total = if total + w < 7 {
            total + w
        } else {
            7
        };
        k = k + 1;
    }
    if total != 6 {
        return (false, None);
    }
    let (p0, r0) = pair_at(v, a, b);
    if p0 {
        return (true, None);
    }
    let r = match r0 {
        Some(r) => r,
        None => return (false, None),
    };
    assert(h.skip(2) =~= v@.subrange(a + 2, b as int));
    let (p1, g0) = pair_at(v, a + 2, b);
    if p1 {
        return (true, None);
    }
    let g = match g0 {
        Some(g) => g,
        None => return (false, None),
    };
    assert(h.skip(4) =~= v@.subrange(a + 4, b as int));
    let (p2, b0) = pair_at(v, a + 4, b);
    if p2 {
        return (true, None);
    }
    match b0 {
        Some(bl) => (false, Some(Rgb { r, g, b: bl })),
        None => (false, None),
    }
}

/// Whether reading the colour value `hex` would cut a multi-byte
/// character apart (see [`hex_to_rgb`]).
pub fn hex_slice_panics(hex: &str) -> (b: bool)
    ensures
        b == hex_panics(hex@),
{
    let v = chars_of(hex);
    assert(v@.subrange(0, v@.len() as int) =~= v@);
    hex_eval(&v, 0, v.len()).0
}

/// The colour that a theme value such as `"#1e1e2e"` denotes: white space
/// trimmed, leading `#`s dropped, then exactly six bytes read as three
/// hexadecimal bytes (each an optional `+` and hexadecimal digits).
pub fn hex_to_rgb(hex: &str) -> (c: Option<Rgb>)
    requires
        !hex_panics(hex@),
    ensures
        c == hex_color(hex@),
{
    let v = chars_of(hex);
    assert(v@.subrange(0, v@.len() as int) =~= v@);
    hex_eval(&v, 0, v.len()).1
}

} // verus!

verus! {

/// The theme colours that `colors.toml` sets; `None` where a key is
/// missing or its value is not a colour.
#[derive(Clone, Copy, PartialEq, Eq, Structural, Debug)]
pub struct ThemeColors {
    pub background: Option<Rgb>,
    pub foreground: Option<Rgb>,
    pub accent: Option<Rgb>,
}

/// The value that a line `key = value` gives `key`: the text after the
/// first `=`, trimmed and unquoted, provided the trimmed text before it is
/// `key`.
pub open spec fn theme_entry(line: Seq<char>, key: Seq<char>) -> Option<Seq<char>> {
    match find_char(line, '=') {
        Some(i) => if strip(line.take(i), CharClass::Space) == key {
            Some(strip(strip(line.skip(i + 1), CharClass::Space), CharClass::Quote))
        } else {
            None
        },
        None => None,
    }
}

/// The value of `key` in a list of lines: that of the last line setting it.
pub open spec fn theme_lookup(lines: Seq<Seq<char>>, key: Seq<char>) -> Option<Seq<char>>
    decreases lines.len(),
{
    if lines.len() == 0 {
        None
    } else {
        match theme_entry(lines.last(), key) {
            Some(v) => Some(v),
            None => theme_lookup(lines.drop_last(), key),
        }
    }
}

/// The value of `key` in the text of `colors.toml`.
pub open spec fn theme_value(content: Seq<char>, key: Seq<char>) -> Option<Seq<char>> {
    theme_lookup(pieces(content, '\n'), key)
}

/// The colour of `key` in the text of `colors.toml`.
pub open spec fn theme_color(content: Seq<char>, key: Seq<char>) -> Option<Rgb> {
    match theme_value(content, key) {
        Some(v) => hex_color(v),
        None => None,
    }
}

/// Whether the value of `key` would cut a character apart when read.
pub open spec fn theme_key_panics(content: Seq<char>, key: Seq<char>) -> bool {
    match theme_value(content, key) {
        Some(v) => hex_panics(v),
        None => false,
    }
}

/// Whether reading the three colours of a theme file would cut a
/// character apart.
pub open spec fn theme_panics(content: Seq<char>) -> bool {
    theme_key_panics(content, "background"@) || theme_key_panics(content, "foreground"@)
        || theme_key_panics(content, "accent"@)
}

/// The colours that the text of `colors.toml` sets.
pub open spec fn theme_colors_of(content: Seq<char>) -> ThemeColors {
    ThemeColors {
        background: theme_color(content, "background"@),
        foreground: theme_color(content, "foreground"@),
        accent: theme_color(content, "accent"@),
    }
}

/// The value range that line `lo..hi` gives `key`, if it sets it.
fn theme_entry_range(v: &Vec<char>, lo: usize, hi: usize, key: &str) -> (r: Option<(usize, usize)>)
    requires
        lo <= hi <= v@.len(),
    ensures
        match r {
            Some(p) => p.0 <= p.1 <= v@.len() && theme_entry(
                v@.subrange(lo as int, hi as int),
                key@,
            ) == Some(v@.subrange(p.0 as int, p.1 as int)),
            None => theme_entry(v@.subrange(lo as int, hi as int), key@) is None,
        },
{
    let ghost line = v@.subrange(lo as int, hi as int);
    match find_in_range(v, lo, hi, '=') {
        None => None,
        Some(j) => {
            assert(line.take(j - lo) =~= v@.subrange(lo as int, j as int));
            assert(line.skip(j - lo + 1) =~= v@.subrange(j + 1, hi as int));
            let (ka, kb) = strip_range(v, lo, j, CharClass::Space);
            if range_eq(v, ka, kb, key) {
                let (c, d) = strip_range(v, j + 1, hi, CharClass::Space);
                Some(strip_range(v, c, d, CharClass::Quote))
            } else {
                None
            }
        },
    }
}

/// The value range of `key` among the lines of `v`.
fn theme_lookup_range(v: &Vec<char>, lines: &Vec<(usize, usize)>, key: &str) -> (r: Option<(usize, usize)>)
    requires
        forall|j: int| 0 <= j < lines@.len() ==> 0 <= #[trigger] lines@[j].0 <= lines@[j].1 <= v@.len(),
    ensures
        match r {
            Some(p) => p.0 <= p.1 <= v@.len() && theme_lookup(range_seqs(v@, lines@), key@) == Some(
                v@.subrange(p.0 as int, p.1 as int),
            ),
            None => theme_lookup(range_seqs(v@, lines@), key@) is None,
        },
{
    let ghost ls = range_seqs(v@, lines@);
    let mut found: Option<(usize, usize)> = None;
    let mut i: usize = 0;
    assert(ls.take(0) =~= Seq::<Seq<char>>::empty());
    while i < lines.len()
        invariant
            ls == range_seqs(v@, lines@),
            i <= lines@.len(),
            forall|j: int| 0 <= j < lines@.len() ==> 0 <= #[trigger] lines@[j].0 <= lines@[j].1 <= v@.len(),
            match found {
                Some(p) => p.0 <= p.1 <= v@.len() && theme_lookup(ls.take(i as int), key@) == Some(
                    v@.subrange(p.0 as int, p.1 as int),
                ),
                None => theme_lookup(ls.take(i as int), key@) is None,
            },
        decreases lines@.len() - i,
    {
        let (lo, hi) = lines[i];
        assert(0 <= lines@[i as int].0 <= lines@[i as int].1 <= v@.len());
        assert(ls.take(i + 1).drop_last() =~= ls.take(i as int));
        assert(ls.take(i + 1).last() == v@.subrange(lo as int, hi as int));
        match theme_entry_range(v, lo, hi, key) {
            Some(p) => {
                found = Some(p);
            },
            None => {},
        }
        i = i + 1;
    }
    assert(ls.take(lines@.len() as int) =~= ls);
    found
}

/// The colour of `key` among the lines of `v`, and whether reading it panics.
fn theme_color_range(v: &Vec<char>, lines: &Vec<(usize, usize)>, key: &str) -> (r: (bool, Option<Rgb>))
    requires
        forall|j: int| 0 <= j < lines@.len() ==> 0 <= #[trigger] lines@[j].0 <= lines@[j].1 <= v@.len(),
    ensures
        r.0 == (match theme_lookup(range_seqs(v@, lines@), key@) {
            Some(val) => hex_panics(val),
            None => false,
        }),
        !r.0 ==> r.1 == (match theme_lookup(range_seqs(v@, lines@), key@) {
            Some(val) => hex_color(val),
            None => None,
        }),
{
    match theme_lookup_range(v, lines, key) {
        Some((a, b)) => hex_eval(v, a, b),
        None => (false, None),
    }
}

/// Reads the colours of a theme file: the whole text, cut into lines.
fn theme_eval(content: &str) -> (r: (bool, ThemeColors))
    ensures
        r.0 == theme_panics(content@),
        !r.0 ==> r.1 == theme_colors_of(content@),
{
    let v = chars_of(content);
    let lines = split_ranges(&v, 0, v.len(), '\n');
    assert(v@.subrange(0, v@.len() as int) =~= content@);
    let (p0, bg) = theme_color_range(&v, &lines, "background");
    let (p1, fg) = theme_color_range(&v, &lines, "foreground");
    let (p2, ac) = theme_color_range(&v, &lines, "accent");
    (p0 || p1 || p2, ThemeColors { background: bg, foreground: fg, accent: ac })
}

/// Whether reading the colours of a theme file would cut a multi-byte
/// character apart (see [`parse_theme`]).
pub fn theme_slice_panics(content: &str) -> (b: bool)
    ensures
        b == theme_panics(content@),
{
    theme_eval(content).0
}

/// The colours that the text of `colors.toml` sets: for `background`,
/// `foreground` and `accent`, the last line `key = value` (key trimmed,
/// value trimmed and unquoted) read as a colour by [`hex_to_rgb`].
pub fn parse_theme(content: &str) -> (t: ThemeColors)
    requires
        !theme_panics(content@),
    ensures
        t == theme_colors_of(content@),
{
    theme_eval(content).1
}

} // verus!

verus! {

/// A later line setting a key overrides every earlier one: after a line
/// `key = v`, the key's value is `v` (trimmed and unquoted).
pub proof fn lemma_theme_last_value_wins(c: Seq<char>, l: Seq<char>, key: Seq<char>)
    requires
        forall|i: int| 0 <= i < l.len() ==> l[i] != '\n',
        theme_entry(l, key) is Some,
    ensures
        theme_value(c + seq!['\n'] + l, key) == theme_entry(l, key),
{
    crate::config::lemma_pieces_append_line(c, l);
    assert(pieces(c, '\n').push(l).drop_last() =~= pieces(c, '\n'));
}

/// Lines that set other keys leave a key's value as it was.
pub proof fn lemma_theme_other_keys_ignored(c: Seq<char>, l: Seq<char>, key: Seq<char>)
    requires
        forall|i: int| 0 <= i < l.len() ==> l[i] != '\n',
        theme_entry(l, key) is None,
    ensures
        theme_value(c + seq!['\n'] + l, key) == theme_value(c, key),
{
    crate::config::lemma_pieces_append_line(c, l);
    assert(pieces(c, '\n').push(l).drop_last() =~= pieces(c, '\n'));
}

} // verus!

verus! {

/// A sequence of one-byte characters takes one byte per character.
pub proof fn lemma_byte_len_ascii(s: Seq<char>)
    requires
        forall|i: int| 0 <= i < s.len() ==> utf8_width(#[trigger] s[i]) == 1,
    ensures
        byte_len(s) == s.len(),
    decreases s.len(),
{
    if s.len() > 0 {
        let t = s.drop_last();
        assert forall|i: int| 0 <= i < t.len() implies utf8_width(#[trigger] t[i]) == 1 by {
            assert(t[i] == s[i]);
        }
        lemma_byte_len_ascii(t);
    }
}

/// `#` followed by six hexadecimal digits reads as the three bytes they
/// spell.
pub proof fn lemma_hex_color_of_digits(h: Seq<char>)
    requires
        h.len() == 6,
        forall|i: int| 0 <= i < 6 ==> hex_digit(#[trigger] h[i]) is Some,
    ensures
        hex_color(seq!['#'] + h) == Some(
            Rgb {
                r: (16 * hex_digit(h[0])->0 + hex_digit(h[1])->0) as u8,
                g: (16 * hex_digit(h[2])->0 + hex_digit(h[3])->0) as u8,
                b: (16 * hex_digit(h[4])->0 + hex_digit(h[5])->0) as u8,
            },
        ),
{
    let s = seq!['#'] + h;
    assert(hex_digit(h[0]) is Some && hex_digit(h[1]) is Some && hex_digit(h[2]) is Some);
    assert(hex_digit(h[3]) is Some && hex_digit(h[4]) is Some && hex_digit(h[5]) is Some);
    assert(s[0] == '#');
    assert(s.last() == h[5]);
    assert(strip_start(s, CharClass::Space) == s);
    assert(crate::text::strip_end(s, CharClass::Space) == s);
    assert(strip(s, CharClass::Space) == s);
    assert(s.drop_first() =~= h);
    assert(strip_start(h, CharClass::Hash) == h);
    assert(strip_start(s, CharClass::Hash) == h);
    assert(hex_body(s) == h);
    assert forall|i: int| 0 <= i < h.len() implies utf8_width(#[trigger] h[i]) == 1 by {
        assert(hex_digit(h[i]) is Some);
    }
    lemma_byte_len_ascii(h);
    assert(h.skip(2)[0] == h[2] && h.skip(2)[1] == h[3]);
    assert(h.skip(4)[0] == h[4] && h.skip(4)[1] == h[5]);
}

} // verus!

verus! {

/// `utf8_width` is the length of a character's UTF-8 encoding.
proof fn lemma_utf8_width_encoding(c: char)
    ensures
        vstd::utf8::encode_scalar(c as u32).len() == utf8_width(c),
{
    vstd::utf8::char_is_scalar(c);
}

/// Encoding is additive over appending a character.
proof fn lemma_encode_push(s: Seq<char>, c: char)
    ensures
        vstd::utf8::encode_utf8(s.push(c)).len() == vstd::utf8::encode_utf8(s).len() + utf8_width(c),
    decreases s.len(),
{
    if s.len() == 0 {
        assert(s.push(c).drop_first() =~= Seq::<char>::empty());
        assert(s.push(c)[0] == c);
        assert(vstd::utf8::encode_utf8(Seq::<char>::empty()).len() == 0);
        assert(vstd::utf8::encode_utf8(s).len() == 0);
        lemma_utf8_width_encoding(c);
        assert(vstd::utf8::encode_utf8(s.push(c)) == vstd::utf8::encode_scalar(c as u32)
            + vstd::utf8::encode_utf8(s.push(c).drop_first()));
    } else {
        lemma_encode_push(s.drop_first(), c);
        assert(s.push(c).drop_first() =~= s.drop_first().push(c));
        assert(s.push(c)[0] == s[0]);
        assert(vstd::utf8::encode_utf8(s.push(c)) == vstd::utf8::encode_scalar(s[0] as u32)
            + vstd::utf8::encode_utf8(s.push(c).drop_first()));
        assert(vstd::utf8::encode_utf8(s) == vstd::utf8::encode_scalar(s[0] as u32)
            + vstd::utf8::encode_utf8(s.drop_first()));
    }
}

/// `byte_len` is the UTF-8 length of the sequence, which is what
/// `str::len` returns.
pub proof fn lemma_byte_len_is_utf8_len(s: Seq<char>)
    ensures
        byte_len(s) == vstd::utf8::encode_utf8(s).len(),
    decreases s.len(),
{
    if s.len() > 0 {
        lemma_byte_len_is_utf8_len(s.drop_last());
        lemma_encode_push(s.drop_last(), s.last());
        assert(s.drop_last().push(s.last()) =~= s);
    }
}

} // verus!

verus! {

/// The key of a line: the trimmed text before its first `=`, if it has one.
pub open spec fn line_key(l: Seq<char>) -> Option<Seq<char>> {
    match find_char(l, '=') {
        Some(i) => Some(strip(l.take(i), CharClass::Space)),
        None => None,
    }
}

/// Keys are matched exactly: a line whose key is not exactly `key` (such
/// as `selection_background` for `background`), or that has no `=`, leaves
/// the value of `key` as it was; a line whose key is exactly `key` sets it
/// to the line's trimmed, unquoted text after the first `=`.
pub proof fn lemma_theme_keys_match_exactly(c: Seq<char>, l: Seq<char>, key: Seq<char>)
    requires
        forall|i: int| 0 <= i < l.len() ==> l[i] != '\n',
    ensures
        line_key(l) != Some(key) ==> theme_value(c + seq!['\n'] + l, key) == theme_value(c, key),
        line_key(l) == Some(key) ==> theme_value(c + seq!['\n'] + l, key) == Some(
            strip(
                strip(l.skip(find_char(l, '=')->0 + 1), CharClass::Space),
                CharClass::Quote,
            ),
        ),
{
    crate::config::lemma_pieces_append_line(c, l);
    assert(pieces(c, '\n').push(l).drop_last() =~= pieces(c, '\n'));
    assert(pieces(c, '\n').push(l).last() == l);
}

/// In particular each of the three colours is read only from lines whose
/// key is exactly its name: appending a line with any other key leaves it
/// as it was.
pub proof fn lemma_theme_colors_other_lines(c: Seq<char>, l: Seq<char>)
    requires
        forall|i: int| 0 <= i < l.len() ==> l[i] != '\n',
    ensures
        line_key(l) != Some("background"@) ==> theme_colors_of(c + seq!['\n'] + l).background
            == theme_colors_of(c).background,
        line_key(l) != Some("foreground"@) ==> theme_colors_of(c + seq!['\n'] + l).foreground
            == theme_colors_of(c).foreground,
        line_key(l) != Some("accent"@) ==> theme_colors_of(c + seq!['\n'] + l).accent
            == theme_colors_of(c).accent,
{
    lemma_theme_keys_match_exactly(c, l, "background"@);
    lemma_theme_keys_match_exactly(c, l, "foreground"@);
    lemma_theme_keys_match_exactly(c, l, "accent"@);
}

} // verus!
