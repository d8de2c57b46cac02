//! Character-level helpers shared by the parsers and formatters.
use vstd::prelude::*;

verus! {

/// Appends one character to a `String`.
///
/// Calls `String::push`, whose documentation says it appends the given
/// `char` to the end of the string; that is all the contract claims.
#[verifier::external_body]
pub(crate) fn push_char(s: &mut String, c: char)
    ensures
        final(s)@ == old(s)@.push(c),
{
    s.push(c);
}

/// The ASCII digit for a value below ten.
pub open spec fn digit_char(d: int) -> char {
    ((d + 48) as u8) as char
}

/// Decimal representation of a natural number, most significant digit
/// first, without leading zeros ("0" for zero).
pub open spec fn decimal(n: nat) -> Seq<char>
    decreases n,
{
    if n < 10 {
        seq![digit_char(n as int)]
    } else {
        decimal(n / 10).push(digit_char((n % 10) as int))
    }
}

/// Decimal representation of an integer, with a leading `-` when negative.
pub open spec fn signed_decimal(n: int) -> Seq<char> {
    if n < 0 {
        seq!['-'] + decimal((-n) as nat)
    } else {
        decimal(n as nat)
    }
}

/// Appends the decimal digits of `n` to `out`.
pub fn push_decimal(out: &mut String, n: u64)
    ensures
        final(out)@ == old(out)@ + decimal(n as nat),
    decreases n,
{
    if n >= 10 {
        push_decimal(out, n / 10);
    }
    let d: u8 = (n % 10) as u8;
    push_char(out, (d + 48) as char);
    assert(final(out)@ =~= old(out)@ + decimal(n as nat));
}

} // verus!

verus! {

/// The characters of a string slice, collected into a vector.
pub fn chars_of(s: &str) -> (v: Vec<char>)
    ensures
        v@ == s@,
{
    let mut v: Vec<char> = Vec::new();
    for c in it: s.chars()
        invariant
            v@ == it.seq().take(it.index()),
    {
        v.push(c);
    }
    v
}

} // verus!

verus! {

/// Unicode `White_Space` characters, the set that `char::is_whitespace`
/// and `str::trim` use.
pub open spec fn is_ws(c: char) -> bool {
    let u = c as u32;
    ||| (0x09 <= u && u <= 0x0d)
    ||| u == 0x20
    ||| u == 0x85
    ||| u == 0xa0
    ||| u == 0x1680
    ||| (0x2000 <= u && u <= 0x200a)
    ||| u == 0x2028
    ||| u == 0x2029
    ||| u == 0x202f
    ||| u == 0x205f
    ||| u == 0x3000
}

/// Sets of characters that the parsers strip from the ends of a field.
#[derive(Clone, Copy, PartialEq, Eq, Structural)]
pub enum CharClass {
    /// Unicode white space.
    Space,
    /// The double quote `"`.
    Quote,
    /// The brackets `[` and `]`.
    Bracket,
    /// The hash sign `#`.
    Hash,
}

pub open spec fn in_class(cls: CharClass, c: char) -> bool {
    match cls {
        CharClass::Space => is_ws(c),
        CharClass::Quote => c == '"',
        CharClass::Bracket => c == '[' || c == ']',
        CharClass::Hash => c == '#',
    }
}

/// `s` without its leading characters of class `cls`.
pub open spec fn strip_start(s: Seq<char>, cls: CharClass) -> Seq<char>
    decreases s.len(),
{
    if s.len() > 0 && in_class(cls, s[0]) {
        strip_start(s.drop_first(), cls)
    } else {
        s
    }
}

/// `s` without its trailing characters of class `cls`.
pub open spec fn strip_end(s: Seq<char>, cls: CharClass) -> Seq<char>
    decreases s.len(),
{
    if s.len() > 0 && in_class(cls, s.last()) {
        strip_end(s.drop_last(), cls)
    } else {
        s
    }
}

/// `s` without leading and trailing characters of class `cls`
/// (`str::trim_matches`; with `Space`, `str::trim`).
pub open spec fn strip(s: Seq<char>, cls: CharClass) -> Seq<char> {
    strip_end(strip_start(s, cls), cls)
}

/// `s` cut at every occurrence of `sep` (`str::split`): always at least one
/// piece, and `pieces(s, sep).len()` is one more than the number of `sep`s.
pub open spec fn pieces(s: Seq<char>, sep: char) -> Seq<Seq<char>>
    decreases s.len(),
{
    if s.len() == 0 {
        seq![Seq::empty()]
    } else {
        let prev = pieces(s.drop_last(), sep);
        if s.last() == sep {
            prev.push(Seq::empty())
        } else {
            prev.update(prev.len() - 1, prev.last().push(s.last()))
        }
    }
}

/// Position of the first `c` in `s`, if any.
pub open spec fn find_char(s: Seq<char>, c: char) -> Option<int>
    decreases s.len(),
{
    if s.len() == 0 {
        None
    } else if s[0] == c {
        Some(0)
    } else {
        match find_char(s.drop_first(), c) {
            Some(i) => Some(i + 1),
            None => None,
        }
    }
}

/// The sub-sequences of `v` that a list of index ranges denotes.
pub open spec fn range_seqs(v: Seq<char>, r: Seq<(usize, usize)>) -> Seq<Seq<char>> {
    r.map_values(|p: (usize, usize)| v.subrange(p.0 as int, p.1 as int))
}

pub proof fn lemma_pieces_nonempty(s: Seq<char>, sep: char)
    ensures
        pieces(s, sep).len() >= 1,
    decreases s.len(),
{
    if s.len() > 0 {
        lemma_pieces_nonempty(s.drop_last(), sep);
    }
}

/// `find_char` is the first position holding `c`.
pub proof fn lemma_find_char(s: Seq<char>, c: char)
    ensures
        match find_char(s, c) {
            Some(i) => 0 <= i < s.len() && s[i] == c && forall|k: int| 0 <= k < i ==> s[k] != c,
            None => forall|k: int| 0 <= k < s.len() ==> s[k] != c,
        },
    decreases s.len(),
{
    if s.len() > 0 && s[0] != c {
        lemma_find_char(s.drop_first(), c);
        match find_char(s.drop_first(), c) {
            Some(i) => {
                assert forall|k: int| 0 <= k < i + 1 implies s[k] != c by {
                    if k > 0 {
                        assert(s[k] == s.drop_first()[k - 1]);
                    }
                }
            },
            None => {
                assert forall|k: int| 0 <= k < s.len() implies s[k] != c by {
                    if k > 0 {
                        assert(s[k] == s.drop_first()[k - 1]);
                    }
                }
            },
        }
    }
}

/// The first position holding `c` is what `find_char` gives.
pub proof fn lemma_find_char_at(s: Seq<char>, c: char, i: int)
    requires
        0 <= i <= s.len(),
        forall|k: int| 0 <= k < i ==> s[k] != c,
        i < s.len() ==> s[i] == c,
    ensures
        find_char(s, c) == (if i < s.len() { Some(i) } else { None::<int> }),
{
    lemma_find_char(s, c);
}

/// Whether a character is Unicode white space.
pub fn is_whitespace(c: char) -> (b: bool)
    ensures
        b == is_ws(c),
{
    let u = c as u32;
    (0x09 <= u && u <= 0x0d) || u == 0x20 || u == 0x85 || u == 0xa0 || u == 0x1680 || (0x2000
        <= u && u <= 0x200a) || u == 0x2028 || u == 0x2029 || u == 0x202f || u == 0x205f || u
        == 0x3000
}

/// Whether a character is of class `cls`.
pub fn is_in_class(cls: CharClass, c: char) -> (b: bool)
    ensures
        b == in_class(cls, c),
{
    match cls {
        CharClass::Space => is_whitespace(c),
        CharClass::Quote => c == '"',
        CharClass::Bracket => c == '[' || c == ']',
        CharClass::Hash => c == '#',
    }
}

/// Narrows `lo..hi` past the leading characters of class `cls`.
pub fn strip_start_range(v: &Vec<char>, lo: usize, hi: usize, cls: CharClass) -> (a: usize)
    requires
        lo <= hi <= v@.len(),
    ensures
        lo <= a <= hi,
        v@.subrange(a as int, hi as int) == strip_start(v@.subrange(lo as int, hi as int), cls),
{
    let mut a = lo;
    while a < hi && is_in_class(cls, v[a])
        invariant
            lo <= a <= hi <= v@.len(),
            strip_start(v@.subrange(a as int, hi as int), cls) == strip_start(
                v@.subrange(lo as int, hi as int),
                cls,
            ),
        decreases hi - a,
    {
        assert(v@.subrange(a as int, hi as int).drop_first() =~= v@.subrange(
            a + 1,
            hi as int,
        ));
        a = a + 1;
    }
    a
}

/// Narrows `lo..hi` past the trailing characters of class `cls`.
pub fn strip_end_range(v: &Vec<char>, lo: usize, hi: usize, cls: CharClass) -> (b: usize)
    requires
        lo <= hi <= v@.len(),
    ensures
        lo <= b <= hi,
        v@.subrange(lo as int, b as int) == strip_end(v@.subrange(lo as int, hi as int), cls),
{
    let mut b = hi;
    while b > lo && is_in_class(cls, v[b - 1])
        invariant
            lo <= b <= hi <= v@.len(),
            strip_end(v@.subrange(lo as int, b as int), cls) == strip_end(
                v@.subrange(lo as int, hi as int),
                cls,
            ),
        decreases b - lo,
    {
        assert(v@.subrange(lo as int, b as int).drop_last() =~= v@.subrange(
            lo as int,
            b - 1,
        ));
        b = b - 1;
    }
    b
}

/// Narrows `lo..hi` past the characters of class `cls` at both ends.
pub fn strip_range(v: &Vec<char>, lo: usize, hi: usize, cls: CharClass) -> (r: (usize, usize))
    requires
        lo <= hi <= v@.len(),
    ensures
        lo <= r.0 <= r.1 <= hi,
        v@.subrange(r.0 as int, r.1 as int) == strip(v@.subrange(lo as int, hi as int), cls),
{
    let a = strip_start_range(v, lo, hi, cls);
    let b = strip_end_range(v, a, hi, cls);
    (a, b)
}

/// The ranges of the pieces of `lo..hi` between occurrences of `sep`.
pub fn split_ranges(v: &Vec<char>, lo: usize, hi: usize, sep: char) -> (r: Vec<(usize, usize)>)
    requires
        lo <= hi <= v@.len(),
    ensures
        range_seqs(v@, r@) == pieces(v@.subrange(lo as int, hi as int), sep),
        forall|k: int| 0 <= k < r@.len() ==> lo <= #[trigger] r@[k].0 <= r@[k].1 <= hi,
{
    let mut out: Vec<(usize, usize)> = Vec::new();
    let mut start = lo;
    let mut i = lo;
    assert(v@.subrange(lo as int, lo as int) =~= Seq::<char>::empty());
    assert(range_seqs(v@, out@).push(v@.subrange(start as int, i as int)) =~= pieces(
        v@.subrange(lo as int, i as int),
        sep,
    ));
    while i < hi
        invariant
            lo <= start <= i <= hi <= v@.len(),
            range_seqs(v@, out@).push(v@.subrange(start as int, i as int)) == pieces(
                v@.subrange(lo as int, i as int),
                sep,
            ),
            forall|k: int| 0 <= k < out@.len() ==> lo <= #[trigger] out@[k].0 <= out@[k].1 <= i,
        decreases hi - i,
    {
        let ghost prev = pieces(v@.subrange(lo as int, i as int), sep);
        assert(v@.subrange(lo as int, i + 1).drop_last() =~= v@.subrange(lo as int, i as int));
        assert(v@.subrange(lo as int, i + 1).last() == v@[i as int]);
        if v[i] == sep {
            let ghost old_out = out@;
            out.push((start, i));
            assert(range_seqs(v@, out@) =~= range_seqs(v@, old_out).push(
                v@.subrange(start as int, i as int),
            ));
            start = i + 1;
            assert(v@.subrange(start as int, i + 1) =~= Seq::<char>::empty());
            assert(range_seqs(v@, out@).push(v@.subrange(start as int, i + 1)) =~= prev.push(
                Seq::empty(),
            ));
        } else {
            assert(v@.subrange(start as int, i + 1) =~= v@.subrange(start as int, i as int).push(
                v@[i as int],
            ));
            assert(range_seqs(v@, out@).push(v@.subrange(start as int, i + 1)) =~= prev.update(
                prev.len() - 1,
                prev.last().push(v@[i as int]),
            ));
        }
        i = i + 1;
    }
    let ghost old_out = out@;
    out.push((start, i));
    assert(range_seqs(v@, out@) =~= range_seqs(v@, old_out).push(
        v@.subrange(start as int, i as int),
    ));
    assert(range_seqs(v@, out@) =~= pieces(v@.subrange(lo as int, hi as int), sep));
    out
}

/// The position of the first `c` in `lo..hi`, if any.
pub fn find_in_range(v: &Vec<char>, lo: usize, hi: usize, c: char) -> (r: Option<usize>)
    requires
        lo <= hi <= v@.len(),
    ensures
        match r {
            Some(j) => lo <= j < hi && find_char(v@.subrange(lo as int, hi as int), c) == Some(
                j - lo,
            ),
            None => find_char(v@.subrange(lo as int, hi as int), c) is None,
        },
{
    let mut j = lo;
    while j < hi
        invariant
            lo <= j <= hi <= v@.len(),
            forall|k: int| lo <= k < j ==> v@[k] != c,
        decreases hi - j,
    {
        if v[j] == c {
            proof {
                lemma_find_char_at(v@.subrange(lo as int, hi as int), c, j - lo);
            }
            return Some(j);
        }
        j = j + 1;
    }
    proof {
        lemma_find_char_at(v@.subrange(lo as int, hi as int), c, hi - lo);
    }
    None
}

/// Whether the characters in `lo..hi` are exactly those of `lit`.
pub fn range_eq(v: &Vec<char>, lo: usize, hi: usize, lit: &str) -> (b: bool)
    requires
        lo <= hi <= v@.len(),
    ensures
        b == (v@.subrange(lo as int, hi as int) == lit@),
{
    let n = lit.unicode_len();
    if hi - lo != n {
        return false;
    }
    let mut k: usize = 0;
    while k < n
        invariant
            lo <= hi <= v@.len(),
            hi - lo == n == lit@.len(),
            k <= n,
            forall|i: int| 0 <= i < k ==> v@[lo + i] == lit@[i],
        decreases n - k,
    {
        if v[lo + k] != lit.get_char(k) {
            assert(v@.subrange(lo as int, hi as int)[k as int] != lit@[k as int]);
            return false;
        }
        k = k + 1;
    }
    assert(v@.subrange(lo as int, hi as int) =~= lit@);
    true
}

/// A new string holding the characters in `lo..hi`.
pub fn string_of_range(v: &Vec<char>, lo: usize, hi: usize) -> (s: String)
    requires
        lo <= hi <= v@.len(),
    ensures
        s@ == v@.subrange(lo as int, hi as int),
{
    let mut s = String::new();
    let mut k = lo;
    while k < hi
        invariant
            lo <= k <= hi <= v@.len(),
            s@ == v@.subrange(lo as int, k as int),
        decreases hi - k,
    {
        push_char(&mut s, v[k]);
        assert(s@ =~= v@.subrange(lo as int, k + 1));
        k = k + 1;
    }
    s
}

} // verus!

verus! {

pub open spec fn is_digit(c: char) -> bool {
    '0' <= c && c <= '9'
}

/// The number that a sequence of decimal digits spells.
pub open spec fn digits_value(d: Seq<char>) -> nat
    decreases d.len(),
{
    if d.len() == 0 {
        0
    } else {
        digits_value(d.drop_last()) * 10 + ((d.last() as u32) - 48) as nat
    }
}

/// `s` without one leading `+`, if it has one.
pub open spec fn without_plus(s: Seq<char>) -> Seq<char> {
    if s.len() > 0 && s[0] == '+' {
        s.drop_first()
    } else {
        s
    }
}

/// What `str::parse::<u64>` accepts: an optional `+`, then one or more
/// decimal digits whose value fits in a `u64`.
pub open spec fn parse_u64(s: Seq<char>) -> Option<u64> {
    let d = without_plus(s);
    if d.len() > 0 && (forall|i: int| 0 <= i < d.len() ==> is_digit(#[trigger] d[i]))
        && digits_value(d) <= u64::MAX {
        Some(digits_value(d) as u64)
    } else {
        None
    }
}

/// Parses the characters in `lo..hi` as a `u64`, as `str::parse` does.
pub fn parse_u64_range(v: &Vec<char>, lo: usize, hi: usize) -> (r: Option<u64>)
    requires
        lo <= hi <= v@.len(),
    ensures
        r == parse_u64(v@.subrange(lo as int, hi as int)),
{
    let ghost s = v@.subrange(lo as int, hi as int);
    let mut a = lo;
    if lo < hi && v[lo] == '+' {
        a = lo + 1;
        assert(s.drop_first() =~= v@.subrange(a as int, hi as int));
    }
    let ghost d = v@.subrange(a as int, hi as int);
    assert(d == without_plus(s));
    if a == hi {
        return None;
    }
    let mut acc: u64 = 0;
    let mut overflow = false;
    let mut k = a;
    assert(v@.subrange(a as int, a as int) =~= Seq::<char>::empty());
    while k < hi
        invariant
            lo <= a <= k <= hi <= v@.len(),
            d == v@.subrange(a as int, hi as int),
            d == without_plus(v@.subrange(lo as int, hi as int)),
            forall|i: int| a <= i < k ==> is_digit(#[trigger] v@[i]),
            !overflow ==> acc == digits_value(v@.subrange(a as int, k as int)),
            overflow ==> digits_value(v@.subrange(a as int, k as int)) > u64::MAX,
        decreases hi - k,
    {
        let c = v[k];
        if !('0' <= c && c <= '9') {
            assert(d[k - a] == c);
            assert(!is_digit(d[k - a]));
            assert(!(forall|i: int| 0 <= i < d.len() ==> is_digit(#[trigger] d[i])));
            return None;
        }
        let ghost pre = v@.subrange(a as int, k as int);
        assert(v@.subrange(a as int, k + 1).drop_last() =~= pre);
        let dig: u64 = ((c as u32) - 48) as u64;
        if !overflow {
            match acc.checked_mul(10) {
                Some(m) => match m.checked_add(dig) {
                    Some(n) => {
                        acc = n;
                    },
                    None => {
                        overflow = true;
                    },
                },
                None => {
                    overflow = true;
                },
            }
        }
        k = k + 1;
    }
    assert(v@.subrange(a as int, k as int) == d);
    assert forall|i: int| 0 <= i < d.len() implies is_digit(#[trigger] d[i]) by {
        assert(d[i] == v@[a + i]);
    }
    if overflow {
        None
    } else {
        Some(acc)
    }
}

} // verus!

verus! {

/// Cutting `x`, a separator, then `y` gives the pieces of `x` followed by
/// those of `y`.
pub proof fn lemma_pieces_concat(x: Seq<char>, y: Seq<char>, sep: char)
    ensures
        pieces(x + seq![sep] + y, sep) == pieces(x, sep) + pieces(y, sep),
    decreases y.len(),
{
    let s = x + seq![sep] + y;
    if y.len() == 0 {
        assert(s =~= x.push(sep));
        assert(x.push(sep).drop_last() =~= x);
        assert(pieces(y, sep) =~= seq![Seq::<char>::empty()]);
        assert(pieces(x, sep).push(Seq::empty()) =~= pieces(x, sep) + pieces(y, sep));
    } else {
        let y0 = y.drop_last();
        lemma_pieces_concat(x, y0, sep);
        lemma_pieces_nonempty(y0, sep);
        assert(s.drop_last() =~= x + seq![sep] + y0);
        assert(s.last() == y.last());
        let p = pieces(x, sep);
        let q = pieces(y0, sep);
        if y.last() == sep {
            assert((p + q).push(Seq::empty()) =~= p + q.push(Seq::empty()));
        } else {
            assert((p + q).update((p + q).len() - 1, (p + q).last().push(y.last())) =~= p
                + q.update(q.len() - 1, q.last().push(y.last())));
        }
    }
}

/// A sequence without the separator is a single piece.
pub proof fn lemma_pieces_single(x: Seq<char>, sep: char)
    requires
        forall|i: int| 0 <= i < x.len() ==> x[i] != sep,
    ensures
        pieces(x, sep) == seq![x],
    decreases x.len(),
{
    if x.len() > 0 {
        let x0 = x.drop_last();
        assert forall|i: int| 0 <= i < x0.len() implies x0[i] != sep by {
            assert(x0[i] == x[i]);
        }
        lemma_pieces_single(x0, sep);
        assert(x.last() == x[x.len() - 1]);
        assert(x0.push(x.last()) =~= x);
        assert(seq![x0].update(0, x0.push(x.last())) =~= seq![x]);
    } else {
        assert(x =~= Seq::<char>::empty());
    }
}

} // verus!

verus! {

/// The characters with Unicode's `White_Space` property, as listed for
/// `char::is_whitespace`: tab, line feed, vertical tab, form feed,
/// carriage return, space, next line, no-break space, ogham space mark,
/// the spaces U+2000 to U+200A, line and paragraph separator, narrow
/// no-break space, medium mathematical space and ideographic space.
pub open spec fn unicode_white_space(c: char) -> bool {
    ||| c == '\t'
    ||| c == '\n'
    ||| c == '\u{b}'
    ||| c == '\u{c}'
    ||| c == '\r'
    ||| c == ' '
    ||| c == '\u{85}'
    ||| c == '\u{a0}'
    ||| c == '\u{1680}'
    ||| ('\u{2000}' <= c && c <= '\u{200a}')
    ||| c == '\u{2028}'
    ||| c == '\u{2029}'
    ||| c == '\u{202f}'
    ||| c == '\u{205f}'
    ||| c == '\u{3000}'
}

/// The trimmed class is exactly Unicode white space: tabs, newlines and
/// the other `White_Space` characters are trimmed like spaces, and nothing
/// else is.
pub proof fn lemma_space_class_is_unicode_white_space(c: char)
    ensures
        in_class(CharClass::Space, c) <==> unicode_white_space(c),
        in_class(CharClass::Space, '\t') && in_class(CharClass::Space, ' '),
{
}

/// Leading white space of any kind is stripped away.
pub proof fn lemma_strip_start_pad(p: Seq<char>, s: Seq<char>)
    requires
        forall|i: int| 0 <= i < p.len() ==> unicode_white_space(#[trigger] p[i]),
    ensures
        strip_start(p + s, CharClass::Space) == strip_start(s, CharClass::Space),
    decreases p.len(),
{
    if p.len() > 0 {
        let p0 = p.drop_first();
        assert forall|i: int| 0 <= i < p0.len() implies unicode_white_space(#[trigger] p0[i]) by {
            assert(p0[i] == p[i + 1]);
        }
        lemma_strip_start_pad(p0, s);
        assert(unicode_white_space(p[0]));
        assert((p + s)[0] == p[0]);
        assert((p + s).drop_first() =~= p0 + s);
    } else {
        assert(p + s =~= s);
    }
}

/// Trailing white space of any kind is stripped away.
pub proof fn lemma_strip_end_pad(s: Seq<char>, p: Seq<char>)
    requires
        forall|i: int| 0 <= i < p.len() ==> unicode_white_space(#[trigger] p[i]),
    ensures
        strip_end(s + p, CharClass::Space) == strip_end(s, CharClass::Space),
    decreases p.len(),
{
    if p.len() > 0 {
        let p0 = p.drop_last();
        assert forall|i: int| 0 <= i < p0.len() implies unicode_white_space(#[trigger] p0[i]) by {
            assert(p0[i] == p[i]);
        }
        lemma_strip_end_pad(s, p0);
        assert(unicode_white_space(p[p.len() - 1]));
        assert((s + p).last() == p[p.len() - 1]);
        assert((s + p).drop_last() =~= s + p0);
    } else {
        assert(s + p =~= s);
    }
}

/// Trimming ignores white space padding of any kind on either side.
pub proof fn lemma_strip_padded(p: Seq<char>, s: Seq<char>, q: Seq<char>)
    requires
        forall|i: int| 0 <= i < p.len() ==> unicode_white_space(#[trigger] p[i]),
        forall|i: int| 0 <= i < q.len() ==> unicode_white_space(#[trigger] q[i]),
        s.len() > 0,
        !unicode_white_space(s[0]),
        !unicode_white_space(s.last()),
    ensures
        strip(p + s + q, CharClass::Space) == s,
{
    assert(p + s + q =~= p + (s + q));
    lemma_strip_start_pad(p, s + q);
    assert((s + q)[0] == s[0]);
    lemma_space_class_is_unicode_white_space(s[0]);
    lemma_space_class_is_unicode_white_space(s.last());
    assert(strip_start(s + q, CharClass::Space) == s + q);
    lemma_strip_end_pad(s, q);
    assert(strip_end(s, CharClass::Space) == s);
}

} // verus!

verus! {

/// Decimal digits read back as the number they were written for.
pub proof fn lemma_decimal_digits(n: nat)
    ensures
        decimal(n).len() > 0,
        forall|i: int| 0 <= i < decimal(n).len() ==> is_digit(#[trigger] decimal(n)[i]),
        digits_value(decimal(n)) == n,
    decreases n,
{
    let d = digit_char((n % 10) as int);
    assert((d as u32) == (n % 10) + 48);
    if n >= 10 {
        lemma_decimal_digits(n / 10);
        let p = decimal(n / 10);
        assert(decimal(n) == p.push(d));
        assert(p.push(d).drop_last() =~= p);
        assert(p.push(d).last() == d);
        assert(digits_value(p.push(d)) == digits_value(p) * 10 + ((d as u32) - 48) as nat);
        assert((n / 10) * 10 + n % 10 == n);
        assert forall|i: int| 0 <= i < p.push(d).len() implies is_digit(#[trigger] p.push(d)[i]) by {
            if i < p.len() {
                assert(p.push(d)[i] == p[i]);
            }
        }
    } else {
        assert(decimal(n) == seq![d]);
        assert(seq![d].drop_last() =~= Seq::<char>::empty());
        assert(seq![d].last() == d);
        assert(digits_value(seq![d]) == digits_value(Seq::<char>::empty()) * 10 + ((d as u32)
            - 48) as nat);
    }
}

/// Writing a `u64` in decimal and parsing it back gives the same number.
pub proof fn lemma_decimal_parses_back(n: u64)
    ensures
        parse_u64(decimal(n as nat)) == Some(n),
{
    lemma_decimal_digits(n as nat);
    let s = decimal(n as nat);
    assert(is_digit(s[0]));
    assert(without_plus(s) == s);
}

} // verus!
