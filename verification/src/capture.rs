//! Screen regions and the geometry strings handed to the screenshot tool.
use vstd::prelude::*;
use vstd::string::StringExecFns;
use crate::text::{decimal, signed_decimal, push_char, push_decimal};

verus! {

/// A rectangle on screen, in pixels.
#[derive(Debug, Clone, Copy, PartialEq, Eq, Structural)]
pub struct Region {
    pub x: i32,
    pub y: i32,
    pub width: u32,
    pub height: u32,
}

/// The text `"<x>,<y> <width>x<height>"` for a region.
pub open spec fn geometry_text(r: Region) -> Seq<char> {
    signed_decimal(r.x as int) + seq![','] + signed_decimal(r.y as int) + seq![' ']
        + decimal(r.width as nat) + seq!['x'] + decimal(r.height as nat)
}

/// Appends the decimal representation of a signed value.
fn push_signed(out: &mut String, n: i32)
    ensures
        final(out)@ == old(out)@ + signed_decimal(n as int),
{
    if n < 0 {
        push_char(out, '-');
        let m: i64 = -(n as i64);
        push_decimal(out, m as u64);
        assert(final(out)@ =~= old(out)@ + signed_decimal(n as int));
    } else {
        push_decimal(out, n as u64);
    }
}

impl Region {
    /// The geometry argument that `grim -g` expects for this region.
    pub fn geometry_string(&self) -> (s: String)
        ensures
            s@ == geometry_text(*self),
    {
        let mut s = String::new();
        push_signed(&mut s, self.x);
        push_char(&mut s, ',');
        push_signed(&mut s, self.y);
        push_char(&mut s, ' ');
        push_decimal(&mut s, self.width as u64);
        push_char(&mut s, 'x');
        push_decimal(&mut s, self.height as u64);
        assert(s@ =~= geometry_text(*self));
        s
    }
}

} // verus!

verus! {

/// `"circle-search-<pid>.png"`, the file that receives the cropped capture.
pub open spec fn capture_file_text(pid: u32) -> Seq<char> {
    "circle-search-"@ + decimal(pid as nat) + ".png"@
}

/// `"circle-search-full-<pid>.png"`, the file that receives the full-screen
/// background capture.
pub open spec fn fullscreen_file_text(pid: u32) -> Seq<char> {
    "circle-search-full-"@ + decimal(pid as nat) + ".png"@
}

/// File name (inside the temporary directory) of the cropped capture made
/// by process `pid`.
pub fn capture_file_name(pid: u32) -> (s: String)
    ensures
        s@ == capture_file_text(pid),
{
    let mut s = String::from_str("circle-search-");
    push_decimal(&mut s, pid as u64);
    s.append(".png");
    s
}

/// File name (inside the temporary directory) of the full-screen capture
/// made by process `pid`.
pub fn fullscreen_capture_file_name(pid: u32) -> (s: String)
    ensures
        s@ == fullscreen_file_text(pid),
{
    let mut s = String::from_str("circle-search-full-");
    push_decimal(&mut s, pid as u64);
    s.append(".png");
    s
}

/// What a finished freehand stroke amounts to.
#[derive(Clone, Copy, PartialEq, Eq, Structural, Debug)]
pub enum Selection {
    /// Fewer than two points: nothing to do.
    Incomplete,
    /// The padded bounding box is under ten pixels wide or high: the
    /// stroke is rejected (the overlay shakes).
    TooSmall,
    /// The region to capture.
    Accepted(Region),
}

/// Padding added around the drawn stroke, in pixels.
pub open spec fn selection_pad() -> int {
    8
}

/// Smallest width and height of an accepted selection, in pixels.
pub open spec fn min_selection_side() -> int {
    10
}

/// One coordinate of a point: `y` when `vertical`, else `x`.
pub open spec fn coord(p: (i64, i64), vertical: bool) -> int {
    if vertical {
        p.1 as int
    } else {
        p.0 as int
    }
}

/// Least coordinate among the points (0 for no points).
pub open spec fn seq_min(s: Seq<(i64, i64)>, vertical: bool) -> int
    decreases s.len(),
{
    if s.len() == 0 {
        0
    } else if s.len() == 1 {
        coord(s[0], vertical)
    } else {
        let m = seq_min(s.drop_last(), vertical);
        let c = coord(s.last(), vertical);
        if c < m {
            c
        } else {
            m
        }
    }
}

/// Greatest coordinate among the points (0 for no points).
pub open spec fn seq_max(s: Seq<(i64, i64)>, vertical: bool) -> int
    decreases s.len(),
{
    if s.len() == 0 {
        0
    } else if s.len() == 1 {
        coord(s[0], vertical)
    } else {
        let m = seq_max(s.drop_last(), vertical);
        let c = coord(s.last(), vertical);
        if c > m {
            c
        } else {
            m
        }
    }
}

pub open spec fn clamp(v: int, lo: int, hi: int) -> int {
    if v < lo {
        lo
    } else if v > hi {
        hi
    } else {
        v
    }
}

/// Start of the padded span along one axis, clamped to `0..=i32::MAX`.
pub open spec fn span_start(s: Seq<(i64, i64)>, vertical: bool) -> int {
    clamp(seq_min(s, vertical) - selection_pad(), 0, i32::MAX as int)
}

/// End of the padded span along one axis, clamped to `0..=u32::MAX`.
pub open spec fn span_end(s: Seq<(i64, i64)>, vertical: bool) -> int {
    clamp(seq_max(s, vertical) + selection_pad(), 0, u32::MAX as int)
}

/// Length of the padded span along one axis (0 when it ends before it
/// starts).
pub open spec fn span_len(s: Seq<(i64, i64)>, vertical: bool) -> int {
    if span_end(s, vertical) > span_start(s, vertical) {
        span_end(s, vertical) - span_start(s, vertical)
    } else {
        0
    }
}

/// What a stroke through the given points (whole pixels) selects.
pub open spec fn selection_of(s: Seq<(i64, i64)>) -> Selection {
    if s.len() < 2 {
        Selection::Incomplete
    } else if span_len(s, false) < min_selection_side() || span_len(s, true)
        < min_selection_side() {
        Selection::TooSmall
    } else {
        Selection::Accepted(
            Region {
                x: span_start(s, false) as i32,
                y: span_start(s, true) as i32,
                width: span_len(s, false) as u32,
                height: span_len(s, true) as u32,
            },
        )
    }
}

/// The region that a freehand stroke selects: the bounding box of its
/// points (pixel coordinates, rounded down), padded by 8 pixels on every
/// side and clamped to the screen's non-negative quadrant; a box under 10
/// pixels wide or high is rejected, and a stroke of fewer than two points
/// selects nothing.
pub fn selection_region(points: &[(i64, i64)]) -> (r: Selection)
    ensures
        r == selection_of(points@),
{
    let n = points.len();
    if n < 2 {
        return Selection::Incomplete;
    }
    let mut min_x: i64 = points[0].0;
    let mut max_x: i64 = points[0].0;
    let mut min_y: i64 = points[0].1;
    let mut max_y: i64 = points[0].1;
    let mut i: usize = 1;
    assert(points@.take(1).len() == 1);
    while i < n
        invariant
            n == points@.len(),
            1 <= i <= n,
            min_x == seq_min(points@.take(i as int), false),
            max_x == seq_max(points@.take(i as int), false),
            min_y == seq_min(points@.take(i as int), true),
            max_y == seq_max(points@.take(i as int), true),
        decreases n - i,
    {
        assert(points@.take(i + 1).drop_last() =~= points@.take(i as int));
        assert(points@.take(i + 1).last() == points@[i as int]);
        let (px, py) = points[i];
        if px < min_x {
            min_x = px;
        }
        if px > max_x {
            max_x = px;
        }
        if py < min_y {
            min_y = py;
        }
        if py > max_y {
            max_y = py;
        }
        i = i + 1;
    }
    assert(points@.take(n as int) =~= points@);
    let x0 = clamp_i128(min_x as i128 - 8, 0, 0x7fff_ffff);
    let y0 = clamp_i128(min_y as i128 - 8, 0, 0x7fff_ffff);
    let x1 = clamp_i128(max_x as i128 + 8, 0, 0xffff_ffff);
    let y1 = clamp_i128(max_y as i128 + 8, 0, 0xffff_ffff);
    let w: i128 = if x1 > x0 {
        x1 - x0
    } else {
        0
    };
    let h: i128 = if y1 > y0 {
        y1 - y0
    } else {
        0
    };
    if w < 10 || h < 10 {
        Selection::TooSmall
    } else {
        Selection::Accepted(Region { x: x0 as i32, y: y0 as i32, width: w as u32, height: h as u32 })
    }
}

fn clamp_i128(v: i128, lo: i128, hi: i128) -> (r: i128)
    requires
        lo <= hi,
    ensures
        r == clamp(v as int, lo as int, hi as int),
{
    if v < lo {
        lo
    } else if v > hi {
        hi
    } else {
        v
    }
}

} // verus!

verus! {

/// Every point lies between the least and the greatest coordinate.
pub proof fn lemma_min_max_bound(s: Seq<(i64, i64)>, vertical: bool, k: int)
    requires
        0 <= k < s.len(),
    ensures
        seq_min(s, vertical) <= coord(s[k], vertical) <= seq_max(s, vertical),
    decreases s.len(),
{
    if s.len() > 1 && k < s.len() - 1 {
        lemma_min_max_bound(s.drop_last(), vertical, k);
        assert(s.drop_last()[k] == s[k]);
    }
}

/// An accepted selection covers what was drawn: every point with
/// coordinates in `0..=i32::MAX - 8` lies inside the region.
pub proof fn lemma_selection_covers_stroke(points: Seq<(i64, i64)>, k: int)
    requires
        0 <= k < points.len(),
        0 <= points[k].0 <= i32::MAX - 8,
        0 <= points[k].1 <= i32::MAX - 8,
        selection_of(points) is Accepted,
    ensures
        ({
            let r = selection_of(points)->Accepted_0;
            &&& r.x <= points[k].0 < r.x + r.width
            &&& r.y <= points[k].1 < r.y + r.height
        }),
{
    lemma_min_max_bound(points, false, k);
    lemma_min_max_bound(points, true, k);
}

/// A stroke whose padded bounding box is under 10 pixels wide or high is
/// never accepted.
pub proof fn lemma_small_selection_rejected(points: Seq<(i64, i64)>)
    requires
        points.len() >= 2,
        span_len(points, false) < min_selection_side() || span_len(points, true)
            < min_selection_side(),
    ensures
        selection_of(points) == Selection::TooSmall,
{
}

} // verus!

verus! {

/// The least and the greatest coordinate are coordinates of points.
pub proof fn lemma_min_max_attained(s: Seq<(i64, i64)>, vertical: bool)
    requires
        s.len() > 0,
    ensures
        exists|k: int| 0 <= k < s.len() && coord(s[k], vertical) == seq_min(s, vertical),
        exists|k: int| 0 <= k < s.len() && coord(s[k], vertical) == seq_max(s, vertical),
    decreases s.len(),
{
    if s.len() == 1 {
        assert(coord(s[0], vertical) == seq_min(s, vertical));
        assert(coord(s[0], vertical) == seq_max(s, vertical));
    } else {
        let t = s.drop_last();
        lemma_min_max_attained(t, vertical);
        let a = choose|k: int| 0 <= k < t.len() && coord(t[k], vertical) == seq_min(t, vertical);
        let b = choose|k: int| 0 <= k < t.len() && coord(t[k], vertical) == seq_max(t, vertical);
        assert(t[a] == s[a] && t[b] == s[b]);
        let last = s.len() - 1;
        assert(s.last() == s[last]);
        if coord(s[last], vertical) < seq_min(t, vertical) {
            assert(coord(s[last], vertical) == seq_min(s, vertical));
        } else {
            assert(coord(s[a], vertical) == seq_min(s, vertical));
        }
        if coord(s[last], vertical) > seq_max(t, vertical) {
            assert(coord(s[last], vertical) == seq_max(s, vertical));
        } else {
            assert(coord(s[b], vertical) == seq_max(s, vertical));
        }
    }
}

/// A stroke of two or more points lying on screen, at least 8 pixels from
/// the origin's edges (coordinates `8..=i32::MAX - 8`), is always accepted,
/// and its region is the bounding box of the points padded by exactly 8
/// pixels on every side: some point lies exactly 8 pixels inside each edge
/// and every point lies at least 8 pixels inside.
pub proof fn lemma_selection_is_padded_bounding_box(points: Seq<(i64, i64)>)
    requires
        points.len() >= 2,
        forall|k: int|
            0 <= k < points.len() ==> 8 <= (#[trigger] points[k]).0 <= i32::MAX - 8 && 8
                <= points[k].1 <= i32::MAX - 8,
    ensures
        selection_of(points) is Accepted,
        ({
            let r = selection_of(points)->Accepted_0;
            &&& forall|k: int|
                0 <= k < points.len() ==> r.x + 8 <= (#[trigger] points[k]).0 <= r.x + r.width - 8
                    && r.y + 8 <= points[k].1 <= r.y + r.height - 8
            &&& exists|k: int| 0 <= k < points.len() && points[k].0 == r.x + 8
            &&& exists|k: int| 0 <= k < points.len() && points[k].0 == r.x + r.width - 8
            &&& exists|k: int| 0 <= k < points.len() && points[k].1 == r.y + 8
            &&& exists|k: int| 0 <= k < points.len() && points[k].1 == r.y + r.height - 8
        }),
{
    lemma_min_max_attained(points, false);
    lemma_min_max_attained(points, true);
    let a = choose|k: int| 0 <= k < points.len() && coord(points[k], false) == seq_min(points, false);
    let b = choose|k: int| 0 <= k < points.len() && coord(points[k], false) == seq_max(points, false);
    let c = choose|k: int| 0 <= k < points.len() && coord(points[k], true) == seq_min(points, true);
    let d = choose|k: int| 0 <= k < points.len() && coord(points[k], true) == seq_max(points, true);
    assert(8 <= points[a].0 && points[b].0 <= i32::MAX - 8);
    assert(8 <= points[c].1 && points[d].1 <= i32::MAX - 8);
    lemma_min_max_bound(points, false, a);
    lemma_min_max_bound(points, true, c);
    assert forall|k: int| 0 <= k < points.len() implies seq_min(points, false) <= (#[trigger] points[k]).0
        <= seq_max(points, false) && seq_min(points, true) <= points[k].1 <= seq_max(points, true) by {
        lemma_min_max_bound(points, false, k);
        lemma_min_max_bound(points, true, k);
    }
}

} // verus!
