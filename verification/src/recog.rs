//! The decision engine: where in a frame the marker sits, how long it has
//! been followed, and which actions answer what was seen.

use crate::color::{is_marker_color, is_marker_pixel};
use crate::control::{Failure, ToBrain, ToController};
use crate::frame::{Frame, FrameView};
use std::sync::mpsc::{Receiver, SendError, SyncSender};
use std::time::Instant;
use vstd::prelude::*;

verus! {

/// The watched part of a frame of `w` by `h` pixels: its middle third along
/// both axes. The outer thirds are left out on every side: the watched
/// columns start at `w / 3` and end before `2 * w / 3`, and so the rows.
pub open spec fn in_region(w: nat, h: nat, x: int, y: int) -> bool {
    &&& 0 <= x < w
    &&& 0 <= y < h
    &&& w / 3 <= x < 2 * w / 3
    &&& h / 3 <= y < 2 * h / 3
}

/// Pixel `(x, y)` lies in the watched part and has the marker's colour.
pub open spec fn is_hit(f: FrameView, x: int, y: int) -> bool {
    in_region(f.width, f.height, x, y) && is_marker_color(
        f.pixel(x, y).0,
        f.pixel(x, y).1,
        f.pixel(x, y).2,
    )
}

/// Pixel `(x, y)` of the frame has the marker's colour, wherever it lies.
pub open spec fn is_marker_at(f: FrameView, x: int, y: int) -> bool {
    f.contains(x, y) && is_marker_color(f.pixel(x, y).0, f.pixel(x, y).1, f.pixel(x, y).2)
}

/// What is added up over the marker pixels: their number, their columns or
/// their rows.
pub enum Measure {
    Count,
    Across,
    Down,
}

/// What one marker pixel at `(x, y)` adds to a total.
pub open spec fn weight(m: Measure, x: int, y: int) -> int {
    match m {
        Measure::Count => 1,
        Measure::Across => x,
        Measure::Down => y,
    }
}

/// The total over the marker pixels among the first `k` pixels of row `y`.
pub open spec fn row_total(f: FrameView, m: Measure, y: int, k: nat) -> int
    decreases k,
{
    if k == 0 {
        0
    } else {
        row_total(f, m, y, (k - 1) as nat) + if is_hit(f, k - 1, y) {
            weight(m, k - 1, y)
        } else {
            0
        }
    }
}

/// The total over the marker pixels in the first `r` rows.
pub open spec fn frame_total(f: FrameView, m: Measure, r: nat) -> int
    decreases r,
{
    if r == 0 {
        0
    } else {
        frame_total(f, m, (r - 1) as nat) + row_total(f, m, r - 1, f.width)
    }
}

/// The mean column and mean row of the marker pixels, each rounded down;
/// `None` where the frame has no marker pixel.
pub open spec fn centroid(f: FrameView) -> Option<(int, int)> {
    let n = frame_total(f, Measure::Count, f.height);
    if n == 0 {
        None
    } else {
        Some(
            (
                frame_total(f, Measure::Across, f.height) / n,
                frame_total(f, Measure::Down, f.height) / n,
            ),
        )
    }
}

/// A coordinate as an `i32`; one beyond `i32::MAX` becomes `i32::MAX`.
pub open spec fn clip(v: int) -> i32 {
    if v > i32::MAX {
        i32::MAX
    } else {
        v as i32
    }
}

/// The detected position of the marker in a frame.
pub open spec fn marker_position(f: FrameView) -> Option<(i32, i32)> {
    match centroid(f) {
        None => None,
        Some((x, y)) => Some((clip(x), clip(y))),
    }
}

/// Finds the centre of mass of the pixels of the watched part that have the
/// marker's colour.
pub fn find_bobber(img: &Frame) -> (pos: Option<(i32, i32)>)
    ensures
        pos == marker_position(img@),
        pos is None <==> forall|x: int, y: int| !is_hit(img@, x, y),
{
    let w: u32 = img.width();
    let h: u32 = img.height();
    let raw = img.samples();
    // reading the length tells the verifier that it is a `usize`
    let _: usize = raw.len();
    let x_low: u64 = w as u64 / 3;
    let x_high: u64 = 2 * (w as u64) / 3;
    let y_low: u64 = h as u64 / 3;
    let y_high: u64 = 2 * (h as u64) / 3;
    let ghost f = img@;
    let mut count: u64 = 0;
    let mut sum_x: u128 = 0;
    let mut sum_y: u128 = 0;
    let mut seen: usize = 0;
    let mut y: u32 = 0;
    while y < h
        invariant
            f == img@,
            f.wf(),
            f.width == w,
            f.height == h,
            raw@ == f.samples,
            raw@.len() <= usize::MAX,
            x_low == w as int / 3,
            x_high == 2 * w / 3,
            y_low == h as int / 3,
            y_high == 2 * h / 3,
            y <= h,
            seen == y * w,
            count <= seen,
            sum_x <= seen * 0xffff_ffff,
            sum_y <= seen * 0xffff_ffff,
            count == frame_total(f, Measure::Count, y as nat),
            sum_x == frame_total(f, Measure::Across, y as nat),
            sum_y == frame_total(f, Measure::Down, y as nat),
        decreases h - y,
    {
        let mut x: u32 = 0;
        while x < w
            invariant
                f == img@,
                f.wf(),
                f.width == w,
                f.height == h,
                raw@ == f.samples,
                raw@.len() <= usize::MAX,
                x_low == w as int / 3,
                x_high == 2 * w / 3,
                y_low == h as int / 3,
                y_high == 2 * h / 3,
                y < h,
                x <= w,
                seen == y * w + x,
                count <= seen,
                sum_x <= seen * 0xffff_ffff,
                sum_y <= seen * 0xffff_ffff,
                count == frame_total(f, Measure::Count, y as nat) + row_total(
                    f,
                    Measure::Count,
                    y as int,
                    x as nat,
                ),
                sum_x == frame_total(f, Measure::Across, y as nat) + row_total(
                    f,
                    Measure::Across,
                    y as int,
                    x as nat,
                ),
                sum_y == frame_total(f, Measure::Down, y as nat) + row_total(
                    f,
                    Measure::Down,
                    y as int,
                    x as nat,
                ),
            decreases w - x,
        {
            proof {
                crate::frame::lemma_offset_in_bounds(f, x as int, y as int);
            }
            let in_part = x_low <= x as u64 && (x as u64) < x_high && y_low <= y as u64 && (
            y as u64) < y_high;
            if in_part && is_marker_pixel(raw[3 * seen], raw[3 * seen + 1], raw[3 * seen + 2]) {
                count = count + 1;
                sum_x = sum_x + x as u128;
                sum_y = sum_y + y as u128;
            }
            seen = seen + 1;
            x = x + 1;
        }
        assert(y * w + w == (y + 1) * w) by (nonlinear_arith);
        y = y + 1;
    }
    proof {
        lemma_none_without_hits(f);
    }
    if count == 0 {
        None
    } else {
        let mean_x: u128 = sum_x / count as u128;
        let mean_y: u128 = sum_y / count as u128;
        let cx: i32 = if mean_x > i32::MAX as u128 {
            i32::MAX
        } else {
            mean_x as i32
        };
        let cy: i32 = if mean_y > i32::MAX as u128 {
            i32::MAX
        } else {
            mean_y as i32
        };
        Some((cx, cy))
    }
}

/// A row's count is at least one as soon as the row holds a marker pixel, and
/// never negative.
proof fn lemma_row_count(f: FrameView, y: int, k: nat)
    ensures
        0 <= row_total(f, Measure::Count, y, k),
        (exists|x: int| 0 <= x < k && is_hit(f, x, y)) <==> row_total(f, Measure::Count, y, k)
            > 0,
    decreases k,
{
    if k > 0 {
        lemma_row_count(f, y, (k - 1) as nat);
        if row_total(f, Measure::Count, y, k) > 0 {
            if is_hit(f, k - 1, y) {
                assert(0 <= k - 1 < k && is_hit(f, k - 1, y));
            } else {
                let x = choose|x: int| 0 <= x < k - 1 && is_hit(f, x, y);
                assert(0 <= x < k && is_hit(f, x, y));
            }
        }
    }
}

/// The count over the first rows is at least one as soon as one of them holds
/// a marker pixel, and never negative.
proof fn lemma_frame_count(f: FrameView, r: nat)
    ensures
        0 <= frame_total(f, Measure::Count, r),
        (exists|x: int, y: int| 0 <= y < r && is_hit(f, x, y)) <==> frame_total(
            f,
            Measure::Count,
            r,
        ) > 0,
    decreases r,
{
    if r > 0 {
        let last = r - 1;
        lemma_frame_count(f, last as nat);
        lemma_row_count(f, last, f.width);
        if frame_total(f, Measure::Count, r) > 0 {
            if row_total(f, Measure::Count, last, f.width) > 0 {
                let x = choose|x: int| 0 <= x < f.width && is_hit(f, x, last);
                assert(0 <= last < r && is_hit(f, x, last));
            } else {
                let (x, y) = choose|x: int, y: int| 0 <= y < last && is_hit(f, x, y);
                assert(0 <= y < r && is_hit(f, x, y));
            }
        }
        if exists|x: int, y: int| 0 <= y < r && is_hit(f, x, y) {
            let (x, y) = choose|x: int, y: int| 0 <= y < r && is_hit(f, x, y);
            if y == last {
                assert(0 <= x < f.width && is_hit(f, x, last));
            } else {
                assert(0 <= y < last && is_hit(f, x, y));
            }
        }
    }
}

/// Detection yields nothing exactly for the frames without a marker pixel in
/// the watched part.
pub proof fn lemma_none_without_hits(f: FrameView)
    ensures
        marker_position(f) is None <==> forall|x: int, y: int| !is_hit(f, x, y),
        centroid(f) is None <==> forall|x: int, y: int| !is_hit(f, x, y),
{
    lemma_frame_count(f, f.height);
    if exists|x: int, y: int| is_hit(f, x, y) {
        let (x, y) = choose|x: int, y: int| is_hit(f, x, y);
        assert(0 <= y < f.height && is_hit(f, x, y));
    }
}

/// No pixel of the outer thirds counts, on any side. In a frame of 90 by 90
/// pixels the watched columns and rows are 30 to 59.
pub proof fn lemma_outer_thirds_are_left_out(f: FrameView, x: int, y: int)
    ensures
        x < f.width / 3 || x >= 2 * f.width / 3 || y < f.height / 3 || y >= 2 * f.height / 3
            ==> !is_hit(f, x, y),
        in_region(90, 90, 30, 30) && in_region(90, 90, 59, 59),
        !in_region(90, 90, 60, 45) && !in_region(90, 90, 45, 60) && !in_region(90, 90, 29, 45)
            && !in_region(90, 90, 45, 29),
{
}

/// Where no pixel outside the watched part has the marker's colour, the
/// pixels whose centroid is taken are all the pixels of the frame that have
/// it.
pub proof fn lemma_markers_inside_are_hits(f: FrameView)
    requires
        forall|x: int, y: int| is_marker_at(f, x, y) ==> in_region(f.width, f.height, x, y),
    ensures
        forall|x: int, y: int| is_hit(f, x, y) <==> is_marker_at(f, x, y),
{
}

/// Over a row whose marker pixels are the same in two frames, the totals agree.
proof fn lemma_row_same_hits(f: FrameView, g: FrameView, m: Measure, y: int, k: nat)
    requires
        forall|x: int| 0 <= x < k ==> is_hit(f, x, y) == is_hit(g, x, y),
    ensures
        row_total(f, m, y, k) == row_total(g, m, y, k),
    decreases k,
{
    if k > 0 {
        lemma_row_same_hits(f, g, m, y, (k - 1) as nat);
    }
}

/// Over rows whose marker pixels are the same in two frames of one width, the
/// totals agree.
proof fn lemma_frame_same_hits(f: FrameView, g: FrameView, m: Measure, r: nat)
    requires
        f.width == g.width,
        forall|x: int, y: int| is_hit(f, x, y) == is_hit(g, x, y),
    ensures
        frame_total(f, m, r) == frame_total(g, m, r),
    decreases r,
{
    if r > 0 {
        lemma_frame_same_hits(f, g, m, (r - 1) as nat);
        lemma_row_same_hits(f, g, m, r - 1, f.width);
    }
}

/// The detected position depends on nothing but the frame's size and on which
/// of its pixels are marker pixels of the watched part: what lies outside
/// that part, and the exact colours, do not move it.
pub proof fn lemma_position_depends_on_hits(f: FrameView, g: FrameView)
    requires
        f.width == g.width,
        f.height == g.height,
        forall|x: int, y: int| is_hit(f, x, y) == is_hit(g, x, y),
    ensures
        centroid(f) == centroid(g),
        marker_position(f) == marker_position(g),
{
    lemma_frame_same_hits(f, g, Measure::Count, f.height);
    lemma_frame_same_hits(f, g, Measure::Across, f.height);
    lemma_frame_same_hits(f, g, Measure::Down, f.height);
}

/// How many of the integers from `low` to `high` lie below `k`.
pub open spec fn covered(low: int, high: int, k: int) -> int {
    if k <= low {
        0
    } else if k > high {
        high - low + 1
    } else {
        k - low
    }
}

/// A row without marker pixels adds nothing.
proof fn lemma_row_empty(f: FrameView, m: Measure, y: int, k: nat)
    requires
        forall|x: int| 0 <= x < k ==> !is_hit(f, x, y),
    ensures
        row_total(f, m, y, k) == 0,
    decreases k,
{
    if k > 0 {
        lemma_row_empty(f, m, y, (k - 1) as nat);
    }
}

/// The totals of a row whose marker pixels are the columns `a` to `b`.
proof fn lemma_row_span(f: FrameView, y: int, a: int, b: int, k: nat)
    requires
        0 <= a <= b,
        forall|x: int| 0 <= x < k ==> (is_hit(f, x, y) <==> a <= x <= b),
    ensures
        row_total(f, Measure::Count, y, k) == covered(a, b, k as int),
        2 * row_total(f, Measure::Across, y, k) == covered(a, b, k as int) * (2 * a + covered(
            a,
            b,
            k as int,
        ) - 1),
        row_total(f, Measure::Down, y, k) == covered(a, b, k as int) * y,
    decreases k,
{
    if k > 0 {
        lemma_row_span(f, y, a, b, (k - 1) as nat);
        let n = covered(a, b, k - 1);
        if a <= k - 1 <= b {
            assert(is_hit(f, k - 1, y));
            assert(n == k - 1 - a);
            assert((n + 1) * (2 * a + n) == n * (2 * a + n - 1) + 2 * (a + n))
                by (nonlinear_arith);
            assert((n + 1) * y == n * y + y) by (nonlinear_arith);
        } else {
            assert(!is_hit(f, k - 1, y));
        }
    } else {
        assert(0 * (2 * a + 0 - 1) == 0);
        assert(0 * y == 0);
    }
}

/// The totals of the first rows of a frame whose marker pixels are the
/// columns `a` to `b` of the rows `c` to `d`.
proof fn lemma_rows_span(f: FrameView, a: int, b: int, c: int, d: int, r: nat)
    requires
        0 <= a <= b < f.width,
        0 <= c <= d,
        forall|x: int, y: int| is_hit(f, x, y) <==> (a <= x <= b && c <= y <= d),
    ensures
        frame_total(f, Measure::Count, r) == covered(c, d, r as int) * (b - a + 1),
        2 * frame_total(f, Measure::Across, r) == covered(c, d, r as int) * ((b - a + 1) * (a
            + b)),
        2 * frame_total(f, Measure::Down, r) == (b - a + 1) * (covered(c, d, r as int) * (2 * c
            + covered(c, d, r as int) - 1)),
    decreases r,
{
    let nx = b - a + 1;
    if r > 0 {
        let last = r - 1;
        lemma_rows_span(f, a, b, c, d, last as nat);
        let n = covered(c, d, last);
        if c <= last <= d {
            assert forall|x: int| 0 <= x < f.width implies (is_hit(f, x, last) <==> a <= x
                <= b) by {}
            lemma_row_span(f, last, a, b, f.width);
            assert(covered(a, b, f.width as int) == nx);
            assert(n == last - c);
            assert((n + 1) * nx == n * nx + nx) by (nonlinear_arith);
            assert(nx * (2 * a + nx - 1) == nx * (a + b));
            assert((n + 1) * (nx * (a + b)) == n * (nx * (a + b)) + nx * (a + b))
                by (nonlinear_arith);
            assert(nx * ((n + 1) * (2 * c + n)) == nx * (n * (2 * c + n - 1)) + 2 * (nx * (c
                + n))) by (nonlinear_arith);
        } else {
            assert forall|x: int| 0 <= x < f.width implies !is_hit(f, x, last) by {}
            lemma_row_empty(f, Measure::Count, last, f.width);
            lemma_row_empty(f, Measure::Across, last, f.width);
            lemma_row_empty(f, Measure::Down, last, f.width);
        }
    } else {
        assert(0 * nx == 0);
        assert(0 * (nx * (a + b)) == 0);
        assert(nx * (0 * (2 * c + 0 - 1)) == 0) by (nonlinear_arith);
    }
}

/// Where twice a total is `n * t`, the mean of the `n` parts is half of `t`,
/// rounded down.
proof fn lemma_half_mean(s: int, n: int, t: int)
    requires
        n > 0,
        t >= 0,
        2 * s == n * t,
    ensures
        s / n == t / 2,
{
    let q = t / 2;
    let e = t % 2;
    assert(n * t == 2 * (q * n) + e * n) by (nonlinear_arith)
        requires
            t == 2 * q + e,
    ;
    if e == 0 {
        assert(0 * n == 0);
        vstd::arithmetic::div_mod::lemma_fundamental_div_mod_converse(s, n, q, 0);
    } else {
        assert(1 * n == n);
        let rest = s - q * n;
        assert(2 * rest == n);
        vstd::arithmetic::div_mod::lemma_fundamental_div_mod_converse(s, n, q, rest);
    }
}

/// Centroid of a filled rectangle: where the marker pixels of the watched
/// part are exactly the columns `a` to `b` of the rows `c` to `d`, the
/// centroid is the rectangle's middle, each coordinate rounded down.
pub proof fn lemma_rectangle_centroid(f: FrameView, a: int, b: int, c: int, d: int)
    requires
        0 <= a <= b < f.width,
        0 <= c <= d < f.height,
        forall|x: int, y: int| is_hit(f, x, y) <==> (a <= x <= b && c <= y <= d),
    ensures
        centroid(f) == Some(((a + b) / 2, (c + d) / 2)),
        marker_position(f) == Some((clip((a + b) / 2), clip((c + d) / 2))),
{
    lemma_rows_span(f, a, b, c, d, f.height);
    let nx = b - a + 1;
    let ny = d - c + 1;
    let n = frame_total(f, Measure::Count, f.height);
    assert(covered(c, d, f.height as int) == ny);
    assert(n == ny * nx);
    assert(n > 0) by (nonlinear_arith)
        requires
            n == ny * nx,
            nx > 0,
            ny > 0,
    ;
    assert(ny * (nx * (a + b)) == (ny * nx) * (a + b)) by (nonlinear_arith);
    assert(nx * (ny * (2 * c + ny - 1)) == (ny * nx) * (c + d)) by (nonlinear_arith)
        requires
            ny == d - c + 1,
    ;
    lemma_half_mean(frame_total(f, Measure::Across, f.height), n, a + b);
    lemma_half_mean(frame_total(f, Measure::Down, f.height), n, c + d);
}

/// Centroid of a square block: where the marker pixels of the watched part
/// are exactly the pixels at most `reach` columns and rows away from
/// `(cx, cy)`, detection yields `(cx, cy)`. A block of three by three pixels
/// has `reach` 1.
pub proof fn lemma_block_centroid(f: FrameView, cx: int, cy: int, reach: nat)
    requires
        reach <= cx < f.width - reach,
        reach <= cy < f.height - reach,
        forall|x: int, y: int|
            is_hit(f, x, y) <==> (cx - reach <= x <= cx + reach && cy - reach <= y <= cy + reach),
    ensures
        centroid(f) == Some((cx, cy)),
        marker_position(f) == Some((clip(cx), clip(cy))),
{
    lemma_rectangle_centroid(f, cx - reach, cx + reach, cy - reach, cy + reach);
}

/// The column and row totals of a row lie between the count times the bounds
/// of the watched part.
proof fn lemma_row_within(f: FrameView, y: int, k: nat)
    ensures
        0 <= row_total(f, Measure::Count, y, k),
        (f.width / 3) * row_total(f, Measure::Count, y, k) <= row_total(f, Measure::Across, y, k)
            <= (2 * f.width / 3 - 1) * row_total(f, Measure::Count, y, k),
        (f.height / 3) * row_total(f, Measure::Count, y, k) <= row_total(f, Measure::Down, y, k)
            <= (2 * f.height / 3 - 1) * row_total(f, Measure::Count, y, k),
    decreases k,
{
    if k > 0 {
        lemma_row_within(f, y, (k - 1) as nat);
        let n = row_total(f, Measure::Count, y, (k - 1) as nat);
        assert((f.width / 3) * (n + 1) == (f.width / 3) * n + f.width / 3) by (nonlinear_arith);
        assert((2 * f.width / 3 - 1) * (n + 1) == (2 * f.width / 3 - 1) * n + (2 * f.width / 3 - 1))
            by (nonlinear_arith);
        assert((f.height / 3) * (n + 1) == (f.height / 3) * n + f.height / 3)
            by (nonlinear_arith);
        assert((2 * f.height / 3 - 1) * (n + 1) == (2 * f.height / 3 - 1) * n + (2 * f.height / 3 - 1))
            by (nonlinear_arith);
    } else {
        assert((f.width / 3) * 0 == 0);
        assert((2 * f.width / 3 - 1) * 0 == 0);
        assert((f.height / 3) * 0 == 0);
        assert((2 * f.height / 3 - 1) * 0 == 0);
    }
}

/// The column and row totals of a frame lie between the count times the
/// bounds of the watched part.
proof fn lemma_frame_within(f: FrameView, r: nat)
    ensures
        0 <= frame_total(f, Measure::Count, r),
        (f.width / 3) * frame_total(f, Measure::Count, r) <= frame_total(f, Measure::Across, r)
            <= (2 * f.width / 3 - 1) * frame_total(f, Measure::Count, r),
        (f.height / 3) * frame_total(f, Measure::Count, r) <= frame_total(f, Measure::Down, r)
            <= (2 * f.height / 3 - 1) * frame_total(f, Measure::Count, r),
    decreases r,
{
    if r > 0 {
        lemma_frame_within(f, (r - 1) as nat);
        lemma_row_within(f, r - 1, f.width);
        let n = frame_total(f, Measure::Count, (r - 1) as nat);
        let p = row_total(f, Measure::Count, r - 1, f.width);
        assert((f.width / 3) * (n + p) == (f.width / 3) * n + (f.width / 3) * p)
            by (nonlinear_arith);
        assert((2 * f.width / 3 - 1) * (n + p) == (2 * f.width / 3 - 1) * n + (2 * f.width / 3 - 1) * p)
            by (nonlinear_arith);
        assert((f.height / 3) * (n + p) == (f.height / 3) * n + (f.height / 3) * p)
            by (nonlinear_arith);
        assert((2 * f.height / 3 - 1) * (n + p) == (2 * f.height / 3 - 1) * n + (2 * f.height / 3 - 1) * p)
            by (nonlinear_arith);
    } else {
        assert((f.width / 3) * 0 == 0);
        assert((2 * f.width / 3 - 1) * 0 == 0);
        assert((f.height / 3) * 0 == 0);
        assert((2 * f.height / 3 - 1) * 0 == 0);
    }
}

/// A mean lies between the bounds of what was averaged.
proof fn lemma_mean_between(s: int, n: int, low: int, high: int)
    requires
        n > 0,
        low * n <= s <= high * n,
    ensures
        low <= s / n <= high,
{
    vstd::arithmetic::div_mod::lemma_fundamental_div_mod(s, n);
    let q = s / n;
    let rest = s % n;
    assert(0 <= rest < n);
    assert(s == n * q + rest);
    assert(low <= q) by (nonlinear_arith)
        requires
            n > 0,
            low * n <= n * q + rest,
            rest < n,
    ;
    assert(q <= high) by (nonlinear_arith)
        requires
            n > 0,
            n * q + rest <= high * n,
            0 <= rest,
    ;
}

/// A detected position is a pixel of the watched part of the frame.
pub proof fn lemma_centroid_in_region(f: FrameView)
    ensures
        centroid(f) matches Some((x, y)) ==> in_region(f.width, f.height, x, y),
{
    lemma_frame_within(f, f.height);
    lemma_none_without_hits(f);
    let n = frame_total(f, Measure::Count, f.height);
    if n != 0 {
        lemma_mean_between(
            frame_total(f, Measure::Across, f.height),
            n,
            (f.width / 3) as int,
            2 * f.width / 3 - 1,
        );
        lemma_mean_between(
            frame_total(f, Measure::Down, f.height),
            n,
            (f.height / 3) as int,
            2 * f.height / 3 - 1,
        );
        let (hx, hy) = choose|x: int, y: int| is_hit(f, x, y);
        assert(is_hit(f, hx, hy));
    }
}

/// The settle delay in milliseconds: drift counts only once a cycle is older
/// than this.
pub const SETTLE_MILLIS: u128 = 3000;

/// The cast timeout in nanoseconds: a cycle older than this is given up.
pub const CAST_TIMEOUT_NANOS: u128 = 30_000_000_000;

/// The squared distance, in pixels, beyond which the marker has moved.
pub const DRIFT_LIMIT: i128 = 25;

/// The settle delay has passed: the whole milliseconds of the cycle's age
/// exceed it.
pub open spec fn settled(elapsed_nanos: u128) -> bool {
    elapsed_nanos / 1_000_000 > SETTLE_MILLIS
}

/// The cycle has run longer than the cast timeout.
pub open spec fn timed_out(elapsed_nanos: u128) -> bool {
    elapsed_nanos > CAST_TIMEOUT_NANOS
}

/// The squared Euclidean distance between two positions.
pub open spec fn distance_squared(a: [i32; 2], b: [i32; 2]) -> int {
    (a[0] - b[0]) * (a[0] - b[0]) + (a[1] - b[1]) * (a[1] - b[1])
}

/// The marker has moved away from `anchor`: it is more than five pixels off.
pub open spec fn drifted(anchor: [i32; 2], pos: [i32; 2]) -> bool {
    distance_squared(anchor, pos) > DRIFT_LIMIT
}

/// An observation at `pos` counts as the marker's jump: an anchor was
/// recorded before, the settle delay has passed, and `pos` is off the anchor.
pub open spec fn is_jump(anchor: Option<[i32; 2]>, elapsed_nanos: u128, pos: [i32; 2]) -> bool {
    anchor matches Some(a) && settled(elapsed_nanos) && drifted(a, pos)
}

/// The anchor after an observation at `pos`: the first observation of a
/// cycle becomes the anchor, and the anchor then stays.
pub open spec fn anchor_after(anchor: Option<[i32; 2]>, pos: [i32; 2]) -> Option<[i32; 2]> {
    match anchor {
        None => Some(pos),
        Some(a) => Some(a),
    }
}

/// One cycle: when it started and where the marker was first seen.
pub struct HookCast {
    start: Instant,
    bobber_pos: Option<[i32; 2]>,
}

impl HookCast {
    /// The position that later observations are held against.
    pub closed spec fn anchor(&self) -> Option<[i32; 2]> {
        self.bobber_pos
    }

    /// The clock's reading at the start of the cycle.
    pub closed spec fn started(&self) -> Instant {
        self.start
    }

    /// Starts a cycle now, with no position seen yet.
    pub fn new() -> (cast: Self)
        ensures
            cast.anchor() is None,
    {
        Self::starting_at(Instant::now())
    }

    /// The age of the cycle in nanoseconds, by the clock.
    pub fn elapsed_nanos(&self) -> (nanos: u128) {
        self.start.elapsed().as_nanos()
    }

    /// Records an observation made when the cycle was `elapsed_nanos` old.
    /// Returns true if `pos` is sufficiently different from the anchor.
    pub fn register_pos_after(&mut self, elapsed_nanos: u128, pos: [i32; 2]) -> (moved: bool)
        ensures
            moved == is_jump(old(self).anchor(), elapsed_nanos, pos),
            final(self).anchor() == anchor_after(old(self).anchor(), pos),
            final(self).started() == old(self).started(),
    {
        match self.bobber_pos {
            None => {
                self.bobber_pos = Some(pos);
                false
            },
            Some(anchor) => {
                if elapsed_nanos / 1_000_000 > SETTLE_MILLIS {
                    let dx: i128 = anchor[0] as i128 - pos[0] as i128;
                    let dy: i128 = anchor[1] as i128 - pos[1] as i128;
                    assert(0 <= dx * dx <= 0x1_0000_0000_0000_0000) by (nonlinear_arith)
                        requires
                            -0x1_0000_0000 <= dx <= 0x1_0000_0000,
                    ;
                    assert(0 <= dy * dy <= 0x1_0000_0000_0000_0000) by (nonlinear_arith)
                        requires
                            -0x1_0000_0000 <= dy <= 0x1_0000_0000,
                    ;
                    dx * dx + dy * dy > DRIFT_LIMIT
                } else {
                    false
                }
            },
        }
    }

    /// Records an observation made now. Returns true if `pos` is
    /// sufficiently different from the anchor. Whatever the clock reads, the
    /// anchor is kept as by `register_pos_after`, and a jump is reported only
    /// for a position that is off an anchor recorded before.
    pub fn register_pos(&mut self, pos: [i32; 2]) -> (moved: bool)
        ensures
            moved ==> (old(self).anchor() matches Some(a) && drifted(a, pos)),
            final(self).anchor() == anchor_after(old(self).anchor(), pos),
            final(self).started() == old(self).started(),
    {
        let elapsed: u128 = self.elapsed_nanos();
        self.register_pos_after(elapsed, pos)
    }
}

/// What the engine is doing: waiting to start a cycle, or following the
/// marker of a running cycle.
pub enum Phase {
    Idle,
    Tracking { anchor: Option<[i32; 2]> },
}

/// A new cycle has to be started before any frame is looked at: none is
/// running, or the running one has timed out.
pub open spec fn must_cast(phase: Phase, elapsed_nanos: u128) -> bool {
    phase is Idle || timed_out(elapsed_nanos)
}

/// The actions that answer a frame in which detection found `marker`, seen
/// when the running cycle was `elapsed_nanos` old: none without a marker;
/// else a move to the marker, followed by a click on it where the marker
/// has jumped.
pub open spec fn reaction(phase: Phase, elapsed_nanos: u128, marker: Option<(i32, i32)>) -> Seq<
    ToController,
> {
    match (phase, marker) {
        (Phase::Tracking { anchor }, Some((x, y))) => {
            if is_jump(anchor, elapsed_nanos, [x, y]) {
                seq![ToController::MoveMouse([x, y]), ToController::PerformClick([x, y])]
            } else {
                seq![ToController::MoveMouse([x, y])]
            }
        },
        _ => Seq::empty(),
    }
}

/// The phase after such a frame: a click ends the cycle, any other
/// observation leaves it running with its anchor set.
pub open spec fn phase_after(phase: Phase, elapsed_nanos: u128, marker: Option<(i32, i32)>) -> Phase {
    match (phase, marker) {
        (Phase::Tracking { anchor }, Some((x, y))) => {
            if is_jump(anchor, elapsed_nanos, [x, y]) {
                Phase::Idle
            } else {
                Phase::Tracking { anchor: anchor_after(anchor, [x, y]) }
            }
        },
        _ => phase,
    }
}

/// The decision engine.
pub struct Brain {
    ongoing: Option<HookCast>,
}

impl View for Brain {
    type V = Phase;

    closed spec fn view(&self) -> Phase {
        match self.ongoing {
            None => Phase::Idle,
            Some(cast) => Phase::Tracking { anchor: cast.anchor() },
        }
    }
}

impl Brain {
    /// The clock's reading at the start of the running cycle; `None` where no
    /// cycle is running.
    pub closed spec fn started(&self) -> Option<Instant> {
        match self.ongoing {
            None => None,
            Some(cast) => Some(cast.started()),
        }
    }

    /// An engine that follows nothing yet.
    pub fn new() -> (brain: Self)
        ensures
            brain@ is Idle,
    {
        Self { ongoing: None }
    }

    /// Starts a new cycle now and hands back the action that triggers it.
    /// What was followed before is forgotten.
    pub fn cast(&mut self) -> (action: Result<ToController, Failure>)
        ensures
            action == Ok::<ToController, Failure>(ToController::CastHook),
            final(self)@ == (Phase::Tracking { anchor: None }),
    {
        self.ongoing = Some(HookCast::new());
        Ok(ToController::CastHook)
    }

    /// The age of the running cycle in nanoseconds, by the clock.
    pub fn elapsed_nanos(&self) -> (nanos: Option<u128>)
        ensures
            nanos is None <==> self@ is Idle,
    {
        match &self.ongoing {
            None => None,
            Some(cast) => Some(cast.elapsed_nanos()),
        }
    }

    /// Decides whether a new cycle must be started, the running cycle being
    /// `elapsed_nanos` old.
    pub fn is_due_after(&self, elapsed_nanos: u128) -> (due: bool)
        ensures
            due == must_cast(self@, elapsed_nanos),
    {
        self.ongoing.is_none() || elapsed_nanos > CAST_TIMEOUT_NANOS
    }

    /// Decides by the clock whether a new cycle must be started. An idle
    /// engine is always due.
    pub fn is_due(&self) -> (due: bool)
        ensures
            self@ is Idle ==> due,
    {
        match self.elapsed_nanos() {
            None => true,
            Some(elapsed) => self.is_due_after(elapsed),
        }
    }

    /// Answers what detection found in a frame, seen when the running cycle
    /// was `elapsed_nanos` old.
    pub fn react_after(&mut self, elapsed_nanos: u128, marker: Option<(i32, i32)>) -> (actions:
        Vec<ToController>)
        requires
            old(self)@ is Tracking,
        ensures
            actions@ == reaction(old(self)@, elapsed_nanos, marker),
            final(self)@ == phase_after(old(self)@, elapsed_nanos, marker),
            final(self)@ is Tracking ==> final(self).started() == old(self).started(),
    {
        let mut actions: Vec<ToController> = Vec::new();
        if let Some((x, y)) = marker {
            actions.push(ToController::MoveMouse([x, y]));
            let mut cast = self.ongoing.take().unwrap();
            if cast.register_pos_after(elapsed_nanos, [x, y]) {
                actions.push(ToController::PerformClick([x, y]));
            } else {
                self.ongoing = Some(cast);
            }
        }
        actions
    }

    /// Looks at a frame now and answers it. Whatever the clock reads, the
    /// outcome is that of `react_after` for some age of the cycle, and a
    /// cycle that goes on keeps its start.
    pub fn observe(&mut self, frame: &Frame) -> (actions: Vec<ToController>)
        requires
            old(self)@ is Tracking,
        ensures
            exists|elapsed: u128|
                actions@ == #[trigger] reaction(old(self)@, elapsed, marker_position(frame@))
                    && final(self)@ == phase_after(
                    old(self)@,
                    elapsed,
                    marker_position(frame@),
                ),
            final(self)@ is Tracking ==> final(self).started() == old(self).started(),
    {
        let marker = find_bobber(frame);
        let elapsed: u128 = self.elapsed_nanos().unwrap();
        self.react_after(elapsed, marker)
    }
}

/// What one turn of the engine's loop leaves behind and sends. The turn
/// starts when the running cycle is `age` old. Where a new cycle is due it is
/// started, and no frame is taken. Otherwise the turn waits for a frame:
/// `seen` is `None` where none came, else the cycle's age when the frame was
/// looked at, and what detection found in it.
pub open spec fn turn_outcome(phase: Phase, age: u128, seen: Option<(u128, Option<(i32, i32)>)>) -> (
    Phase,
    Seq<ToController>,
) {
    if must_cast(phase, age) {
        (Phase::Tracking { anchor: None }, seq![ToController::CastHook])
    } else {
        match seen {
            None => (phase, Seq::empty()),
            Some((later, marker)) => (
                phase_after(phase, later, marker),
                reaction(phase, later, marker),
            ),
        }
    }
}

/// What became of the wait for a frame: the frame that came, or the frame
/// source is gone.
pub fn received(got: Result<ToBrain, std::sync::mpsc::RecvError>) -> (done: Result<Frame, Failure>)
    ensures
        match (got, done) {
            (Ok(ToBrain::NextFrame(sent)), Ok(frame)) => frame == sent,
            (Err(_), Err(e)) => e == Failure::Disconnected,
            _ => false,
        },
{
    match got {
        Ok(ToBrain::NextFrame(frame)) => Ok(frame),
        Err(_) => Err(Failure::Disconnected),
    }
}

impl Brain {
    /// The decisions of one turn of the engine's loop. The turn starts when
    /// the running cycle is `age` old. Where a new cycle is due it is started
    /// and the trigger comes back; `seen` is then not looked at. Otherwise
    /// `seen` says whether a frame came, how old the cycle was when it was
    /// looked at, and what detection found in it; the answer to it comes
    /// back, and a cycle that goes on keeps its start.
    pub fn step(&mut self, age: u128, seen: Option<(u128, Option<(i32, i32)>)>) -> (actions: Vec<
        ToController,
    >)
        ensures
            (final(self)@, actions@) == turn_outcome(old(self)@, age, seen),
            !must_cast(old(self)@, age) && final(self)@ is Tracking ==> final(self).started()
                == old(self).started(),
    {
        if self.is_due_after(age) {
            let mut actions: Vec<ToController> = Vec::new();
            match self.cast() {
                Ok(action) => {
                    actions.push(action);
                },
                Err(_) => {},
            }
            actions
        } else {
            match seen {
                None => Vec::new(),
                Some((later, marker)) => self.react_after(later, marker),
            }
        }
    }

    /// One turn of the engine's loop. It reads the clock, waits for the next
    /// frame unless a new cycle is due, lets `step` decide, and puts every
    /// action that `step` hands back into `output`, in order. The turn ends
    /// with an error as soon as `received` or `delivered` finds the other end
    /// of a queue gone. Whatever the clock and the queues do, the engine ends
    /// in a phase that `turn_outcome` allows, and a cycle that goes on keeps
    /// its start.
    pub fn turn(&mut self, input: &Receiver<ToBrain>, output: &SyncSender<ToController>) -> (done:
        Result<(), Failure>)
        ensures
            done matches Err(e) ==> e == Failure::Disconnected,
            exists|age: u128, seen: Option<(u128, Option<(i32, i32)>)>|
                final(self)@ == (#[trigger] turn_outcome(old(self)@, age, seen)).0 && (!must_cast(
                    old(self)@,
                    age,
                ) && final(self)@ is Tracking ==> final(self).started() == old(self).started()),
    {
        let ghost before = self@;
        let age: u128 = match self.elapsed_nanos() {
            None => 0,
            Some(nanos) => nanos,
        };
        let seen: Option<(u128, Option<(i32, i32)>)> = if self.is_due_after(age) {
            None
        } else {
            let frame = match received(input.recv()) {
                Ok(frame) => frame,
                Err(e) => {
                    assert(self@ == turn_outcome(before, age, None).0);
                    return Err(e);
                },
            };
            let marker = find_bobber(&frame);
            let later: u128 = self.elapsed_nanos().unwrap();
            Some((later, marker))
        };
        let actions = self.step(age, seen);
        let mut i: usize = 0;
        while i < actions.len()
            invariant
                i <= actions.len(),
                before == old(self)@,
                self@ == turn_outcome(before, age, seen).0,
                !must_cast(before, age) && self@ is Tracking ==> self.started() == old(
                    self,
                ).started(),
            decreases actions.len() - i,
        {
            match delivered(output.send(actions[i])) {
                Ok(()) => {},
                Err(e) => {
                    return Err(e);
                },
            }
            i = i + 1;
        }
        Ok(())
    }
}

/// An engine that follows nothing starts a cycle before it takes any frame:
/// its turn sends the trigger alone, whatever the clock reads and whatever
/// frame is waiting, and a cycle without an anchor is running afterwards.
pub proof fn lemma_idle_turn_casts(age: u128, seen: Option<(u128, Option<(i32, i32)>)>)
    ensures
        turn_outcome(Phase::Idle, age, seen) == (
            Phase::Tracking { anchor: None },
            seq![ToController::CastHook],
        ),
{
}

/// The first observation of a cycle becomes the anchor and triggers no
/// click, however old the cycle is.
pub proof fn lemma_first_observation_anchors(elapsed_nanos: u128, x: i32, y: i32)
    ensures
        reaction(Phase::Tracking { anchor: None }, elapsed_nanos, Some((x, y)))
            == seq![ToController::MoveMouse([x, y])],
        phase_after(Phase::Tracking { anchor: None }, elapsed_nanos, Some((x, y))) == (
            Phase::Tracking { anchor: Some([x, y]) }
        ),
{
}

/// Before the settle delay has passed no observation triggers a click,
/// however far it is from the anchor, and the cycle goes on.
pub proof fn lemma_no_click_before_settle(
    anchor: Option<[i32; 2]>,
    elapsed_nanos: u128,
    marker: Option<(i32, i32)>,
)
    requires
        !settled(elapsed_nanos),
    ensures
        forall|i: int|
            0 <= i < reaction(Phase::Tracking { anchor }, elapsed_nanos, marker).len()
                ==> !(#[trigger] reaction(Phase::Tracking { anchor }, elapsed_nanos, marker)[i]
                is PerformClick),
        phase_after(Phase::Tracking { anchor }, elapsed_nanos, marker) is Tracking,
{
}

/// Stability: once the settle delay has passed, an observation whose squared
/// distance from the anchor is at most 25 moves the cursor and nothing else,
/// and leaves the cycle as it was; one that is farther off moves the cursor,
/// clicks exactly once at the observed position, and ends the cycle.
pub proof fn lemma_stability(anchor: [i32; 2], elapsed_nanos: u128, x: i32, y: i32)
    requires
        settled(elapsed_nanos),
    ensures
        distance_squared(anchor, [x, y]) <= 25 ==> reaction(
            Phase::Tracking { anchor: Some(anchor) },
            elapsed_nanos,
            Some((x, y)),
        ) == seq![ToController::MoveMouse([x, y])] && phase_after(
            Phase::Tracking { anchor: Some(anchor) },
            elapsed_nanos,
            Some((x, y)),
        ) == (Phase::Tracking { anchor: Some(anchor) }),
        distance_squared(anchor, [x, y]) > 25 ==> reaction(
            Phase::Tracking { anchor: Some(anchor) },
            elapsed_nanos,
            Some((x, y)),
        ) == seq![ToController::MoveMouse([x, y]), ToController::PerformClick([x, y])]
            && phase_after(
            Phase::Tracking { anchor: Some(anchor) },
            elapsed_nanos,
            Some((x, y)),
        ) is Idle,
{
}

/// Timeout: a turn that starts after the cast timeout sends a fresh trigger
/// and nothing else, and leaves a cycle without an anchor, whatever was
/// followed before and whatever frame is waiting.
pub proof fn lemma_timeout_restarts(
    phase: Phase,
    age: u128,
    seen: Option<(u128, Option<(i32, i32)>)>,
)
    requires
        timed_out(age),
    ensures
        turn_outcome(phase, age, seen) == (
            Phase::Tracking { anchor: None },
            seq![ToController::CastHook],
        ),
{
}

/// A running cycle ends only by a click: a turn that neither starts a cycle
/// nor clicks leaves a cycle running.
pub proof fn lemma_cycle_ends_by_click(
    anchor: Option<[i32; 2]>,
    age: u128,
    seen: Option<(u128, Option<(i32, i32)>)>,
)
    ensures
        turn_outcome(Phase::Tracking { anchor }, age, seen).0 is Idle <==> !timed_out(age) && (
        match seen {
            Some((later, Some((x, y)))) => is_jump(anchor, later, [x, y]),
            _ => false,
        }),
{
}

/// What the clock and the frame source put into one turn of the loop: the
/// age of the running cycle when the turn starts; and, for a turn that waits
/// for a frame, whether one came, how old the cycle was when it was looked
/// at, and what detection found in it.
pub struct Turn {
    pub age: u128,
    pub seen: Option<(u128, Option<(i32, i32)>)>,
}

/// The phase that a run of turns leaves behind.
pub open spec fn phase_after_turns(phase: Phase, turns: Seq<Turn>) -> Phase
    decreases turns.len(),
{
    if turns.len() == 0 {
        phase
    } else {
        turn_outcome(
            phase_after_turns(phase, turns.drop_last()),
            turns.last().age,
            turns.last().seen,
        ).0
    }
}

/// The actions that a run of turns sends, in order.
pub open spec fn actions_of_turns(phase: Phase, turns: Seq<Turn>) -> Seq<ToController>
    decreases turns.len(),
{
    if turns.len() == 0 {
        Seq::empty()
    } else {
        actions_of_turns(phase, turns.drop_last()) + turn_outcome(
            phase_after_turns(phase, turns.drop_last()),
            turns.last().age,
            turns.last().seen,
        ).1
    }
}

/// Whatever a new engine is fed, the first action it sends is the trigger.
pub proof fn lemma_run_starts_with_cast(turns: Seq<Turn>)
    requires
        turns.len() > 0,
    ensures
        actions_of_turns(Phase::Idle, turns).len() > 0,
        actions_of_turns(Phase::Idle, turns)[0] == ToController::CastHook,
    decreases turns.len(),
{
    let front = turns.drop_last();
    let sent = turn_outcome(
        phase_after_turns(Phase::Idle, front),
        turns.last().age,
        turns.last().seen,
    ).1;
    if front.len() > 0 {
        lemma_run_starts_with_cast(front);
        assert((actions_of_turns(Phase::Idle, front) + sent)[0] == actions_of_turns(
            Phase::Idle,
            front,
        )[0]);
    } else {
        lemma_idle_turn_casts(turns.last().age, turns.last().seen);
        assert(actions_of_turns(Phase::Idle, front) + sent == sent);
    }
}

/// Timeout after any run: whatever turns an engine has taken and whatever
/// it has sent in them, a turn that starts after the cast timeout sends a
/// fresh trigger and nothing else, and leaves a cycle without an anchor.
pub proof fn lemma_timeout_after_any_run(phase: Phase, turns: Seq<Turn>, last: Turn)
    requires
        timed_out(last.age),
    ensures
        phase_after_turns(phase, turns.push(last)) == (Phase::Tracking { anchor: None }),
        actions_of_turns(phase, turns.push(last)) == actions_of_turns(phase, turns).push(
            ToController::CastHook,
        ),
{
    let all = turns.push(last);
    assert(all.drop_last() == turns);
    assert(all.last() == last);
    lemma_timeout_restarts(phase_after_turns(phase, turns), last.age, last.seen);
}

/// A turn that starts before the cast timeout and looks at its frame, if one
/// comes, before the settle delay has passed.
pub open spec fn is_early(turn: Turn) -> bool {
    !timed_out(turn.age) && match turn.seen {
        Some((later, _)) => !settled(later),
        None => true,
    }
}

/// One move for every marker that a run of turns has seen, in order.
pub open spec fn moves_of(turns: Seq<Turn>) -> Seq<ToController>
    decreases turns.len(),
{
    if turns.len() == 0 {
        Seq::empty()
    } else {
        moves_of(turns.drop_last()) + match turns.last().seen {
            Some((_, Some((x, y)))) => seq![ToController::MoveMouse([x, y])],
            _ => Seq::empty(),
        }
    }
}

/// Before the settle delay has passed a running cycle answers every marker
/// with a move and nothing else, however far the marker jumps, and the
/// cycle goes on.
pub proof fn lemma_early_run_only_moves(anchor: Option<[i32; 2]>, turns: Seq<Turn>)
    requires
        forall|i: int| 0 <= i < turns.len() ==> is_early(#[trigger] turns[i]),
    ensures
        phase_after_turns(Phase::Tracking { anchor }, turns) is Tracking,
        actions_of_turns(Phase::Tracking { anchor }, turns) == moves_of(turns),
    decreases turns.len(),
{
    if turns.len() > 0 {
        let front = turns.drop_last();
        assert forall|i: int| 0 <= i < front.len() implies is_early(#[trigger] front[i]) by {
            assert(front[i] == turns[i]);
        }
        lemma_early_run_only_moves(anchor, front);
        assert(is_early(turns[turns.len() - 1]));
    }
}

/// A click ends the cycle, and the turn after it sends the trigger before it
/// takes any frame: whatever that turn is fed, it sends the trigger alone
/// and leaves a cycle without an anchor.
pub proof fn lemma_cast_follows_click(phase: Phase, turn: Turn, next: Turn)
    requires
        exists|j: int|
            0 <= j < turn_outcome(phase, turn.age, turn.seen).1.len() && (#[trigger] turn_outcome(
                phase,
                turn.age,
                turn.seen,
            ).1[j]) is PerformClick,
    ensures
        turn_outcome(phase, turn.age, turn.seen).0 is Idle,
        turn_outcome(turn_outcome(phase, turn.age, turn.seen).0, next.age, next.seen) == (
            Phase::Tracking { anchor: None },
            seq![ToController::CastHook],
        ),
{
}

impl Default for Brain {
    fn default() -> (brain: Self)
        ensures
            brain@ is Idle,
    {
        Self::new()
    }
}

impl HookCast {
    /// A cycle that started at `start`, with no position seen yet.
    pub fn starting_at(start: Instant) -> (cast: Self)
        ensures
            cast.started() == start,
            cast.anchor() is None,
    {
        Self { start, bobber_pos: None }
    }
}

/// What became of a message that was handed to a queue: it went in, or the
/// stage at the other end is gone.
pub fn delivered<T>(sent: Result<(), SendError<T>>) -> (done: Result<(), Failure>)
    ensures
        done is Ok <==> sent is Ok,
        done matches Err(e) ==> e == Failure::Disconnected,
{
    match sent {
        Ok(()) => Ok(()),
        Err(_) => Err(Failure::Disconnected),
    }
}

} // verus!
