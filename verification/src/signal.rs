//! The signal extractor: from a pixel grid to one tick's reading.

use crate::sample::{Grid, PixelSample, Rgb};
use vstd::prelude::*;

verus! {

/// What the shell lets the user tune: the marker's colour and how far a
/// pixel may be from it, and the timing of the action policy.
#[derive(Clone, Copy, Debug, PartialEq, Eq, Structural)]
pub struct Thresholds {
    /// The marker's colour.
    pub target: Rgb,
    /// Largest distance, on each channel, at which a pixel still counts as
    /// the marker. Below zero nothing matches.
    pub tolerance: i32,
    /// Number of consecutive ticks the marker must be seen before acting.
    pub debounce_ticks: u32,
    /// Quiet time after acting, in milliseconds.
    pub cooldown_ms: u64,
    /// Longest time an action is held, in milliseconds.
    pub max_hold_ms: u64,
}

/// One tick's reading of the capture region. Every number is zero when the
/// marker was not found, except `total`.
#[derive(Clone, Copy, Debug, PartialEq, Eq, Structural)]
pub struct Signal {
    /// At least one pixel has the marker's colour.
    pub marker_found: bool,
    /// Number of pixels that have the marker's colour.
    pub matched: u64,
    /// Number of pixels looked at.
    pub total: u64,
    /// Leftmost column that holds a marker pixel.
    pub left: u32,
    /// Topmost row that holds a marker pixel.
    pub top: u32,
    /// Rightmost column that holds a marker pixel.
    pub right: u32,
    /// Lowest row that holds a marker pixel.
    pub bottom: u32,
    /// Mean column of the marker pixels, rounded down.
    pub centroid_x: u32,
    /// Mean row of the marker pixels, rounded down.
    pub centroid_y: u32,
    /// Columns from the middle column of the sample to the centroid;
    /// negative to the left.
    pub marker_offset: i64,
    /// Marker pixels per million pixels, rounded down.
    pub fill_ppm: u32,
}

/// Distance between two values of one colour channel.
pub open spec fn channel_gap(a: u8, b: u8) -> int {
    if a >= b {
        a - b
    } else {
        b - a
    }
}

/// A pixel counts as the marker when each of its channels is within
/// `tolerance` of the target's.
pub open spec fn color_matches(p: Rgb, target: Rgb, tolerance: i32) -> bool {
    &&& channel_gap(p.r, target.r) <= tolerance
    &&& channel_gap(p.g, target.g) <= tolerance
    &&& channel_gap(p.b, target.b) <= tolerance
}

/// Index `i` holds a marker pixel.
pub open spec fn is_hit(pixels: Seq<Rgb>, target: Rgb, tolerance: i32, i: int) -> bool {
    0 <= i < pixels.len() && color_matches(pixels[i], target, tolerance)
}

/// Number of marker pixels among the first `n`.
pub open spec fn hits_before(pixels: Seq<Rgb>, target: Rgb, tolerance: i32, n: nat) -> nat
    decreases n,
{
    if n == 0 {
        0
    } else {
        hits_before(pixels, target, tolerance, (n - 1) as nat) + if is_hit(
            pixels,
            target,
            tolerance,
            n - 1,
        ) {
            1nat
        } else {
            0nat
        }
    }
}

/// Sum of the columns of the marker pixels among the first `n`.
pub open spec fn column_sum_before(grid: Grid, target: Rgb, tolerance: i32, n: nat) -> nat
    decreases n,
{
    if n == 0 {
        0
    } else {
        column_sum_before(grid, target, tolerance, (n - 1) as nat) + if is_hit(
            grid.pixels,
            target,
            tolerance,
            n - 1,
        ) {
            grid.column(n - 1) as nat
        } else {
            0nat
        }
    }
}

/// Sum of the rows of the marker pixels among the first `n`.
pub open spec fn row_sum_before(grid: Grid, target: Rgb, tolerance: i32, n: nat) -> nat
    decreases n,
{
    if n == 0 {
        0
    } else {
        row_sum_before(grid, target, tolerance, (n - 1) as nat) + if is_hit(
            grid.pixels,
            target,
            tolerance,
            n - 1,
        ) {
            grid.row(n - 1) as nat
        } else {
            0nat
        }
    }
}

impl Signal {
    /// The reading of a sample on which nothing matched.
    pub open spec fn nothing_found(total: nat) -> Signal {
        Signal {
            marker_found: false,
            matched: 0,
            total: total as u64,
            left: 0,
            top: 0,
            right: 0,
            bottom: 0,
            centroid_x: 0,
            centroid_y: 0,
            marker_offset: 0,
            fill_ppm: 0,
        }
    }

    /// The box `left..=right`, `top..=bottom` holds every marker pixel and
    /// each of its four sides touches one.
    pub open spec fn is_bounding_box(self, grid: Grid, target: Rgb, tolerance: i32) -> bool {
        &&& forall|i: int| #[trigger]
            is_hit(grid.pixels, target, tolerance, i) ==> {
                &&& self.left <= grid.column(i) <= self.right
                &&& self.top <= grid.row(i) <= self.bottom
            }
        &&& exists|i: int| #[trigger]
            is_hit(grid.pixels, target, tolerance, i) && grid.column(i) == self.left
        &&& exists|i: int| #[trigger]
            is_hit(grid.pixels, target, tolerance, i) && grid.column(i) == self.right
        &&& exists|i: int| #[trigger]
            is_hit(grid.pixels, target, tolerance, i) && grid.row(i) == self.top
        &&& exists|i: int| #[trigger]
            is_hit(grid.pixels, target, tolerance, i) && grid.row(i) == self.bottom
    }

    /// `self` is the reading of `grid` for the given marker colour and
    /// tolerance.
    pub open spec fn reads(self, grid: Grid, target: Rgb, tolerance: i32) -> bool {
        let n = grid.pixels.len();
        let hits = hits_before(grid.pixels, target, tolerance, n);
        if hits == 0 {
            self == Signal::nothing_found(n)
        } else {
            &&& self.marker_found
            &&& self.matched == hits
            &&& self.total == n
            &&& self.is_bounding_box(grid, target, tolerance)
            &&& self.centroid_x == column_sum_before(grid, target, tolerance, n) / hits
            &&& self.centroid_y == row_sum_before(grid, target, tolerance, n) / hits
            &&& self.marker_offset == self.centroid_x - grid.width / 2
            &&& self.fill_ppm == hits * 1_000_000 / n
        }
    }
}

/// Whether a pixel counts as the marker.
pub fn matches_target(p: Rgb, target: Rgb, tolerance: i32) -> (b: bool)
    ensures
        b == color_matches(p, target, tolerance),
{
    let dr: u8 = if p.r >= target.r { p.r - target.r } else { target.r - p.r };
    let dg: u8 = if p.g >= target.g { p.g - target.g } else { target.g - p.g };
    let db: u8 = if p.b >= target.b { p.b - target.b } else { target.b - p.b };
    dr as i32 <= tolerance && dg as i32 <= tolerance && db as i32 <= tolerance
}

/// Reduces a sample to its reading: how many pixels have the marker's
/// colour, the box around them, their centroid, how far that lies from the
/// middle column, and the share of the sample they fill. A sample without a
/// marker pixel, an empty one included, reads as `nothing_found`.
pub fn extract(sample: &PixelSample, thresholds: &Thresholds) -> (s: Signal)
    ensures
        s.reads(sample@, thresholds.target, thresholds.tolerance),
{
    let target = thresholds.target;
    let tolerance = thresholds.tolerance;
    let n: usize = sample.len();
    let width: u32 = sample.width();
    let height: u32 = sample.height();
    let pixels = sample.pixels();
    let ghost grid = sample@;
    let mut matched: u64 = 0;
    let mut left: u32 = 0;
    let mut top: u32 = 0;
    let mut right: u32 = 0;
    let mut bottom: u32 = 0;
    let mut sum_x: u128 = 0;
    let mut sum_y: u128 = 0;
    let ghost mut at_left: int = 0;
    let ghost mut at_right: int = 0;
    let ghost mut at_top: int = 0;
    let ghost mut at_bottom: int = 0;
    let mut i: usize = 0;
    while i < n
        invariant
            i <= n,
            n == grid.pixels.len(),
            n == grid.width * grid.height,
            pixels@ == grid.pixels,
            width == grid.width,
            height == grid.height,
            target == thresholds.target,
            tolerance == thresholds.tolerance,
            matched == hits_before(grid.pixels, target, tolerance, i as nat),
            matched <= i,
            sum_x == column_sum_before(grid, target, tolerance, i as nat),
            sum_y == row_sum_before(grid, target, tolerance, i as nat),
            sum_x <= matched * width,
            sum_y <= matched * height,
            matched == 0 ==> left == 0 && right == 0 && top == 0 && bottom == 0,
            matched > 0 ==> {
                &&& forall|j: int|
                    j < i && #[trigger] is_hit(grid.pixels, target, tolerance, j) ==> {
                        &&& left <= grid.column(j) <= right
                        &&& top <= grid.row(j) <= bottom
                    }
                &&& is_hit(grid.pixels, target, tolerance, at_left) && grid.column(at_left) == left
                &&& is_hit(grid.pixels, target, tolerance, at_right) && grid.column(at_right)
                    == right
                &&& is_hit(grid.pixels, target, tolerance, at_top) && grid.row(at_top) == top
                &&& is_hit(grid.pixels, target, tolerance, at_bottom) && grid.row(at_bottom)
                    == bottom
            },
        decreases n - i,
    {
        if matches_target(pixels[i], target, tolerance) {
            proof {
                lemma_cell_in_grid(i as int, width as int, height as int);
            }
            let x: u32 = (i % width as usize) as u32;
            let y: u32 = (i / width as usize) as u32;
            assert(matched * width + x <= (matched + 1) * width) by (nonlinear_arith)
                requires
                    x < width,
            ;
            assert(matched * height + y <= (matched + 1) * height) by (nonlinear_arith)
                requires
                    y < height,
            ;
            assert((matched + 1) * width <= 0x1_0000_0000_0000_0000 * 0x1_0000_0000)
                by (nonlinear_arith)
                requires
                    matched + 1 <= 0x1_0000_0000_0000_0000,
                    width <= 0x1_0000_0000,
            ;
            assert((matched + 1) * height <= 0x1_0000_0000_0000_0000 * 0x1_0000_0000)
                by (nonlinear_arith)
                requires
                    matched + 1 <= 0x1_0000_0000_0000_0000,
                    height <= 0x1_0000_0000,
            ;
            if matched == 0 {
                proof {
                    lemma_no_hits(grid.pixels, target, tolerance, i as nat);
                }
                left = x;
                right = x;
                top = y;
                bottom = y;
                proof {
                    at_left = i as int;
                    at_right = i as int;
                    at_top = i as int;
                    at_bottom = i as int;
                }
            } else {
                if x < left {
                    left = x;
                    proof {
                        at_left = i as int;
                    }
                }
                if x > right {
                    right = x;
                    proof {
                        at_right = i as int;
                    }
                }
                if y < top {
                    top = y;
                    proof {
                        at_top = i as int;
                    }
                }
                if y > bottom {
                    bottom = y;
                    proof {
                        at_bottom = i as int;
                    }
                }
            }
            matched += 1;
            sum_x += x as u128;
            sum_y += y as u128;
        }
        i += 1;
    }
    if matched == 0 {
        return Signal {
            marker_found: false,
            matched: 0,
            total: n as u64,
            left: 0,
            top: 0,
            right: 0,
            bottom: 0,
            centroid_x: 0,
            centroid_y: 0,
            marker_offset: 0,
            fill_ppm: 0,
        };
    }
    proof {
        lemma_mean_within(sum_x as int, matched as int, width as int);
        lemma_mean_within(sum_y as int, matched as int, height as int);
        lemma_mean_within(matched * 1_000_000, n as int, 1_000_000);
    }
    let centroid_x: u32 = (sum_x / matched as u128) as u32;
    let centroid_y: u32 = (sum_y / matched as u128) as u32;
    let fill_ppm: u32 = (matched as u128 * 1_000_000 / n as u128) as u32;
    let s = Signal {
        marker_found: true,
        matched,
        total: n as u64,
        left,
        top,
        right,
        bottom,
        centroid_x,
        centroid_y,
        marker_offset: centroid_x as i64 - (width / 2) as i64,
        fill_ppm,
    };
    assert(s.is_bounding_box(grid, target, tolerance));
    s
}

/// A sample has one reading only: two signals that both read the same grid
/// with the same colour and tolerance are equal. So extracting twice from
/// one sample, which extraction leaves untouched, gives the same signal.
pub proof fn reading_is_unique(grid: Grid, target: Rgb, tolerance: i32, a: Signal, b: Signal)
    requires
        a.reads(grid, target, tolerance),
        b.reads(grid, target, tolerance),
    ensures
        a == b,
{
}

/// An empty sample reads as nothing found, every number zero.
pub proof fn empty_sample_reads_nothing(grid: Grid, target: Rgb, tolerance: i32, s: Signal)
    requires
        grid.pixels.len() == 0,
        s.reads(grid, target, tolerance),
    ensures
        s == Signal::nothing_found(0),
        !s.marker_found,
{
}

/// With a tolerance below zero no pixel matches, whatever the sample holds.
pub proof fn negative_tolerance_finds_nothing(
    grid: Grid,
    target: Rgb,
    tolerance: i32,
    s: Signal,
)
    requires
        tolerance < 0,
        s.reads(grid, target, tolerance),
    ensures
        s == Signal::nothing_found(grid.pixels.len()),
{
    lemma_no_hits(grid.pixels, target, tolerance, grid.pixels.len());
}

/// A sample that is the marker's colour all over reads as all marker: with
/// a tolerance of zero or more, every pixel is counted and the fill is a
/// million per million.
pub proof fn uniform_marker_fills_the_sample(grid: Grid, target: Rgb, tolerance: i32, s: Signal)
    requires
        tolerance >= 0,
        grid.pixels.len() > 0,
        forall|i: int| 0 <= i < grid.pixels.len() ==> grid.pixels[i] == target,
        s.reads(grid, target, tolerance),
    ensures
        s.marker_found,
        s.matched == grid.pixels.len(),
        s.fill_ppm == 1_000_000,
{
    let n = grid.pixels.len();
    lemma_all_hits(grid.pixels, target, tolerance, n);
    assert(n * 1_000_000 / n == 1_000_000) by (nonlinear_arith)
        requires
            n > 0,
    ;
}

/// The numbers of a reading stay within the sample: the box lies in the
/// grid, the centroid in the box, and the fill is at most a million.
pub proof fn reading_is_within_sample(grid: Grid, target: Rgb, tolerance: i32, s: Signal)
    requires
        grid.well_formed(),
        s.reads(grid, target, tolerance),
        s.marker_found,
    ensures
        s.matched <= s.total,
        s.left <= s.right < grid.width,
        s.top <= s.bottom < grid.height,
        s.fill_ppm <= 1_000_000,
{
    let n = grid.pixels.len();
    lemma_no_hits(grid.pixels, target, tolerance, n);
    let r = choose|i: int| #[trigger]
        is_hit(grid.pixels, target, tolerance, i) && grid.column(i) == s.right;
    let b = choose|i: int| #[trigger]
        is_hit(grid.pixels, target, tolerance, i) && grid.row(i) == s.bottom;
    lemma_cell_in_grid(r, grid.width as int, grid.height as int);
    lemma_cell_in_grid(b, grid.width as int, grid.height as int);
    lemma_mean_within(s.matched * 1_000_000, n as int, 1_000_000);
}

/// Where the count of marker pixels among the first `n` is zero, none of
/// them is a marker pixel; where it is not, one of them is.
pub proof fn lemma_no_hits(pixels: Seq<Rgb>, target: Rgb, tolerance: i32, n: nat)
    requires
        n <= pixels.len(),
    ensures
        hits_before(pixels, target, tolerance, n) == 0 <==> forall|j: int|
            j < n ==> !#[trigger] is_hit(pixels, target, tolerance, j),
        hits_before(pixels, target, tolerance, n) <= n,
    decreases n,
{
    if n > 0 {
        lemma_no_hits(pixels, target, tolerance, (n - 1) as nat);
        if hits_before(pixels, target, tolerance, n) != 0 && !is_hit(
            pixels,
            target,
            tolerance,
            n - 1,
        ) {
            let j = choose|j: int| j < n - 1 && is_hit(pixels, target, tolerance, j);
            assert(j < n && is_hit(pixels, target, tolerance, j));
        }
    }
}

/// Where each of the first `n` pixels is a marker pixel, all `n` are
/// counted.
proof fn lemma_all_hits(pixels: Seq<Rgb>, target: Rgb, tolerance: i32, n: nat)
    requires
        n <= pixels.len(),
        forall|i: int| 0 <= i < n ==> is_hit(pixels, target, tolerance, i),
    ensures
        hits_before(pixels, target, tolerance, n) == n,
    decreases n,
{
    if n > 0 {
        lemma_all_hits(pixels, target, tolerance, (n - 1) as nat);
    }
}

/// In a `width` by `height` grid stored row by row, index `i` lies in a
/// column below `width` and a row below `height`.
proof fn lemma_cell_in_grid(i: int, width: int, height: int)
    requires
        0 <= i < width * height,
        0 <= width,
        0 <= height,
    ensures
        width > 0,
        0 <= i % width < width,
        0 <= i / width < height,
{
    assert(width > 0) by (nonlinear_arith)
        requires
            0 <= i < width * height,
            0 <= width,
    ;
    vstd::arithmetic::div_mod::lemma_fundamental_div_mod(i, width);
    vstd::arithmetic::div_mod::lemma_mod_bound(i, width);
    let q = i / width;
    assert(0 <= q < height) by (nonlinear_arith)
        requires
            i == width * q + i % width,
            0 <= i % width < width,
            0 <= i < width * height,
            width > 0,
    ;
}

/// A sum of `count` values, none above `bound`, has a mean that is not
/// above `bound` either.
proof fn lemma_mean_within(sum: int, count: int, bound: int)
    requires
        0 <= sum <= count * bound,
        count > 0,
    ensures
        0 <= sum / count <= bound,
{
    vstd::arithmetic::div_mod::lemma_fundamental_div_mod(sum, count);
    vstd::arithmetic::div_mod::lemma_mod_bound(sum, count);
    let q = sum / count;
    assert(0 <= q <= bound) by (nonlinear_arith)
        requires
            sum == count * q + sum % count,
            0 <= sum % count < count,
            0 <= sum <= count * bound,
            count > 0,
    ;
}

} // verus!
