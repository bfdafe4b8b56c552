//! Which black-and-white pictures are searched for codes.
//!
//! The search of `rqrr` takes every ring around a core for the finder pattern of
//! a code, and every three of these that stand about square to each other for
//! those of one code. It computes a perspective from their corners. For rings of
//! any shape and place that can fail an assertion. It cannot where all rings are
//! finder patterns drawn pixel by pixel, and where any three that are taken for a
//! code are exactly square to each other: then every perspective is a plain
//! scaling.
use crate::raster::{connected, lemma_index, parts, Mask, Raster};
use vstd::arithmetic::div_mod::lemma_fundamental_div_mod;
use vstd::prelude::*;

verus! {

/// The largest width of a picture that is searched. Running averages over a row
/// then fit in 32 bits.
pub const MAX_WIDTH: usize = 0x7fff;

/// The largest height of a picture that is searched. Row numbers then fit in an
/// `i32`.
pub const MAX_HEIGHT: usize = 0x7fff_ffff;

/// The largest number of dark pixels in a picture that is searched. A hundred
/// times as many still fit in 32 bits.
pub const MAX_DARK: usize = 42949672;

/// The number of rows in which finder patterns may stand. Twice the square of a
/// coordinate then fits in an `i32`.
pub const MAX_BOTTOM: usize = 0x7fff;

/// The largest product of two sides of a finder pattern and a coordinate.
pub const MAX_PRODUCT: u64 = 0x7fff_ffff;

/// The most changes between dark and light along the timing pattern of a code
/// that has no alignment pattern.
pub const MAX_SMALL_CHANGES: usize = 9;

/// Where the run of equal pixels that holds a pixel ends in its row.
pub open spec fn run_end(m: Mask, x: int, y: int) -> int
    decreases m.width - x,
{
    if x + 1 >= m.width {
        m.width
    } else if m.at(x + 1, y) != m.at(x, y) {
        x + 1
    } else {
        run_end(m, x + 1, y)
    }
}

/// Whether a length is about `n` times an average.
pub open spec fn about(length: int, n: int, average: int) -> bool {
    n * average - average * 3 / 4 <= length <= n * average + average * 3 / 4
}

/// Whether a dark run that starts at a place begins a row of a ring around a
/// core: with two light runs between, a dark run about three times as long
/// follows, which is not connected to what comes after it, and another dark run,
/// which belongs to the same part as the first.
pub open spec fn ring_row(m: Mask, k: int) -> bool {
    let x = k % m.width;
    let y = k / m.width;
    let gap = run_end(m, x, y);
    let core = run_end(m, gap, y);
    let far_gap = run_end(m, core, y);
    let far = run_end(m, far_gap, y);
    let end = run_end(m, far, y);
    let average = ((core - x) + (end - far_gap)) / 4;
    &&& m.at(x, y) && !m.at(x - 1, y)
    &&& far < m.width
    &&& about(gap - x, 1, average) && about(core - gap, 1, average)
    &&& about(far_gap - core, 3, average)
    &&& about(far - far_gap, 1, average) && about(end - far, 1, average)
    &&& connected(m, k, k - x + far)
    &&& !connected(m, k - x + core, k - x + far)
}

/// Whether a pixel of a finder pattern is dark: a frame of one unit around a
/// core of three by three units, seven units a side.
pub open spec fn finder_pixel(i: int, j: int, unit: int) -> bool {
    let col = i / unit;
    let row = j / unit;
    &&& 0 <= i < 7 * unit && 0 <= j < 7 * unit
    &&& col == 0 || col == 6 || row == 0 || row == 6 || (2 <= col <= 4 && 2 <= row <= 4)
}

/// Whether a finder pattern stands at a position, and is light all around.
pub open spec fn draws_finder(m: Mask, x: int, y: int, unit: int) -> bool {
    &&& unit >= 1
    &&& forall|px: int, py: int|
        x - 1 <= px <= x + 7 * unit && y - 1 <= py <= y + 7 * unit ==> #[trigger] m.at(px, py)
            == finder_pixel(px - x, py - y, unit)
}

/// Whether a dark square stands at a position, and is light all around.
pub open spec fn draws_square(m: Mask, x: int, y: int, side: int) -> bool {
    forall|px: int, py: int|
        x - 1 <= px <= x + side && y - 1 <= py <= y + side ==> #[trigger] m.at(px, py) == (x <= px < x
            + side && y <= py < y + side)
}

/// A finder pattern: where it stands, and its unit.
pub struct Finder {
    pub x: int,
    pub y: int,
    pub unit: int,
}

impl Finder {
    /// The length of a side.
    pub open spec fn side(self) -> int {
        7 * self.unit
    }
}

/// The finder pattern whose top left corner would stand at a place: the dark run
/// that starts there is its upper side.
pub open spec fn finder_at(m: Mask, k: int) -> Finder {
    let x = k % m.width;
    let y = k / m.width;
    Finder { x, y, unit: (run_end(m, x, y) - x) / 7 }
}

/// Whether a finder pattern stands in a picture.
pub open spec fn is_finder(m: Mask, f: Finder) -> bool {
    m.at(f.x, f.y) && draws_finder(m, f.x, f.y, f.unit)
}

/// The finder patterns at the first `n` places, in order.
pub open spec fn finders_among(m: Mask, n: nat) -> Seq<Finder>
    decreases n,
{
    if n == 0 {
        Seq::empty()
    } else if is_finder(m, finder_at(m, n - 1)) {
        finders_among(m, (n - 1) as nat).push(finder_at(m, n - 1))
    } else {
        finders_among(m, (n - 1) as nat)
    }
}

/// The finder patterns in a picture, in order.
pub open spec fn finders(m: Mask) -> Seq<Finder> {
    finders_among(m, m.dark.len())
}

/// Whether a row that starts at a place crosses the core of a finder pattern.
pub open spec fn crosses(m: Mask, f: Finder, k: int) -> bool {
    f.x == k % m.width && f.y + 2 * f.unit <= k / m.width < f.y + 5 * f.unit
}

/// The number of changes between dark and light along a row.
pub open spec fn row_changes(m: Mask, y: int, from: int, to: int) -> int
    decreases to - from,
{
    if to <= from {
        0
    } else {
        row_changes(m, y, from, to - 1) + if m.at(to - 1, y) != m.at(to, y) {
            1int
        } else {
            0
        }
    }
}

/// The number of changes between dark and light along a column.
pub open spec fn column_changes(m: Mask, x: int, from: int, to: int) -> int
    decreases to - from,
{
    if to <= from {
        0
    } else {
        column_changes(m, x, from, to - 1) + if m.at(x, to - 1) != m.at(x, to) {
            1int
        } else {
            0
        }
    }
}

/// The distance of two numbers.
pub open spec fn distance(a: int, b: int) -> int {
    if a < b {
        b - a
    } else {
        a - b
    }
}

/// Twice the distance between the centres of two finder patterns along a row.
pub open spec fn row_distance(a: Finder, b: Finder) -> int {
    distance(2 * a.x + a.side(), 2 * b.x + b.side())
}

/// Twice the distance between the centres of two finder patterns along a column.
pub open spec fn column_distance(a: Finder, b: Finder) -> int {
    distance(2 * a.y + a.side(), 2 * b.y + b.side())
}

/// Whether finder patterns may be taken for those of one code, with `corner` in
/// its corner, `column` about in the same column and `row` about in the same
/// row. Centres are known to half a pixel.
pub open spec fn may_group(corner: Finder, column: Finder, row: Finder) -> bool {
    let down = column_distance(corner, column);
    let across = row_distance(corner, row);
    &&& 5 * row_distance(corner, column) <= down + 6
    &&& 5 * column_distance(corner, row) <= across + 6
    &&& 4 * down + 7 >= 3 * across && 4 * across + 7 >= 3 * down
}

/// The pixel of a side that starts at `start`, at an offset that counts in the
/// direction in which the code extends.
pub open spec fn side_at(start: int, unit: int, forward: bool, offset: int) -> int {
    if forward {
        start + offset
    } else {
        start + 7 * unit - 1 - offset
    }
}

/// How far the middle of the inner side of a frame is from its outer edge.
pub open spec fn inner_middle(unit: int) -> int {
    (13 * unit - 1) / 2
}

/// The number of changes between dark and light along a row, from the inner side
/// of one frame to the outer side of the next.
pub open spec fn changes_across(m: Mask, corner: Finder, column: Finder, row: Finder) -> int {
    let unit = corner.unit;
    let right = corner.x < row.x;
    let below = corner.y < column.y;
    let inner = side_at(corner.x, unit, right, inner_middle(unit));
    let outer = side_at(row.x, unit, right, unit / 2);
    let y = side_at(corner.y, unit, below, inner_middle(unit));
    if right {
        row_changes(m, y, inner, outer)
    } else {
        row_changes(m, y, outer, inner)
    }
}

/// The number of changes between dark and light along a column, from the inner
/// side of one frame to the outer side of the next.
pub open spec fn changes_down(m: Mask, corner: Finder, column: Finder, row: Finder) -> int {
    let unit = corner.unit;
    let right = corner.x < row.x;
    let below = corner.y < column.y;
    let inner = side_at(corner.y, unit, below, inner_middle(unit));
    let outer = side_at(column.y, unit, below, unit / 2);
    let x = side_at(corner.x, unit, right, inner_middle(unit));
    if below {
        column_changes(m, x, inner, outer)
    } else {
        column_changes(m, x, outer, inner)
    }
}

/// Where the part of a side of one unit starts that is farthest from the rest of
/// the code.
pub open spec fn outer_unit(start: int, unit: int, forward: bool) -> int {
    if forward {
        start
    } else {
        start + 6 * unit
    }
}

/// Whether the centre of an alignment pattern stands opposite the corner: a dark
/// square of one unit in line with the outer sides of the other two.
pub open spec fn has_alignment(m: Mask, corner: Finder, column: Finder, row: Finder) -> bool {
    draws_square(
        m,
        outer_unit(row.x, corner.unit, corner.x < row.x),
        outer_unit(column.y, corner.unit, corner.y < column.y),
        corner.unit,
    )
}

/// Whether a finder pattern is small enough for where it stands.
pub open spec fn within_product(f: Finder) -> bool {
    &&& f.side() * f.side() * (f.x + f.side()) <= MAX_PRODUCT
    &&& f.side() * f.side() * (f.y + f.side()) <= MAX_PRODUCT
}

/// Whether three finder patterns stand as those of a code that is turned by a
/// multiple of a right angle: alike, in one row and in one column. Between them
/// runs a short timing pattern, or the centre of an alignment pattern stands
/// opposite.
pub open spec fn squared(m: Mask, corner: Finder, column: Finder, row: Finder) -> bool {
    &&& column.unit == corner.unit && row.unit == corner.unit
    &&& column.x == corner.x && row.y == corner.y
    &&& within_product(corner) && within_product(column) && within_product(row)
    &&& has_alignment(m, corner, column, row) || (changes_across(m, corner, column, row)
        <= MAX_SMALL_CHANGES && changes_down(m, corner, column, row) <= MAX_SMALL_CHANGES)
}

/// The number of dark pixels among the first `n`.
pub open spec fn dark_among(dark: Seq<bool>, n: int) -> int
    decreases n,
{
    if n <= 0 {
        0
    } else {
        dark_among(dark, n - 1) + if dark[n - 1] {
            1int
        } else {
            0
        }
    }
}

/// Whether three finder patterns of a list are no code, or one that can be
/// searched for.
pub open spec fn group_is_safe(m: Mask, all: Seq<Finder>, i: int, j: int, l: int) -> bool {
    i != j && i != l && j != l && may_group(all[i], all[j], all[l]) ==> squared(
        m,
        all[i],
        all[j],
        all[l],
    )
}

/// Whether a picture is searched: it is not too large, its rings around a core
/// are all finder patterns, and those that may be taken for a code stand square
/// to each other.
pub open spec fn searchable(m: Mask) -> bool {
    let all = finders(m);
    &&& m.width <= MAX_WIDTH && m.height <= MAX_HEIGHT
    &&& m.width > 0 || m.height == 0
    &&& dark_among(m.dark, m.dark.len() as int) <= MAX_DARK
    &&& forall|k: int|
        0 <= k < m.dark.len() && #[trigger] ring_row(m, k) ==> exists|i: int|
            0 <= i < all.len() && crosses(m, #[trigger] all[i], k)
    &&& forall|i: int| 0 <= i < all.len() ==> (#[trigger] all[i]).y + all[i].side() <= MAX_BOTTOM
    &&& forall|i: int, j: int, l: int|
        0 <= i < all.len() && 0 <= j < all.len() && 0 <= l < all.len() ==> #[trigger] group_is_safe(
            m,
            all,
            i,
            j,
            l,
        )
}

/// Whether a raster is small enough to be searched.
spec fn fits(raster: Raster) -> bool {
    &&& raster.well_formed()
    &&& 1 <= raster.width <= MAX_WIDTH
    &&& raster.height <= MAX_HEIGHT
}

/// Finds where the run that holds a pixel ends in its row.
fn find_run_end(raster: &Raster, x: usize, y: usize) -> (end: usize)
    requires
        fits(*raster),
        x <= raster.width,
    ensures
        end == run_end(raster@, x as int, y as int),
        x <= end <= raster.width,
{
    if x == raster.width {
        return x;
    }
    let dark: bool = raster.is_dark(x, y);
    let mut last: usize = x;
    while last + 1 < raster.width && raster.is_dark(last + 1, y) == dark
        invariant
            fits(*raster),
            x <= last < raster.width,
            dark == raster@.at(last as int, y as int),
            run_end(raster@, x as int, y as int) == run_end(raster@, last as int, y as int),
        decreases raster.width - last,
    {
        last = last + 1;
    }
    last + 1
}

/// Whether the pixel to the left of and above a position is dark.
fn is_dark_before(raster: &Raster, x: usize, y: usize) -> (dark: bool)
    requires
        fits(*raster),
    ensures
        dark == raster@.at(x - 1, y - 1),
{
    x > 0 && y > 0 && raster.is_dark(x - 1, y - 1)
}

/// Whether the pixel of a finder pattern to the left of and above an offset is
/// dark.
fn finder_pixel_before(i: usize, j: usize, unit: usize) -> (dark: bool)
    requires
        1 <= unit <= MAX_WIDTH,
    ensures
        dark == finder_pixel(i - 1, j - 1, unit as int),
{
    if i == 0 || j == 0 || i > 7 * unit || j > 7 * unit {
        return false;
    }
    let col: usize = (i - 1) / unit;
    let row: usize = (j - 1) / unit;
    col == 0 || col == 6 || row == 0 || row == 6 || (2 <= col && col <= 4 && 2 <= row && row <= 4)
}

/// Whether a finder pattern stands at a position, and is light all around.
fn finder_stands(raster: &Raster, x: usize, y: usize, unit: usize) -> (stands: bool)
    requires
        fits(*raster),
        x <= MAX_WIDTH,
        y <= MAX_HEIGHT,
        1 <= unit <= MAX_WIDTH,
    ensures
        stands == draws_finder(raster@, x as int, y as int, unit as int),
{
    let mut i: usize = 0;
    while i <= 7 * unit + 1
        invariant
            fits(*raster),
            x <= MAX_WIDTH,
            y <= MAX_HEIGHT,
            1 <= unit <= MAX_WIDTH,
            i <= 7 * unit + 2,
            forall|px: int, py: int|
                x - 1 <= px < x - 1 + i && y - 1 <= py <= y + 7 * unit ==> #[trigger] raster@.at(px, py)
                    == finder_pixel(px - x, py - y, unit as int),
        decreases 7 * unit + 2 - i,
    {
        let mut j: usize = 0;
        while j <= 7 * unit + 1
            invariant
                fits(*raster),
                x <= MAX_WIDTH,
                y <= MAX_HEIGHT,
                1 <= unit <= MAX_WIDTH,
                i <= 7 * unit + 1,
                j <= 7 * unit + 2,
                forall|px: int, py: int|
                    px == x + i - 1 && y - 1 <= py < y - 1 + j ==> #[trigger] raster@.at(px, py)
                        == finder_pixel(px - x, py - y, unit as int),
            decreases 7 * unit + 2 - j,
        {
            if is_dark_before(raster, x + i, y + j) != finder_pixel_before(i, j, unit) {
                assert(raster@.at(x + i - 1, y + j - 1) != finder_pixel(i - 1, j - 1, unit as int));
                return false;
            }
            j = j + 1;
        }
        i = i + 1;
    }
    true
}

/// Whether a dark square stands at a position, and is light all around.
fn square_stands(raster: &Raster, x: usize, y: usize, side: usize) -> (stands: bool)
    requires
        fits(*raster),
        x <= 8 * MAX_WIDTH,
        y <= 8 * MAX_WIDTH,
        side <= MAX_WIDTH,
    ensures
        stands == draws_square(raster@, x as int, y as int, side as int),
{
    let mut i: usize = 0;
    while i <= side + 1
        invariant
            fits(*raster),
            x <= 8 * MAX_WIDTH,
            y <= 8 * MAX_WIDTH,
            side <= MAX_WIDTH,
            i <= side + 2,
            forall|px: int, py: int|
                x - 1 <= px < x - 1 + i && y - 1 <= py <= y + side ==> #[trigger] raster@.at(px, py) == (
                x <= px < x + side && y <= py < y + side),
        decreases side + 2 - i,
    {
        let mut j: usize = 0;
        while j <= side + 1
            invariant
                fits(*raster),
                x <= 8 * MAX_WIDTH,
                y <= 8 * MAX_WIDTH,
                side <= MAX_WIDTH,
                i <= side + 1,
                j <= side + 2,
                forall|px: int, py: int|
                    px == x + i - 1 && y - 1 <= py < y - 1 + j ==> #[trigger] raster@.at(px, py) == (x
                        <= px < x + side && y <= py < y + side),
            decreases side + 2 - j,
        {
            let inside: bool = 1 <= i && i <= side && 1 <= j && j <= side;
            if is_dark_before(raster, x + i, y + j) != inside {
                assert(raster@.at(x + i - 1, y + j - 1) != inside);
                return false;
            }
            j = j + 1;
        }
        i = i + 1;
    }
    true
}

/// The position of a place in the row-by-row list.
proof fn lemma_position(raster: Raster, k: int)
    requires
        fits(raster),
        0 <= k < raster@.dark.len(),
    ensures
        0 <= k % raster@.width < raster.width,
        0 <= k / raster@.width < raster.height,
        k == (k / raster@.width) * raster@.width + k % raster@.width,
{
    let w = raster@.width;
    let h = raster@.height;
    lemma_fundamental_div_mod(k, w);
    let q = k / w;
    assert(w * q == q * w) by (nonlinear_arith);
    assert(0 <= q < h) by (nonlinear_arith)
        requires
            0 <= k < w * h,
            w > 0,
            k == w * q + k % w,
            0 <= k % w < w,
    ;
}

/// A run ends behind its pixels, and what comes next has the other colour.
proof fn lemma_run_end(m: Mask, x: int, y: int)
    requires
        0 <= x < m.width,
    ensures
        x < run_end(m, x, y) <= m.width,
        run_end(m, x, y) < m.width ==> m.at(run_end(m, x, y), y) != m.at(x, y),
    decreases m.width - x,
{
    if x + 1 < m.width && m.at(x + 1, y) == m.at(x, y) {
        lemma_run_end(m, x + 1, y);
    }
}

/// A finder pattern: where it stands, and its unit.
#[derive(Clone, Copy)]
struct FoundFinder {
    x: usize,
    y: usize,
    unit: usize,
}

impl View for FoundFinder {
    type V = Finder;

    closed spec fn view(&self) -> Finder {
        Finder { x: self.x as int, y: self.y as int, unit: self.unit as int }
    }
}

/// The finder patterns in a list.
spec fn found_views(list: Seq<FoundFinder>) -> Seq<Finder> {
    Seq::new(list.len(), |i: int| list[i]@)
}

/// Whether a finder pattern lies within the limits of a picture.
spec fn in_limits(f: FoundFinder) -> bool {
    &&& 1 <= f.unit
    &&& f.x + 7 * f.unit <= MAX_WIDTH
    &&& f.y <= MAX_HEIGHT
}

/// Finds the finder pattern whose top left corner stands at a place.
fn find_finder(raster: &Raster, k: usize) -> (found: Option<FoundFinder>)
    requires
        fits(*raster),
        k < raster@.dark.len(),
    ensures
        found is Some <==> is_finder(raster@, finder_at(raster@, k as int)),
        found matches Some(f) ==> f@ == finder_at(raster@, k as int) && in_limits(f),
{
    proof {
        lemma_position(*raster, k as int);
    }
    let x: usize = k % raster.width;
    let y: usize = k / raster.width;
    if !raster.is_dark(x, y) {
        return None;
    }
    if x > 0 && raster.is_dark(x - 1, y) {
        assert(raster@.at(x - 1, y as int) != finder_pixel(-1, 0, finder_at(raster@, k as int).unit));
        return None;
    }
    let unit: usize = (find_run_end(raster, x, y) - x) / 7;
    if unit >= 1 && finder_stands(raster, x, y, unit) {
        Some(FoundFinder { x, y, unit })
    } else {
        None
    }
}

/// Finds the finder patterns in a picture.
fn find_finders(raster: &Raster) -> (found: Vec<FoundFinder>)
    requires
        fits(*raster),
    ensures
        found_views(found@) == finders(raster@),
        forall|i: int| 0 <= i < found@.len() ==> #[trigger] in_limits(found@[i]),
{
    let mut found: Vec<FoundFinder> = Vec::new();
    let mut k: usize = 0;
    assert(found_views(found@) =~= finders_among(raster@, 0));
    while k < raster.dark.len()
        invariant
            fits(*raster),
            k <= raster@.dark.len(),
            found_views(found@) == finders_among(raster@, k as nat),
            forall|i: int| 0 <= i < found@.len() ==> #[trigger] in_limits(found@[i]),
        decreases raster@.dark.len() - k,
    {
        let ghost before = found@;
        if let Some(f) = find_finder(raster, k) {
            found.push(f);
            assert(found_views(found@) =~= found_views(before).push(f@));
        }
        k = k + 1;
    }
    found
}

/// Whether a length is about `n` times an average.
fn is_about(length: usize, n: usize, average: usize) -> (fitting: bool)
    requires
        length <= MAX_WIDTH,
        n <= 3,
        average <= MAX_WIDTH,
    ensures
        fitting == about(length as int, n as int, average as int),
{
    assert(n * average <= 3 * average) by (nonlinear_arith)
        requires
            n <= 3,
    ;
    let slack: usize = average * 3 / 4;
    n * average <= length + slack && length <= n * average + slack
}

/// Whether a dark run that starts at a place begins a row of a ring around a
/// core.
fn begins_ring_row(raster: &Raster, labels: &Vec<usize>, k: usize) -> (begins: bool)
    requires
        fits(*raster),
        k < raster@.dark.len(),
        labels@.len() == raster@.dark.len(),
        forall|p: int, q: int|
            0 <= p < labels@.len() && 0 <= q < labels@.len() && raster@.dark[p] && raster@.dark[q] ==> (
            #[trigger] connected(raster@, p, q) <==> labels@[p] == labels@[q]),
    ensures
        begins == ring_row(raster@, k as int),
{
    proof {
        lemma_position(*raster, k as int);
    }
    let width: usize = raster.width;
    let x: usize = k % width;
    let y: usize = k / width;
    if !raster.is_dark(x, y) || (x > 0 && raster.is_dark(x - 1, y)) {
        return false;
    }
    let gap: usize = find_run_end(raster, x, y);
    let core: usize = find_run_end(raster, gap, y);
    let far_gap: usize = find_run_end(raster, core, y);
    let far: usize = find_run_end(raster, far_gap, y);
    let end: usize = find_run_end(raster, far, y);
    if far >= width {
        return false;
    }
    let average: usize = ((core - x) + (end - far_gap)) / 4;
    if !is_about(gap - x, 1, average) || !is_about(core - gap, 1, average) || !is_about(
        far_gap - core,
        3,
        average,
    ) || !is_about(far - far_gap, 1, average) || !is_about(end - far, 1, average) {
        return false;
    }
    proof {
        lemma_run_end(raster@, x as int, y as int);
        lemma_run_end(raster@, gap as int, y as int);
        lemma_run_end(raster@, core as int, y as int);
        lemma_run_end(raster@, far_gap as int, y as int);
        lemma_index(width as int, raster.height as int, core as int, y as int);
        lemma_index(width as int, raster.height as int, far as int, y as int);
        assert(labels.len() == labels@.len());
        assert(connected(raster@, k as int, k - x + far) <==> labels@[k as int] == labels@[k - x + far]);
        assert(connected(raster@, k - x + core, k - x + far) <==> labels@[k - x + core] == labels@[k - x
            + far]);
    }
    labels[k] == labels[k - x + far] && labels[k - x + core] != labels[k - x + far]
}

/// Counts the changes between dark and light along a row.
fn count_row_changes(raster: &Raster, y: usize, from: usize, to: usize) -> (changes: usize)
    requires
        fits(*raster),
    ensures
        changes == row_changes(raster@, y as int, from as int, to as int),
{
    if to <= from {
        return 0;
    }
    let mut changes: usize = 0;
    let mut x: usize = from;
    while x < to
        invariant
            fits(*raster),
            from <= x <= to,
            changes == row_changes(raster@, y as int, from as int, x as int),
            changes <= x - from,
        decreases to - x,
    {
        if raster.is_dark(x, y) != raster.is_dark(x + 1, y) {
            changes = changes + 1;
        }
        x = x + 1;
    }
    changes
}

/// Counts the changes between dark and light along a column.
fn count_column_changes(raster: &Raster, x: usize, from: usize, to: usize) -> (changes: usize)
    requires
        fits(*raster),
    ensures
        changes == column_changes(raster@, x as int, from as int, to as int),
{
    if to <= from {
        return 0;
    }
    let mut changes: usize = 0;
    let mut y: usize = from;
    while y < to
        invariant
            fits(*raster),
            from <= y <= to,
            changes == column_changes(raster@, x as int, from as int, y as int),
            changes <= y - from,
        decreases to - y,
    {
        if raster.is_dark(x, y) != raster.is_dark(x, y + 1) {
            changes = changes + 1;
        }
        y = y + 1;
    }
    changes
}

/// The distance of two numbers.
fn distance_of(a: usize, b: usize) -> (d: usize)
    ensures
        d == distance(a as int, b as int),
{
    if a < b {
        b - a
    } else {
        a - b
    }
}

/// Whether a finder pattern lies within the limits of all of them.
spec fn low(f: FoundFinder) -> bool {
    in_limits(f) && f.y + 7 * f.unit <= MAX_BOTTOM
}

/// Whether finder patterns may be taken for those of one code.
fn may_be_grouped(corner: FoundFinder, column: FoundFinder, row: FoundFinder) -> (may: bool)
    requires
        low(corner),
        low(column),
        low(row),
    ensures
        may == may_group(corner@, column@, row@),
{
    let down: usize = distance_of(2 * corner.y + 7 * corner.unit, 2 * column.y + 7 * column.unit);
    let aside: usize = distance_of(2 * corner.x + 7 * corner.unit, 2 * column.x + 7 * column.unit);
    let across: usize = distance_of(2 * corner.x + 7 * corner.unit, 2 * row.x + 7 * row.unit);
    let slope: usize = distance_of(2 * corner.y + 7 * corner.unit, 2 * row.y + 7 * row.unit);
    5 * aside <= down + 6 && 5 * slope <= across + 6 && 4 * down + 7 >= 3 * across && 4 * across + 7 >= 3
        * down
}

/// The pixel of a side at an offset in the direction in which the code extends.
fn pixel_of_side(start: usize, unit: usize, forward: bool, offset: usize) -> (at: usize)
    requires
        start <= MAX_WIDTH,
        unit <= MAX_WIDTH,
        offset < 7 * unit,
    ensures
        at == side_at(start as int, unit as int, forward, offset as int),
{
    if forward {
        start + offset
    } else {
        start + 7 * unit - 1 - offset
    }
}

/// Whether a finder pattern is small enough for where it stands.
fn is_within_product(f: FoundFinder) -> (within: bool)
    requires
        low(f),
    ensures
        within == within_product(f@),
{
    let side: u64 = 7 * f.unit as u64;
    let right: u64 = f.x as u64 + side;
    let bottom: u64 = f.y as u64 + side;
    assert(side * side <= 0x7fff * 0x7fff) by (nonlinear_arith)
        requires
            side <= 0x7fff,
    ;
    let square: u64 = side * side;
    assert(square * right <= 0x7fff * 0x7fff * 0x7fff && square * bottom <= 0x7fff * 0x7fff * 0x7fff)
        by (nonlinear_arith)
        requires
            square <= 0x7fff * 0x7fff,
            right <= 0x7fff,
            bottom <= 0x7fff,
    ;
    square * right <= MAX_PRODUCT && square * bottom <= MAX_PRODUCT
}

/// Whether three finder patterns stand as those of a code that can be searched
/// for.
fn are_squared(raster: &Raster, corner: FoundFinder, column: FoundFinder, row: FoundFinder) -> (yes: bool)
    requires
        fits(*raster),
        low(corner),
        low(column),
        low(row),
    ensures
        yes == squared(raster@, corner@, column@, row@),
{
    let unit: usize = corner.unit;
    if column.unit != unit || row.unit != unit || column.x != corner.x || row.y != corner.y {
        return false;
    }
    if !is_within_product(corner) || !is_within_product(column) || !is_within_product(row) {
        return false;
    }
    let right: bool = corner.x < row.x;
    let below: bool = corner.y < column.y;
    let left: usize = if right {
        row.x
    } else {
        row.x + 6 * unit
    };
    let top: usize = if below {
        column.y
    } else {
        column.y + 6 * unit
    };
    if square_stands(raster, left, top, unit) {
        return true;
    }
    let middle: usize = (13 * unit - 1) / 2;
    let x: usize = pixel_of_side(corner.x, unit, right, middle);
    let y: usize = pixel_of_side(corner.y, unit, below, middle);
    let outer_x: usize = pixel_of_side(row.x, unit, right, unit / 2);
    let outer_y: usize = pixel_of_side(column.y, unit, below, unit / 2);
    let across: usize = if right {
        count_row_changes(raster, y, x, outer_x)
    } else {
        count_row_changes(raster, y, outer_x, x)
    };
    let down: usize = if below {
        count_column_changes(raster, x, y, outer_y)
    } else {
        count_column_changes(raster, x, outer_y, y)
    };
    across <= MAX_SMALL_CHANGES && down <= MAX_SMALL_CHANGES
}

/// Whether all groups of three in a list with a given corner and column are
/// safe.
fn rows_are_safe(raster: &Raster, all: &Vec<FoundFinder>, i: usize, j: usize) -> (safe: bool)
    requires
        fits(*raster),
        i < all@.len(),
        j < all@.len(),
        forall|n: int| 0 <= n < all@.len() ==> #[trigger] low(all@[n]),
    ensures
        safe <==> forall|l: int|
            0 <= l < all@.len() ==> #[trigger] group_is_safe(
                raster@,
                found_views(all@),
                i as int,
                j as int,
                l,
            ),
{
    let mut l: usize = 0;
    while l < all.len()
        invariant
            fits(*raster),
            i < all@.len(),
            j < all@.len(),
            l <= all@.len(),
            forall|n: int| 0 <= n < all@.len() ==> #[trigger] low(all@[n]),
            forall|n: int|
                0 <= n < l ==> #[trigger] group_is_safe(
                    raster@,
                    found_views(all@),
                    i as int,
                    j as int,
                    n,
                ),
        decreases all@.len() - l,
    {
        assert(low(all@[i as int]) && low(all@[j as int]) && low(all@[l as int]));
        if i != j && i != l && j != l && may_be_grouped(all[i], all[j], all[l]) && !are_squared(
            raster,
            all[i],
            all[j],
            all[l],
        ) {
            assert(!group_is_safe(raster@, found_views(all@), i as int, j as int, l as int));
            return false;
        }
        l = l + 1;
    }
    true
}

/// Whether all groups of three in a list are safe.
fn groups_are_safe(raster: &Raster, all: &Vec<FoundFinder>) -> (safe: bool)
    requires
        fits(*raster),
        forall|n: int| 0 <= n < all@.len() ==> #[trigger] low(all@[n]),
    ensures
        safe <==> forall|i: int, j: int, l: int|
            0 <= i < all@.len() && 0 <= j < all@.len() && 0 <= l < all@.len()
                ==> #[trigger] group_is_safe(raster@, found_views(all@), i, j, l),
{
    let mut i: usize = 0;
    while i < all.len()
        invariant
            fits(*raster),
            i <= all@.len(),
            forall|n: int| 0 <= n < all@.len() ==> #[trigger] low(all@[n]),
            forall|a: int, b: int, l: int|
                0 <= a < i && 0 <= b < all@.len() && 0 <= l < all@.len() ==> #[trigger] group_is_safe(
                    raster@,
                    found_views(all@),
                    a,
                    b,
                    l,
                ),
        decreases all@.len() - i,
    {
        let mut j: usize = 0;
        while j < all.len()
            invariant
                fits(*raster),
                i < all@.len(),
                j <= all@.len(),
                forall|n: int| 0 <= n < all@.len() ==> #[trigger] low(all@[n]),
                forall|b: int, l: int|
                    0 <= b < j && 0 <= l < all@.len() ==> #[trigger] group_is_safe(
                        raster@,
                        found_views(all@),
                        i as int,
                        b,
                        l,
                    ),
            decreases all@.len() - j,
        {
            if !rows_are_safe(raster, all, i, j) {
                return false;
            }
            j = j + 1;
        }
        i = i + 1;
    }
    true
}

/// Whether there are no more dark pixels than the limit.
fn few_are_dark(dark: &Vec<bool>) -> (few: bool)
    ensures
        few == (dark_among(dark@, dark@.len() as int) <= MAX_DARK),
{
    let mut count: usize = 0;
    let mut k: usize = 0;
    while k < dark.len()
        invariant
            k <= dark@.len(),
            count == dark_among(dark@, k as int),
            count <= k,
        decreases dark@.len() - k,
    {
        if dark[k] {
            count = count + 1;
        }
        k = k + 1;
    }
    count <= MAX_DARK
}

/// Whether the finder patterns of a list stand in the upper rows.
fn all_are_low(all: &Vec<FoundFinder>) -> (yes: bool)
    requires
        forall|i: int| 0 <= i < all@.len() ==> #[trigger] in_limits(all@[i]),
    ensures
        yes <==> forall|i: int|
            0 <= i < all@.len() ==> (#[trigger] found_views(all@)[i]).y + found_views(all@)[i].side()
                <= MAX_BOTTOM,
        yes ==> forall|i: int| 0 <= i < all@.len() ==> #[trigger] low(all@[i]),
{
    let mut i: usize = 0;
    while i < all.len()
        invariant
            i <= all@.len(),
            forall|n: int| 0 <= n < all@.len() ==> #[trigger] in_limits(all@[n]),
            forall|n: int| 0 <= n < i ==> #[trigger] low(all@[n]),
        decreases all@.len() - i,
    {
        assert(in_limits(all@[i as int]));
        if all[i].y + 7 * all[i].unit > MAX_BOTTOM {
            assert(found_views(all@)[i as int].y + found_views(all@)[i as int].side() > MAX_BOTTOM);
            return false;
        }
        i = i + 1;
    }
    assert forall|n: int| 0 <= n < all@.len() implies (#[trigger] found_views(all@)[n]).y + found_views(
        all@,
    )[n].side() <= MAX_BOTTOM by {
        assert(low(all@[n]));
    }
    true
}

/// Whether a row that starts at a place crosses the core of a finder pattern.
fn crosses_any(raster: &Raster, all: &Vec<FoundFinder>, k: usize) -> (found: bool)
    requires
        fits(*raster),
        forall|i: int| 0 <= i < all@.len() ==> #[trigger] in_limits(all@[i]),
    ensures
        found == exists|i: int|
            0 <= i < all@.len() && crosses(raster@, #[trigger] found_views(all@)[i], k as int),
{
    let x: usize = k % raster.width;
    let y: usize = k / raster.width;
    let mut i: usize = 0;
    while i < all.len()
        invariant
            x == k as int % raster@.width,
            y == k as int / raster@.width,
            i <= all@.len(),
            forall|n: int| 0 <= n < all@.len() ==> #[trigger] in_limits(all@[n]),
            forall|n: int|
                0 <= n < i ==> !crosses(raster@, #[trigger] found_views(all@)[n], k as int),
        decreases all@.len() - i,
    {
        let f: FoundFinder = all[i];
        assert(in_limits(f));
        assert(found_views(all@)[i as int] == f@);
        if f.x == x && f.y + 2 * f.unit <= y && y < f.y + 5 * f.unit {
            return true;
        }
        i = i + 1;
    }
    false
}

/// Whether a picture is searched.
pub fn is_searchable(raster: &Raster) -> (searched: bool)
    requires
        raster.well_formed(),
    ensures
        searched == searchable(raster@),
{
    if raster.width > MAX_WIDTH || raster.height > MAX_HEIGHT || (raster.width == 0 && raster.height
        > 0) || !few_are_dark(&raster.dark) {
        return false;
    }
    if raster.width == 0 {
        assert(raster.width * raster.height == 0);
        return true;
    }
    let all: Vec<FoundFinder> = find_finders(raster);
    let labels: Vec<usize> = parts(raster);
    let mut k: usize = 0;
    while k < raster.dark.len()
        invariant
            fits(*raster),
            k <= raster@.dark.len(),
            labels@.len() == raster@.dark.len(),
            found_views(all@) == finders(raster@),
            forall|i: int| 0 <= i < all@.len() ==> #[trigger] in_limits(all@[i]),
            forall|p: int, q: int|
                0 <= p < labels@.len() && 0 <= q < labels@.len() && raster@.dark[p] && raster@.dark[q]
                    ==> (#[trigger] connected(raster@, p, q) <==> labels@[p] == labels@[q]),
            forall|j: int|
                0 <= j < k && #[trigger] ring_row(raster@, j) ==> exists|i: int|
                    0 <= i < finders(raster@).len() && crosses(
                        raster@,
                        #[trigger] finders(raster@)[i],
                        j,
                    ),
        decreases raster@.dark.len() - k,
    {
        if begins_ring_row(raster, &labels, k) && !crosses_any(raster, &all, k) {
            return false;
        }
        k = k + 1;
    }
    all_are_low(&all) && groups_are_safe(raster, &all)
}

/// The finder patterns of a list stand in the picture.
proof fn lemma_finders(m: Mask, n: nat)
    ensures
        forall|i: int|
            0 <= i < finders_among(m, n).len() ==> is_finder(m, #[trigger] finders_among(m, n)[i]),
    decreases n,
{
    if n > 0 {
        let before = finders_among(m, (n - 1) as nat);
        lemma_finders(m, (n - 1) as nat);
        assert(finders_among(m, n) == before || finders_among(m, n) == before.push(
            finder_at(m, n - 1),
        ));
    }
}

/// A picture without a dark pixel is searched, whatever its shape.
pub proof fn law_light_picture_is_searched(m: Mask)
    requires
        1 <= m.width <= MAX_WIDTH,
        0 <= m.height <= MAX_HEIGHT,
        m.dark.len() == m.width * m.height,
        forall|k: int| 0 <= k < m.dark.len() ==> !(#[trigger] m.dark[k]),
    ensures
        searchable(m),
{
    assert forall|x: int, y: int| !(#[trigger] m.at(x, y)) by {
        if 0 <= x < m.width && 0 <= y < m.height {
            lemma_index(m.width, m.height, x, y);
        }
    }
    lemma_none_dark(m.dark, m.dark.len() as int);
    lemma_finders(m, m.dark.len());
    if finders(m).len() > 0 {
        assert(is_finder(m, finders(m)[0]));
    }
}

/// Without a dark pixel there is none to count.
proof fn lemma_none_dark(dark: Seq<bool>, n: int)
    requires
        n <= dark.len(),
        forall|k: int| 0 <= k < dark.len() ==> !(#[trigger] dark[k]),
    ensures
        dark_among(dark, n) == 0,
    decreases n,
{
    if n > 0 {
        lemma_none_dark(dark, n - 1);
    }
}

/// A run ends behind the last of the pixels of its colour that follow each other
/// in a row.
pub proof fn law_run_end(m: Mask, x: int, y: int, e: int)
    requires
        0 <= x < m.width,
    ensures
        run_end(m, x, y) == e <==> {
            &&& x < e <= m.width
            &&& forall|i: int| x <= i < e ==> #[trigger] m.at(i, y) == m.at(x, y)
            &&& e < m.width ==> m.at(e, y) != m.at(x, y)
        },
    decreases m.width - x,
{
    lemma_run(m, x, y);
    let end = run_end(m, x, y);
    if {
        &&& x < e <= m.width
        &&& forall|i: int| x <= i < e ==> #[trigger] m.at(i, y) == m.at(x, y)
        &&& e < m.width ==> m.at(e, y) != m.at(x, y)
    } {
        if end < e {
            assert(m.at(end, y) == m.at(x, y));
        }
    }
}

/// What a run holds and what ends it.
proof fn lemma_run(m: Mask, x: int, y: int)
    requires
        0 <= x < m.width,
    ensures
        x < run_end(m, x, y) <= m.width,
        forall|i: int| x <= i < run_end(m, x, y) ==> #[trigger] m.at(i, y) == m.at(x, y),
        run_end(m, x, y) < m.width ==> m.at(run_end(m, x, y), y) != m.at(x, y),
    decreases m.width - x,
{
    if x + 1 < m.width && m.at(x + 1, y) == m.at(x, y) {
        lemma_run(m, x + 1, y);
    }
}

/// A row of a ring is told by five runs, dark and light in turn, of lengths that
/// are about one, one, three, one and one times the average of the four short
/// ones, each by at most three quarters of it; the outer two belong together,
/// and the middle one does not belong to them.
pub proof fn law_ring_row(m: Mask, k: int, a: int, b: int, c: int, d: int, e: int)
    requires
        m.width > 0,
        0 <= k,
        ({
            let x = k % m.width;
            let y = k / m.width;
            &&& a == run_end(m, x, y) && b == run_end(m, a, y) && c == run_end(m, b, y)
            &&& d == run_end(m, c, y) && e == run_end(m, d, y)
        }),
    ensures
        ({
            let x = k % m.width;
            let y = k / m.width;
            let average = ((a - x) + (b - a) + (d - c) + (e - d)) / 4;
            ring_row(m, k) <==> {
                &&& m.at(x, y) && !m.at(x - 1, y) && d < m.width
                &&& average <= 4 * (a - x) <= 7 * average && average <= 4 * (b - a) <= 7 * average
                &&& 9 * average <= 4 * (c - b) <= 15 * average
                &&& average <= 4 * (d - c) <= 7 * average && average <= 4 * (e - d) <= 7 * average
                &&& connected(m, k, k - x + d) && !connected(m, k - x + b, k - x + d)
            }
        }),
{
}

/// A finder pattern is a square of seven units a side: dark in a frame of one
/// unit and in a core of three by three units, light between them.
pub proof fn law_finder_pixel(i: int, j: int, unit: int)
    requires
        unit >= 1,
    ensures
        finder_pixel(i, j, unit) <==> {
            &&& 0 <= i < 7 * unit && 0 <= j < 7 * unit
            &&& i < unit || i >= 6 * unit || j < unit || j >= 6 * unit || (2 * unit <= i < 5 * unit && 2
                * unit <= j < 5 * unit)
        },
{
    lemma_unit(i, unit);
    lemma_unit(j, unit);
}

/// In which unit of a side a pixel lies.
proof fn lemma_unit(i: int, unit: int)
    requires
        unit >= 1,
    ensures
        0 <= i ==> (i / unit == 0 <==> i < unit),
        0 <= i < 7 * unit ==> (i / unit == 6 <==> i >= 6 * unit),
        0 <= i < 7 * unit ==> (2 <= i / unit <= 4 <==> 2 * unit <= i < 5 * unit),
{
    lemma_fundamental_div_mod(i, unit);
    let q = i / unit;
    let r = i % unit;
    assert(i == unit * q + r && 0 <= r < unit);
    if 0 <= i {
        assert(q >= 0) by (nonlinear_arith)
            requires
                0 <= unit * q + r,
                r < unit,
                unit >= 1,
        ;
        assert(q >= 1 ==> unit * q >= unit) by (nonlinear_arith)
            requires
                unit >= 1,
        ;
        assert(q <= 1 ==> unit * q <= unit) by (nonlinear_arith)
            requires
                unit >= 1,
        ;
        assert(q >= 2 ==> unit * q >= 2 * unit) by (nonlinear_arith)
            requires
                unit >= 1,
        ;
        assert(q <= 4 ==> unit * q <= 4 * unit) by (nonlinear_arith)
            requires
                unit >= 1,
        ;
        assert(q >= 5 ==> unit * q >= 5 * unit) by (nonlinear_arith)
            requires
                unit >= 1,
        ;
        assert(q <= 5 ==> unit * q <= 5 * unit) by (nonlinear_arith)
            requires
                unit >= 1,
        ;
        assert(q >= 6 ==> unit * q >= 6 * unit) by (nonlinear_arith)
            requires
                unit >= 1,
        ;
        assert(q >= 7 ==> unit * q >= 7 * unit) by (nonlinear_arith)
            requires
                unit >= 1,
        ;
    }
}

/// Every finder pattern that stands in a picture is listed, and no other.
pub proof fn law_finders_are_listed(m: Mask, f: Finder)
    requires
        m.width >= 0,
        m.dark.len() == m.width * m.height,
    ensures
        finders(m).contains(f) <==> m.at(f.x, f.y) && draws_finder(m, f.x, f.y, f.unit),
{
    lemma_finders(m, m.dark.len());
    if finders(m).contains(f) {
        let i = finders(m).index_of(f);
        assert(finders(m)[i] == f);
    }
    if m.at(f.x, f.y) && draws_finder(m, f.x, f.y, f.unit) {
        let k = f.y * m.width + f.x;
        lemma_index(m.width, m.height, f.x, f.y);
        vstd::arithmetic::div_mod::lemma_fundamental_div_mod_converse(k, m.width, f.y, f.x);
        let end = f.x + 7 * f.unit;
        assert forall|i: int| f.x <= i < end implies #[trigger] m.at(i, f.y) by {
            law_finder_pixel(i - f.x, 0, f.unit);
            assert(m.at(i, f.y) == finder_pixel(i - f.x, f.y - f.y, f.unit));
        }
        assert(m.at(end - 1, f.y));
        law_finder_pixel(7 * f.unit, 0, f.unit);
        assert(m.at(end, f.y) == finder_pixel(end - f.x, f.y - f.y, f.unit));
        law_run_end(m, f.x, f.y, end);
        assert(finder_at(m, k) == f);
        lemma_listed(m, m.dark.len(), k);
    }
}

/// What stands at a place is among what stands at places up to a later one.
proof fn lemma_listed(m: Mask, n: nat, k: int)
    requires
        0 <= k < n,
        is_finder(m, finder_at(m, k)),
    ensures
        finders_among(m, n).contains(finder_at(m, k)),
    decreases n,
{
    let before = finders_among(m, (n - 1) as nat);
    if k == n - 1 {
        assert(finders_among(m, n)[before.len() as int] == finder_at(m, k));
    } else {
        lemma_listed(m, (n - 1) as nat, k);
        let i = before.index_of(finder_at(m, k));
        assert(finders_among(m, n)[i] == finder_at(m, k));
    }
}

/// Where no row looks like that of a ring and no finder pattern stands, a picture
/// is searched as soon as it is not too large.
pub proof fn law_picture_without_rings_is_searched(m: Mask)
    requires
        1 <= m.width <= 0x7fff,
        0 <= m.height <= 0x7fff_ffff,
        dark_among(m.dark, m.dark.len() as int) <= 42949672,
        forall|k: int| 0 <= k < m.dark.len() ==> !(#[trigger] ring_row(m, k)),
        finders(m).len() == 0,
    ensures
        searchable(m),
{
}

/// A picture with one or two finder patterns and no other ring is searched as
/// soon as it is not too large: nothing can be taken for a code.
pub proof fn law_two_finders_are_searched(m: Mask)
    requires
        1 <= m.width <= 0x7fff,
        0 <= m.height <= 0x7fff,
        dark_among(m.dark, m.dark.len() as int) <= 42949672,
        m.dark.len() == m.width * m.height,
        finders(m).len() <= 2,
        forall|k: int|
            0 <= k < m.dark.len() && #[trigger] ring_row(m, k) ==> exists|i: int|
                0 <= i < finders(m).len() && crosses(m, #[trigger] finders(m)[i], k),
    ensures
        searchable(m),
{
    lemma_finders(m, m.dark.len());
    assert forall|i: int| 0 <= i < finders(m).len() implies (#[trigger] finders(m)[i]).y + finders(
        m,
    )[i].side() <= MAX_BOTTOM by {
        let f = finders(m)[i];
        law_finder_pixel(0, 7 * f.unit - 1, f.unit);
        assert(m.at(f.x, f.y + 7 * f.unit - 1) == finder_pixel(f.x - f.x, f.y + 7 * f.unit - 1 - f.y, f.unit));
    }
}

/// The finder patterns of an upright code, of one size and equally far apart,
/// with the centre of an alignment pattern opposite, are searched for as long as
/// the code lies in the upper left of the picture.
pub proof fn law_upright_code_is_squared(m: Mask, x: int, y: int, unit: int, span: int)
    requires
        0 <= x,
        0 <= y,
        1 <= unit <= 73,
        7 * unit < span,
        x + span + 7 * unit <= 8191,
        y + span + 7 * unit <= 8191,
        draws_square(m, x + span, y + span, unit),
    ensures
        ({
            let corner = Finder { x, y, unit };
            let row = Finder { x: x + span, y, unit };
            let column = Finder { x, y: y + span, unit };
            may_group(corner, column, row) && squared(m, corner, column, row)
        }),
{
    let side = 7 * unit;
    assert(side * side <= 511 * 511) by (nonlinear_arith)
        requires
            0 <= side <= 511,
    ;
    let square = side * side;
    assert(0 <= square) by (nonlinear_arith)
        requires
            square == side * side,
    ;
    assert forall|far: int| 0 <= far <= 8191 implies #[trigger] (square * far) <= MAX_PRODUCT by {
        assert(square * far <= 511 * 511 * 8191) by (nonlinear_arith)
            requires
                0 <= square <= 511 * 511,
                0 <= far <= 8191,
        ;
    }
    assert(square * (x + side) <= MAX_PRODUCT && square * (y + side) <= MAX_PRODUCT);
    assert(square * (x + span + side) <= MAX_PRODUCT && square * (y + span + side) <= MAX_PRODUCT);
}

/// Changes along a row add up piece by piece, and there is one between two pixels
/// next to each other exactly if one is dark and the other light.
pub proof fn law_row_changes(m: Mask, y: int, a: int, b: int, c: int)
    requires
        a <= b <= c,
    ensures
        row_changes(m, y, a, c) == row_changes(m, y, a, b) + row_changes(m, y, b, c),
        row_changes(m, y, a, a) == 0,
        row_changes(m, y, a, a + 1) == if m.at(a, y) != m.at(a + 1, y) {
            1int
        } else {
            0
        },
    decreases c - b,
{
    reveal_with_fuel(row_changes, 2);
    if b < c {
        law_row_changes(m, y, a, b, c - 1);
    }
}

/// Changes along a column add up piece by piece, and there is one between two
/// pixels below each other exactly if one is dark and the other light.
pub proof fn law_column_changes(m: Mask, x: int, a: int, b: int, c: int)
    requires
        a <= b <= c,
    ensures
        column_changes(m, x, a, c) == column_changes(m, x, a, b) + column_changes(m, x, b, c),
        column_changes(m, x, a, a) == 0,
        column_changes(m, x, a, a + 1) == if m.at(x, a) != m.at(x, a + 1) {
            1int
        } else {
            0
        },
    decreases c - b,
{
    reveal_with_fuel(column_changes, 2);
    if b < c {
        law_column_changes(m, x, a, b, c - 1);
    }
}

/// Dark pixels are counted one by one.
pub proof fn law_dark_among(dark: Seq<bool>, n: int)
    requires
        0 <= n,
    ensures
        dark_among(dark, 0) == 0,
        dark_among(dark, n + 1) - dark_among(dark, n) == if dark[n] {
            1int
        } else {
            0
        },
{
}

/// Finder patterns may be taken for a code only where one is at most a fifth out
/// of the column of the corner, one at most a fifth out of its row, and their
/// distances differ by at most a quarter, each with the slack of half pixels.
pub proof fn law_may_group(corner: Finder, column: Finder, row: Finder)
    ensures
        ({
            let cx = 2 * corner.x + 7 * corner.unit;
            let cy = 2 * corner.y + 7 * corner.unit;
            let ax = 2 * column.x + 7 * column.unit - cx;
            let ay = 2 * column.y + 7 * column.unit - cy;
            let bx = 2 * row.x + 7 * row.unit - cx;
            let by = 2 * row.y + 7 * row.unit - cy;
            let down = if ay < 0 {
                -ay
            } else {
                ay
            };
            let across = if bx < 0 {
                -bx
            } else {
                bx
            };
            may_group(corner, column, row) <==> {
                &&& -(down + 6) <= 5 * ax <= down + 6
                &&& -(across + 6) <= 5 * by <= across + 6
                &&& 4 * down + 7 >= 3 * across && 4 * across + 7 >= 3 * down
            }
        }),
{
}

/// Three finder patterns stand square to each other where they have one size, two
/// are in one column and two in one row, none is too large for where it stands,
/// and there is an isolated square opposite or few changes on both ways.
pub proof fn law_squared(m: Mask, corner: Finder, column: Finder, row: Finder)
    ensures
        ({
            let unit = corner.unit;
            let right = corner.x < row.x;
            let below = corner.y < column.y;
            let side = 7 * unit;
            let middle = (13 * unit - 1) / 2;
            let x = if right {
                corner.x + middle
            } else {
                corner.x + side - 1 - middle
            };
            let y = if below {
                corner.y + middle
            } else {
                corner.y + side - 1 - middle
            };
            squared(m, corner, column, row) <==> {
                &&& column.unit == unit && row.unit == unit && column.x == corner.x && row.y == corner.y
                &&& side * side * (corner.x + side) <= 0x7fff_ffff && side * side * (corner.y + side)
                    <= 0x7fff_ffff
                &&& side * side * (row.x + side) <= 0x7fff_ffff && side * side * (column.y + side)
                    <= 0x7fff_ffff
                &&& draws_square(
                    m,
                    if right {
                        row.x
                    } else {
                        row.x + 6 * unit
                    },
                    if below {
                        column.y
                    } else {
                        column.y + 6 * unit
                    },
                    unit,
                ) || ((if right {
                    row_changes(m, y, x, row.x + unit / 2)
                } else {
                    row_changes(m, y, row.x + side - 1 - unit / 2, x)
                }) <= 9 && (if below {
                    column_changes(m, x, y, column.y + unit / 2)
                } else {
                    column_changes(m, x, column.y + side - 1 - unit / 2, y)
                }) <= 9)
            }
        }),
{
}

/// A picture is searched exactly where it is not too large, every row of a ring
/// crosses the core of a finder pattern from its left edge on, every finder
/// pattern ends above row 32767, and no three that may be taken for a code stand
/// other than square.
pub proof fn law_searchable(m: Mask)
    ensures
        searchable(m) <==> {
            &&& m.width <= 32767 && m.height <= 0x7fff_ffff && (m.width > 0 || m.height == 0)
            &&& 100 * dark_among(m.dark, m.dark.len() as int) <= 0xffff_ffff
            &&& forall|k: int|
                0 <= k < m.dark.len() && #[trigger] ring_row(m, k) ==> exists|i: int|
                    0 <= i < finders(m).len() && {
                        let f = #[trigger] finders(m)[i];
                        &&& f.x == k % m.width
                        &&& f.y + 2 * f.unit <= k / m.width < f.y + 5 * f.unit
                    }
            &&& forall|i: int|
                0 <= i < finders(m).len() ==> (#[trigger] finders(m)[i]).y + 7 * finders(m)[i].unit <= 32767
            &&& forall|i: int, j: int, l: int|
                0 <= i < finders(m).len() && 0 <= j < finders(m).len() && 0 <= l < finders(m).len() && i
                    != j && i != l && j != l && #[trigger] may_group(
                    finders(m)[i],
                    finders(m)[j],
                    finders(m)[l],
                ) ==> squared(m, finders(m)[i], finders(m)[j], finders(m)[l])
        },
{
    let all = finders(m);
    if searchable(m) {
        assert forall|k: int| 0 <= k < m.dark.len() && #[trigger] ring_row(m, k) implies exists|i: int|
            0 <= i < all.len() && {
                let f = #[trigger] all[i];
                &&& f.x == k % m.width
                &&& f.y + 2 * f.unit <= k / m.width < f.y + 5 * f.unit
            } by {
            let i = choose|i: int| 0 <= i < all.len() && crosses(m, #[trigger] all[i], k);
            assert(crosses(m, all[i], k));
        }
        assert forall|i: int, j: int, l: int|
            0 <= i < all.len() && 0 <= j < all.len() && 0 <= l < all.len() && i != j && i != l && j != l
                && #[trigger] may_group(all[i], all[j], all[l]) implies squared(m, all[i], all[j], all[l]) by {
            assert(group_is_safe(m, all, i, j, l));
        }
    } else {
        assert(forall|k: int, i: int|
            0 <= i < all.len() && (#[trigger] all[i]).x == k % m.width && all[i].y + 2 * all[i].unit <= k
                / m.width < all[i].y + 5 * all[i].unit ==> #[trigger] crosses(m, all[i], k));
    }
}

}
