//! Pixel arithmetic on 32-bit BGRA bitmaps: the size of a bitmap, the dark
//! backdrop of the overlay, and the grayscale picture that is searched.
use crate::binary64::{
    is_rounding, law_rounding_is_unique, lemma_round_monotone, lemma_round_within, round_significand,
    round_to_f64,
};
use vstd::prelude::*;

verus! {

/// Bytes per BGRA pixel.
pub const BYTES_PER_PIXEL: usize = 4;

/// 0.114 as a double, in units of 2^-56.
pub const BLUE_WEIGHT: u64 = 8214565720323785;

/// 0.587 as a double, in units of 2^-56.
pub const GREEN_WEIGHT: u64 = 42297807700263696;

/// 0.299 as a double, in units of 2^-56.
pub const RED_WEIGHT: u64 = 21545220617340452;

/// 1.0, in units of 2^-56.
pub const WEIGHT_UNIT: u64 = 0x100_0000_0000_0000;

/// The layout in which pixels are fetched from and stored to a bitmap.
#[derive(Clone, Copy, Debug, PartialEq, Eq, Structural)]
pub struct BitmapLayout {
    pub width: i32,
    /// Negative for a bitmap whose first row is the top one.
    pub height: i32,
    pub planes: u16,
    pub bit_count: u16,
    /// 0 is the uncompressed format.
    pub compression: u32,
}

/// The uncompressed top-down 32-bit layout of a bitmap of the given size.
pub fn top_down_layout(width: i32, height: i32) -> (layout: BitmapLayout)
    requires
        height > i32::MIN,
    ensures
        layout.width == width,
        layout.height == -height,
        layout.planes == 1,
        layout.bit_count == 8 * BYTES_PER_PIXEL,
        layout.compression == 0,
{
    BitmapLayout { width, height: -height, planes: 1, bit_count: 32, compression: 0 }
}

/// The number of bytes that the pixels of a `width` by `height` bitmap take.
pub fn pixel_bytes(width: i32, height: i32) -> (bytes: usize)
    requires
        0 <= width * height <= i32::MAX,
        4 * (width * height) <= usize::MAX,
    ensures
        bytes == 4 * (width * height),
{
    let count: usize = (width * height) as usize;
    count * BYTES_PER_PIXEL
}

/// A channel value at three tenths of its brightness.
pub open spec fn dimmed(value: u8) -> u8 {
    ((value * 3) / 10) as u8
}

/// Whether the byte at `i` is a colour channel of a whole pixel, among `len`
/// bytes.
pub open spec fn is_color_byte(i: int, len: nat) -> bool {
    i % 4 != 3 && (i / 4) * 4 + 4 <= len
}

/// The bytes of a bitmap with every colour channel dimmed. The fourth byte of
/// each pixel, and the bytes of a trailing incomplete pixel, stay.
pub open spec fn darkened(px: Seq<u8>) -> Seq<u8> {
    Seq::new(
        px.len(),
        |i: int|
            if is_color_byte(i, px.len()) {
                dimmed(px[i])
            } else {
                px[i]
            },
    )
}

/// Darkens the pixels of a bitmap in place.
pub fn darken_bitmap(px: &mut Vec<u8>)
    ensures
        final(px)@ == darkened(old(px)@),
{
    let len: usize = px.len();
    let whole: usize = len - len % BYTES_PER_PIXEL;
    let ghost before = px@;
    let mut i: usize = 0;
    while i < whole
        invariant
            i <= whole <= len,
            whole == len - len % 4,
            len == before.len(),
            px@.len() == len,
            forall|j: int| 0 <= j < i ==> #[trigger] px@[j] == darkened(before)[j],
            forall|j: int| i <= j < len ==> #[trigger] px@[j] == before[j],
        decreases whole - i,
    {
        if i % BYTES_PER_PIXEL != 3 {
            let value: u8 = px[i];
            let dim: u8 = (value as u16 * 3 / 10) as u8;
            px.set(i, dim);
        }
        i = i + 1;
    }
    assert(px@ =~= darkened(before));
}

/// Darkening changes no length, brightens no byte, takes every colour channel
/// to at most three tenths of the full range, and keeps the fourth byte of
/// every pixel.
pub proof fn law_darkening(px: Seq<u8>)
    ensures
        darkened(px).len() == px.len(),
        forall|i: int| 0 <= i < px.len() ==> #[trigger] darkened(px)[i] <= px[i],
        forall|i: int|
            0 <= i < px.len() && is_color_byte(i, px.len()) ==> #[trigger] darkened(px)[i] <= 76,
        forall|i: int| 0 <= i < px.len() && i % 4 == 3 ==> #[trigger] darkened(px)[i] == px[i],
{
}

/// The sum of the weighted channels in units of 2^-56, each product and each
/// sum rounded to a double.
pub open spec fn weighted_sum(blue: u8, green: u8, red: u8) -> nat {
    round_to_f64(
        round_to_f64(
            round_to_f64((BLUE_WEIGHT * blue) as nat) + round_to_f64((GREEN_WEIGHT * green) as nat),
        ) + round_to_f64((RED_WEIGHT * red) as nat),
    )
}

/// The gray level of a pixel: 0.114 blue + 0.587 green + 0.299 red in double
/// precision, without its fraction.
pub open spec fn gray_level(blue: u8, green: u8, red: u8) -> nat {
    weighted_sum(blue, green, red) / WEIGHT_UNIT as nat
}

/// The exact weighted sum of the channels, in thousandths.
pub open spec fn thousandths(blue: u8, green: u8, red: u8) -> nat {
    (114 * blue + 587 * green + 299 * red) as nat
}

proof fn lemma_products(blue: u8, green: u8, red: u8)
    ensures
        0 <= BLUE_WEIGHT * blue <= 255 * BLUE_WEIGHT,
        0 <= GREEN_WEIGHT * green <= 255 * GREEN_WEIGHT,
        0 <= RED_WEIGHT * red <= 255 * RED_WEIGHT,
{
}

/// Rounding errors of the weighted sum stay under 6000 units of 2^-56, and so
/// far under a thousandth.
proof fn lemma_weighted_sum_near(blue: u8, green: u8, red: u8)
    ensures
        1000 * weighted_sum(blue, green, red) < thousandths(blue, green, red) * WEIGHT_UNIT + 6000000,
        thousandths(blue, green, red) * WEIGHT_UNIT < 1000 * weighted_sum(blue, green, red) + 6000000,
        ({
            let b = (BLUE_WEIGHT * blue) as nat;
            let g = (GREEN_WEIGHT * green) as nat;
            let r = (RED_WEIGHT * red) as nat;
            let bg = round_to_f64(b) + round_to_f64(g);
            &&& bg <= b + g + 2048
            &&& round_to_f64(bg) + round_to_f64(r) <= b + g + r + 4096
        }),
{
    lemma_products(blue, green, red);
    let b: nat = (BLUE_WEIGHT * blue) as nat;
    let g: nat = (GREEN_WEIGHT * green) as nat;
    let r: nat = (RED_WEIGHT * red) as nat;
    lemma_round_within(b);
    lemma_round_within(g);
    lemma_round_within(r);
    let bg = round_to_f64(b) + round_to_f64(g);
    lemma_round_within(bg);
    let bgr = round_to_f64(bg) + round_to_f64(r);
    lemma_round_within(bgr);
}

/// The gray level of one pixel.
pub fn gray_of(blue: u8, green: u8, red: u8) -> (level: u8)
    ensures
        level == gray_level(blue, green, red),
{
    proof {
        lemma_products(blue, green, red);
        lemma_weighted_sum_near(blue, green, red);
    }
    let b: u64 = round_significand(BLUE_WEIGHT * blue as u64);
    let g: u64 = round_significand(GREEN_WEIGHT * green as u64);
    let r: u64 = round_significand(RED_WEIGHT * red as u64);
    let bg: u64 = round_significand(b + g);
    let sum: u64 = round_significand(bg + r);
    (sum / WEIGHT_UNIT) as u8
}

/// The gray levels of the whole pixels of a BGRA bitmap, in order.
pub open spec fn gray_levels(px: Seq<u8>) -> Seq<u8> {
    Seq::new(
        px.len() / 4,
        |i: int| gray_level(px[4 * i], px[4 * i + 1], px[4 * i + 2]) as u8,
    )
}

/// Converts a BGRA bitmap to grayscale.
pub fn grayscale(px: &Vec<u8>) -> (gray: Vec<u8>)
    ensures
        gray@ == gray_levels(px@),
{
    let len: usize = px.len();
    let count: usize = len / BYTES_PER_PIXEL;
    let mut gray: Vec<u8> = Vec::new();
    let mut i: usize = 0;
    while i < count
        invariant
            i <= count,
            count == len / 4,
            len == px@.len(),
            gray@.len() == i,
            forall|j: int| 0 <= j < i ==> #[trigger] gray@[j] == gray_levels(px@)[j],
        decreases count - i,
    {
        let at: usize = i * BYTES_PER_PIXEL;
        let level: u8 = gray_of(px[at], px[at + 1], px[at + 2]);
        gray.push(level);
        i = i + 1;
    }
    assert(gray@ =~= gray_levels(px@));
    gray
}

/// The gray level is the exact weighted sum without its fraction, except that
/// where the exact sum is a whole number it may come out one lower.
pub proof fn law_gray_level_is_weighted_sum(blue: u8, green: u8, red: u8)
    ensures
        gray_level(blue, green, red) == thousandths(blue, green, red) / 1000 || (
        thousandths(blue, green, red) % 1000 == 0 && gray_level(blue, green, red) + 1
            == thousandths(blue, green, red) / 1000),
        gray_level(blue, green, red) <= 255,
{
    lemma_weighted_sum_near(blue, green, red);
}

/// A pixel that is at least as bright in every channel is at least as bright
/// in gray.
pub proof fn law_gray_level_monotone(b1: u8, g1: u8, r1: u8, b2: u8, g2: u8, r2: u8)
    requires
        b1 <= b2,
        g1 <= g2,
        r1 <= r2,
    ensures
        gray_level(b1, g1, r1) <= gray_level(b2, g2, r2),
{
    lemma_products(b1, g1, r1);
    lemma_products(b2, g2, r2);
    let b: nat = (BLUE_WEIGHT * b1) as nat;
    let g: nat = (GREEN_WEIGHT * g1) as nat;
    let r: nat = (RED_WEIGHT * r1) as nat;
    let b_: nat = (BLUE_WEIGHT * b2) as nat;
    let g_: nat = (GREEN_WEIGHT * g2) as nat;
    let r_: nat = (RED_WEIGHT * r2) as nat;
    lemma_round_monotone(b, b_);
    lemma_round_monotone(g, g_);
    lemma_round_monotone(r, r_);
    let bg = round_to_f64(b) + round_to_f64(g);
    let bg_ = round_to_f64(b_) + round_to_f64(g_);
    lemma_round_monotone(bg, bg_);
    lemma_round_monotone(round_to_f64(bg) + round_to_f64(r), round_to_f64(bg_) + round_to_f64(r_));
}

/// A bitmap of `width` by `height` pixels has one gray level per pixel.
pub proof fn law_one_level_per_pixel(width: i32, height: i32, px: Seq<u8>)
    requires
        0 <= width * height,
        px.len() == 4 * (width * height),
    ensures
        gray_levels(px).len() == width * height,
{
}

/// Every colour byte of a whole pixel becomes three tenths of itself, without
/// the fraction; all other bytes stay as they are.
pub proof fn law_darkened_to_three_tenths(px: Seq<u8>, i: int)
    requires
        0 <= i < px.len(),
    ensures
        darkened(px).len() == px.len(),
        i % 4 != 3 && i < px.len() - px.len() % 4 ==> 10 * darkened(px)[i] <= 3 * px[i] < 10 * darkened(
            px,
        )[i] + 10,
        i % 4 == 3 || i >= px.len() - px.len() % 4 ==> darkened(px)[i] == px[i],
{
}

/// Darkening keeps the order of brightness, also between two bitmaps.
pub proof fn law_darkening_keeps_order(a: Seq<u8>, b: Seq<u8>, i: int, j: int)
    requires
        0 <= i < a.len() - a.len() % 4,
        0 <= j < b.len() - b.len() % 4,
        i % 4 != 3,
        j % 4 != 3,
        a[i] <= b[j],
    ensures
        darkened(a)[i] <= darkened(b)[j],
{
    law_darkened_to_three_tenths(a, i);
    law_darkened_to_three_tenths(b, j);
}

/// There is one gray level for each whole pixel, in order, and it weighs the
/// first byte by 114, the second by 587 and the third by 299 thousandths; the
/// fourth does not count. Only where the sum is a whole number it may come out
/// one lower.
pub proof fn law_gray_levels_weigh_channels(px: Seq<u8>, i: int)
    requires
        0 <= i < px.len() / 4,
    ensures
        gray_levels(px).len() == px.len() / 4,
        ({
            let sum = 114 * px[4 * i] + 587 * px[4 * i + 1] + 299 * px[4 * i + 2];
            ||| 1000 * gray_levels(px)[i] <= sum < 1000 * gray_levels(px)[i] + 1000
            ||| sum == 1000 * gray_levels(px)[i] + 1000
        }),
{
    law_gray_level_is_weighted_sum(px[4 * i], px[4 * i + 1], px[4 * i + 2]);
}

/// Pixels with the same colours have the same gray level, wherever they stand.
pub proof fn law_gray_level_of_pixel_alone(a: Seq<u8>, b: Seq<u8>, i: int, j: int)
    requires
        0 <= i < a.len() / 4,
        0 <= j < b.len() / 4,
        a[4 * i] == b[4 * j],
        a[4 * i + 1] == b[4 * j + 1],
        a[4 * i + 2] == b[4 * j + 2],
    ensures
        gray_levels(a)[i] == gray_levels(b)[j],
{
}

/// The gray level is what double precision gives: in units of 2^-56, the weights
/// nearest to 0.114, 0.587 and 0.299 times the channels, each product rounded,
/// blue and green added and rounded, red added and rounded, and the fraction
/// dropped.
pub proof fn law_gray_level_in_double_precision(
    blue: u8,
    green: u8,
    red: u8,
    b: nat,
    g: nat,
    r: nat,
    bg: nat,
    sum: nat,
)
    requires
        is_rounding((8214565720323785 * blue) as nat, b),
        is_rounding((42297807700263696 * green) as nat, g),
        is_rounding((21545220617340452 * red) as nat, r),
        is_rounding(b + g, bg),
        is_rounding(bg + r, sum),
    ensures
        gray_level(blue, green, red) == sum / 0x100_0000_0000_0000,
{
    law_rounding_is_unique((8214565720323785 * blue) as nat, b);
    law_rounding_is_unique((42297807700263696 * green) as nat, g);
    law_rounding_is_unique((21545220617340452 * red) as nat, r);
    law_rounding_is_unique(b + g, bg);
    law_rounding_is_unique(bg + r, sum);
}

}
