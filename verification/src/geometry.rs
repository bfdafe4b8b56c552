//! Points and rectangles in overlay coordinates.
use vstd::prelude::*;

verus! {

#[derive(Clone, Copy, Debug, PartialEq, Eq, Structural)]
pub struct Point {
    pub x: i32,
    pub y: i32,
}

#[derive(Clone, Copy, Debug, PartialEq, Eq, Structural)]
pub struct Rect {
    pub left: i32,
    pub top: i32,
    pub right: i32,
    pub bottom: i32,
}

/// The 16-bit word at the given weight, read as a signed number.
pub open spec fn signed_word(value: int, weight: int) -> int {
    let word = (value / weight) % 0x1_0000;
    if word >= 0x8000 {
        word - 0x1_0000
    } else {
        word
    }
}

/// The mouse position that a message parameter carries: the low word is the
/// horizontal coordinate, the next word the vertical one, both signed.
pub open spec fn mouse_point(lp: isize) -> Point {
    Point { x: signed_word(lp as int, 1) as i32, y: signed_word(lp as int, 0x1_0000) as i32 }
}

/// Whether both coordinates fit in a signed 16-bit word.
pub open spec fn in_mouse_range(p: Point) -> bool {
    -0x8000 <= p.x <= 0x7FFF && -0x8000 <= p.y <= 0x7FFF
}

/// Reads the mouse position out of a message parameter.
pub fn mouse_pt(lp: isize) -> (point: Point)
    ensures
        point == mouse_point(lp),
        in_mouse_range(point),
{
    let low: isize = lp & 0xFFFF;
    let rest: isize = lp >> 16;
    let high: isize = rest & 0xFFFF;
    proof {
        lemma_split_word(lp);
        lemma_split_word(rest);
        lemma_word_sign(low);
        lemma_word_sign(high);
    }
    Point { x: #[verifier::truncate] (low as i16) as i32, y: #[verifier::truncate] (high as i16) as i32 }
}

/// The smallest rectangle that has both points on its border.
pub open spec fn spanned(a: Point, b: Point) -> Rect {
    Rect {
        left: if a.x <= b.x { a.x } else { b.x },
        top: if a.y <= b.y { a.y } else { b.y },
        right: if a.x <= b.x { b.x } else { a.x },
        bottom: if a.y <= b.y { b.y } else { a.y },
    }
}

/// The rectangle that two opposite corners span, in whichever order they come.
pub fn norm_rect(a: Point, b: Point) -> (rect: Rect)
    ensures
        rect == spanned(a, b),
{
    let (left, right): (i32, i32) = if a.x <= b.x { (a.x, b.x) } else { (b.x, a.x) };
    let (top, bottom): (i32, i32) = if a.y <= b.y { (a.y, b.y) } else { (b.y, a.y) };
    Rect { left, top, right, bottom }
}

/// The parameter of a mouse message for the position (`x`, `y`), as far as
/// its low 32 bits go.
pub open spec fn packed_position(x: i16, y: i16) -> int {
    (x as int) % 0x1_0000 + 0x1_0000 * ((y as int) % 0x1_0000)
}

/// Whatever the bits above the low 32, reading a packed position gives the
/// position back.
pub proof fn law_mouse_point_unpacks(x: i16, y: i16, lp: isize)
    requires
        lp as int % 0x1_0000_0000 == packed_position(x, y),
    ensures
        mouse_point(lp) == (Point { x: x as i32, y: y as i32 }),
{
    let low = (x as int) % 0x1_0000;
    let high = (y as int) % 0x1_0000;
    let above = lp as int / 0x1_0000_0000;
    assert(lp == above * 0x1_0000_0000 + high * 0x1_0000 + low);
    assert(lp as int / 0x1_0000 == above * 0x1_0000 + high);
}

/// The spanned rectangle does not depend on the order of the corners, its
/// edges are in order, and each corner lies on two of its edges.
pub proof fn law_spanned(a: Point, b: Point)
    ensures
        spanned(a, b) == spanned(b, a),
        spanned(a, b).left <= spanned(a, b).right,
        spanned(a, b).top <= spanned(a, b).bottom,
        spanned(a, b).left == a.x || spanned(a, b).right == a.x,
        spanned(a, b).top == a.y || spanned(a, b).bottom == a.y,
        spanned(a, b).right - spanned(a, b).left == a.x - b.x || spanned(a, b).right - spanned(a, b).left
            == b.x - a.x,
        spanned(a, b).bottom - spanned(a, b).top == a.y - b.y || spanned(a, b).bottom - spanned(a, b).top
            == b.y - a.y,
{
}

/// Masking and shifting split a value into its low word and the rest.
proof fn lemma_split_word(value: isize)
    ensures
        value as int % 0x1_0000 == value & 0xFFFF,
        value as int / 0x1_0000 == value >> 16,
        0 <= value & 0xFFFF <= 0xFFFF,
{
    let low: isize = value & 0xFFFF;
    let rest: isize = value >> 16;
    assert(0 <= low <= 0xFFFF && value == rest * 0x1_0000 + low) by (bit_vector)
        requires
            low == value & 0xFFFF,
            rest == value >> 16,
    ;
}

/// Narrowing a word to 16 bits reads it as a signed number.
proof fn lemma_word_sign(word: isize)
    requires
        0 <= word <= 0xFFFF,
    ensures
        word as i16 == (if word >= 0x8000 {
            word - 0x1_0000
        } else {
            word as int
        }),
{
    assert(word < 0x8000 ==> word as i16 == word) by (bit_vector)
        requires
            0 <= word <= 0xFFFF,
    ;
    assert(word >= 0x8000 ==> word as i16 == word - 0x1_0000) by (bit_vector)
        requires
            0 <= word <= 0xFFFF,
    ;
}

/// The coordinates of a mouse position are the signed numbers of 16 bits that
/// agree with the low word and the next word of the parameter.
pub proof fn law_mouse_point_words(lp: isize)
    ensures
        -0x8000 <= mouse_point(lp).x < 0x8000,
        (lp - mouse_point(lp).x) % 0x1_0000 == 0,
        -0x8000 <= mouse_point(lp).y < 0x8000,
        (lp as int / 0x1_0000 - mouse_point(lp).y) % 0x1_0000 == 0,
{
}

/// A coordinate lies within the spanned rectangle exactly if it lies between
/// those of the two corners.
pub proof fn law_spanned_is_smallest(a: Point, b: Point, p: Point)
    ensures
        (spanned(a, b).left <= p.x <= spanned(a, b).right) <==> (a.x <= p.x <= b.x || b.x <= p.x <= a.x),
        (spanned(a, b).top <= p.y <= spanned(a, b).bottom) <==> (a.y <= p.y <= b.y || b.y <= p.y <= a.y),
{
}

}
