//! The tray icon: a simple pattern that looks like a QR code.
use crate::geometry::Rect;
use vstd::prelude::*;

verus! {

/// The side of the square icon in pixels.
pub const ICON_SIZE: i32 = 32;

#[derive(Clone, Copy, Debug, PartialEq, Eq, Structural)]
pub enum Shade {
    White,
    Black,
}

/// A rectangle to fill; its right and bottom edges are not part of it.
#[derive(Clone, Copy, Debug, PartialEq, Eq, Structural)]
pub struct Fill {
    pub rect: Rect,
    pub shade: Shade,
}

/// The fill of a square with its upper left corner at (`x`, `y`).
pub open spec fn square(x: int, y: int, side: int, shade: Shade) -> Fill {
    Fill {
        rect: Rect {
            left: x as i32,
            top: y as i32,
            right: (x + side) as i32,
            bottom: (y + side) as i32,
        },
        shade,
    }
}

/// The fills of a finder pattern: a black square with a white one in it and a
/// smaller black one in that.
pub open spec fn finder(x: int, y: int) -> Seq<Fill> {
    seq![
        square(x, y, 10, Shade::Black),
        square(x + 2, y + 2, 6, Shade::White),
        square(x + 3, y + 3, 4, Shade::Black),
    ]
}

/// The fills of the icon, in order: the white ground, three finder patterns,
/// and four dots.
pub open spec fn icon_fills() -> Seq<Fill> {
    seq![square(0, 0, ICON_SIZE as int, Shade::White)] + finder(2, 2) + finder(20, 2) + finder(
        2,
        20,
    ) + seq![
        square(14, 14, 4, Shade::Black),
        square(20, 20, 4, Shade::Black),
        square(26, 14, 4, Shade::Black),
        square(14, 26, 4, Shade::Black),
    ]
}

fn push_square(fills: &mut Vec<Fill>, x: i32, y: i32, side: i32, shade: Shade)
    requires
        0 <= x <= ICON_SIZE,
        0 <= y <= ICON_SIZE,
        0 <= side <= ICON_SIZE,
    ensures
        final(fills)@ == old(fills)@.push(square(x as int, y as int, side as int, shade)),
{
    fills.push(Fill { rect: Rect { left: x, top: y, right: x + side, bottom: y + side }, shade });
}

fn push_finder(fills: &mut Vec<Fill>, x: i32, y: i32)
    requires
        0 <= x <= 22,
        0 <= y <= 22,
    ensures
        final(fills)@ == old(fills)@ + finder(x as int, y as int),
{
    push_square(fills, x, y, 10, Shade::Black);
    push_square(fills, x + 2, y + 2, 6, Shade::White);
    push_square(fills, x + 3, y + 3, 4, Shade::Black);
    assert(fills@ =~= old(fills)@ + finder(x as int, y as int));
}

/// Lists the rectangles that draw the icon.
pub fn make_icon() -> (fills: Vec<Fill>)
    ensures
        fills@ == icon_fills(),
{
    let mut fills: Vec<Fill> = Vec::new();
    push_square(&mut fills, 0, 0, ICON_SIZE, Shade::White);
    push_finder(&mut fills, 2, 2);
    push_finder(&mut fills, 20, 2);
    push_finder(&mut fills, 2, 20);
    push_square(&mut fills, 14, 14, 4, Shade::Black);
    push_square(&mut fills, 20, 20, 4, Shade::Black);
    push_square(&mut fills, 26, 14, 4, Shade::Black);
    push_square(&mut fills, 14, 26, 4, Shade::Black);
    assert(fills@ =~= icon_fills());
    fills
}

/// Whether a fill covers a pixel.
pub open spec fn covers(fill: Fill, x: int, y: int) -> bool {
    fill.rect.left <= x < fill.rect.right && fill.rect.top <= y < fill.rect.bottom
}

/// The shade of a pixel after all fills: that of the last one that covers it.
pub open spec fn shade_at(fills: Seq<Fill>, x: int, y: int) -> Option<Shade>
    decreases fills.len(),
{
    if fills.len() == 0 {
        None
    } else if covers(fills.last(), x, y) {
        Some(fills.last().shade)
    } else {
        shade_at(fills.drop_last(), x, y)
    }
}

proof fn lemma_shade_concat(a: Seq<Fill>, b: Seq<Fill>, x: int, y: int)
    ensures
        shade_at(a + b, x, y) == (if shade_at(b, x, y) is Some {
            shade_at(b, x, y)
        } else {
            shade_at(a, x, y)
        }),
    decreases b.len(),
{
    if b.len() == 0 {
        assert(a + b =~= a);
    } else {
        assert((a + b).drop_last() =~= a + b.drop_last());
        lemma_shade_concat(a, b.drop_last(), x, y);
    }
}

/// What a finder pattern looks like, at an offset from its corner.
pub open spec fn finder_shade(dx: int, dy: int) -> Option<Shade> {
    if !(0 <= dx < 10 && 0 <= dy < 10) {
        None
    } else if 3 <= dx < 7 && 3 <= dy < 7 {
        Some(Shade::Black)
    } else if 2 <= dx < 8 && 2 <= dy < 8 {
        Some(Shade::White)
    } else {
        Some(Shade::Black)
    }
}

proof fn lemma_finder(x: int, y: int, px: int, py: int)
    requires
        0 <= x <= 22,
        0 <= y <= 22,
    ensures
        shade_at(finder(x, y), px, py) == finder_shade(px - x, py - y),
{
    reveal_with_fuel(shade_at, 4);
    let f = finder(x, y);
    assert(f.drop_last() =~= f.take(2));
    assert(f.drop_last().drop_last() =~= f.take(1));
    assert(f.drop_last().drop_last().drop_last() =~= Seq::<Fill>::empty());
}

/// Whether one of the four dots covers a pixel.
pub open spec fn on_dot(x: int, y: int) -> bool {
    ||| 14 <= x < 18 && 14 <= y < 18
    ||| 20 <= x < 24 && 20 <= y < 24
    ||| 26 <= x < 30 && 14 <= y < 18
    ||| 14 <= x < 18 && 26 <= y < 30
}

/// The picture that the fills give: a finder pattern in three of the four
/// corners, undamaged by what is drawn after it, dots between them, white
/// elsewhere, and nothing outside of the icon.
pub proof fn law_icon_picture(x: int, y: int)
    ensures
        shade_at(icon_fills(), x, y) == (if finder_shade(x - 2, y - 2) is Some {
            finder_shade(x - 2, y - 2)
        } else if finder_shade(x - 20, y - 2) is Some {
            finder_shade(x - 20, y - 2)
        } else if finder_shade(x - 2, y - 20) is Some {
            finder_shade(x - 2, y - 20)
        } else if on_dot(x, y) {
            Some(Shade::Black)
        } else if 0 <= x < ICON_SIZE && 0 <= y < ICON_SIZE {
            Some(Shade::White)
        } else {
            None
        }),
{
    let ground = seq![square(0, 0, ICON_SIZE as int, Shade::White)];
    let dots = seq![
        square(14, 14, 4, Shade::Black),
        square(20, 20, 4, Shade::Black),
        square(26, 14, 4, Shade::Black),
        square(14, 26, 4, Shade::Black),
    ];
    lemma_shade_concat(ground, finder(2, 2), x, y);
    lemma_shade_concat(ground + finder(2, 2), finder(20, 2), x, y);
    lemma_shade_concat(ground + finder(2, 2) + finder(20, 2), finder(2, 20), x, y);
    lemma_shade_concat(ground + finder(2, 2) + finder(20, 2) + finder(2, 20), dots, x, y);
    lemma_finder(2, 2, x, y);
    lemma_finder(20, 2, x, y);
    lemma_finder(2, 20, x, y);
    assert(shade_at(dots, x, y) == (if on_dot(x, y) {
        Some(Shade::Black)
    } else {
        None
    })) by {
        reveal_with_fuel(shade_at, 5);
        assert(dots.drop_last() =~= dots.take(3));
        assert(dots.drop_last().drop_last() =~= dots.take(2));
        assert(dots.drop_last().drop_last().drop_last() =~= dots.take(1));
        assert(dots.drop_last().drop_last().drop_last().drop_last() =~= Seq::<Fill>::empty());
    }
    assert(ground.drop_last() =~= Seq::<Fill>::empty());
    reveal_with_fuel(shade_at, 2);
}

/// The last fill that covers a pixel gives its shade; its left and top edges are
/// part of it, its right and bottom edges are not.
pub proof fn law_last_fill_counts(fills: Seq<Fill>, fill: Fill, x: int, y: int)
    ensures
        shade_at(fills.push(fill), x, y) == if fill.rect.left <= x && x < fill.rect.right && fill.rect.top <= y
            && y < fill.rect.bottom {
            Some(fill.shade)
        } else {
            shade_at(fills, x, y)
        },
        shade_at(Seq::<Fill>::empty(), x, y) is None,
{
    assert(fills.push(fill).drop_last() =~= fills);
}

/// The icon is 32 pixels a side and drawn nowhere else. Black in it are three
/// frames of 10 pixels a side that are 2 pixels thick, each with a core of 4
/// pixels a side, and four dots of 4 pixels a side; all else is white.
pub proof fn law_icon_is_black_where(x: int, y: int)
    ensures
        shade_at(icon_fills(), x, y) is Some <==> 0 <= x < 32 && 0 <= y < 32,
        shade_at(icon_fills(), x, y) == Some(Shade::Black) <==> {
            ||| black_in_finder(x - 2, y - 2)
            ||| black_in_finder(x - 20, y - 2)
            ||| black_in_finder(x - 2, y - 20)
            ||| 0 <= x - 14 < 4 && 0 <= y - 14 < 4
            ||| 0 <= x - 20 < 4 && 0 <= y - 20 < 4
            ||| 0 <= x - 26 < 4 && 0 <= y - 14 < 4
            ||| 0 <= x - 14 < 4 && 0 <= y - 26 < 4
        },
{
    law_icon_picture(x, y);
}

/// Whether a pixel of a finder pattern of the icon is black: it lies on the
/// pattern, and not in the white ring between frame and core.
pub open spec fn black_in_finder(dx: int, dy: int) -> bool {
    &&& 0 <= dx <= 9 && 0 <= dy <= 9
    &&& !(2 <= dx <= 7 && 2 <= dy <= 7) || (3 <= dx <= 6 && 3 <= dy <= 6)
}

/// A finder pattern of the icon is the same from all sides.
pub proof fn law_icon_finder_is_symmetric(dx: int, dy: int)
    ensures
        finder_shade(dx, dy) == finder_shade(dy, dx),
        finder_shade(dx, dy) == finder_shade(9 - dx, dy),
        finder_shade(dx, dy) == Some(Shade::Black) <==> black_in_finder(dx, dy),
{
}

}
