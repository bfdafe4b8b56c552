use qr_screen::geometry::{mouse_pt, norm_rect, Point, Rect};

#[test]
fn mouse_position_is_two_signed_words() {
    assert_eq!(mouse_pt(0x0014_000A), Point { x: 10, y: 20 });
    assert_eq!(mouse_pt(0xFFFF_FFFE), Point { x: -2, y: -1 });
    assert_eq!(mouse_pt(0x8000_7FFF), Point { x: 32767, y: -32768 });
    assert_eq!(mouse_pt(-1), Point { x: -1, y: -1 });
}

#[test]
fn mouse_position_ignores_higher_bits() {
    assert_eq!(mouse_pt(0x0123_4567_0014_000A), Point { x: 10, y: 20 });
    assert_eq!(mouse_pt(-0x1_0000_0000 + 0x0014_000A), Point { x: 10, y: 20 });
}

#[test]
fn packed_positions_read_back() {
    for (x, y) in [(0i16, 0i16), (-1, 1), (i16::MIN, i16::MAX), (300, -300)] {
        let lp = (x as u16 as isize) | ((y as u16 as isize) << 16);
        assert_eq!(mouse_pt(lp), Point { x: x as i32, y: y as i32 });
    }
}

#[test]
fn rectangle_does_not_depend_on_corner_order() {
    let expected = Rect { left: -3, top: 2, right: 7, bottom: 9 };
    assert_eq!(norm_rect(Point { x: -3, y: 9 }, Point { x: 7, y: 2 }), expected);
    assert_eq!(norm_rect(Point { x: 7, y: 2 }, Point { x: -3, y: 9 }), expected);
    assert_eq!(norm_rect(Point { x: 7, y: 9 }, Point { x: -3, y: 2 }), expected);
    assert_eq!(
        norm_rect(Point { x: 4, y: 4 }, Point { x: 4, y: 4 }),
        Rect { left: 4, top: 4, right: 4, bottom: 4 }
    );
}
