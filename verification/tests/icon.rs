use qr_screen::geometry::Rect;
use qr_screen::icon::{make_icon, Fill, Shade};

fn shade(fills: &[Fill], x: i32, y: i32) -> Option<Shade> {
    fills
        .iter()
        .rev()
        .find(|f| f.rect.left <= x && x < f.rect.right && f.rect.top <= y && y < f.rect.bottom)
        .map(|f| f.shade)
}

#[test]
fn icon_starts_with_a_white_ground() {
    let fills = make_icon();
    assert_eq!(fills.len(), 14);
    assert_eq!(
        fills[0],
        Fill { rect: Rect { left: 0, top: 0, right: 32, bottom: 32 }, shade: Shade::White }
    );
    assert_eq!(
        fills[5],
        Fill { rect: Rect { left: 22, top: 4, right: 28, bottom: 10 }, shade: Shade::White }
    );
    assert_eq!(
        fills[13],
        Fill { rect: Rect { left: 14, top: 26, right: 18, bottom: 30 }, shade: Shade::Black }
    );
}

#[test]
fn icon_has_three_finder_patterns() {
    let fills = make_icon();
    for (ox, oy) in [(2, 2), (20, 2), (2, 20)] {
        assert_eq!(shade(&fills, ox, oy), Some(Shade::Black));
        assert_eq!(shade(&fills, ox + 9, oy + 9), Some(Shade::Black));
        assert_eq!(shade(&fills, ox + 2, oy + 2), Some(Shade::White));
        assert_eq!(shade(&fills, ox + 5, oy + 5), Some(Shade::Black));
    }
    assert_eq!(shade(&fills, 22, 22), Some(Shade::Black));
    assert_eq!(shade(&fills, 29, 29), Some(Shade::White));
    assert_eq!(shade(&fills, 32, 0), None);
}
