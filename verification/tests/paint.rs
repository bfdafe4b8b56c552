use qr_screen::geometry::{Point, Rect};
use qr_screen::overlay::OverlayState;
use qr_screen::paint::{compose, PaintOp, ORANGE, WHITE};

fn wide(text: &str) -> Vec<u16> {
    text.encode_utf16().collect()
}

fn dragged(x: i32, y: i32) -> OverlayState {
    OverlayState {
        width: 1920,
        height: 1080,
        start: Point { x: 100, y: 100 },
        current: Point { x, y },
        dragging: true,
    }
}

#[test]
fn backdrop_and_help_are_always_drawn() {
    let ops = compose(&OverlayState::new(1920, 1080));
    assert_eq!(ops.len(), 2);
    assert!(matches!(ops[0], PaintOp::Backdrop { width: 1920, height: 1080 }));
    match &ops[1] {
        PaintOp::Text { x, y, size, color, units } => {
            assert_eq!((*x, *y, *size, *color), (710, 16, 22, WHITE));
            assert_eq!(*units, wide("Drag to select area  |  ESC / Right-click to cancel"));
        }
        other => panic!("unexpected {:?}", other),
    }
}

#[test]
fn help_position_rounds_towards_zero() {
    match &compose(&OverlayState::new(-3, 1))[1] {
        PaintOp::Text { x, .. } => assert_eq!(*x, -251),
        other => panic!("unexpected {:?}", other),
    }
}

#[test]
fn selection_is_drawn_with_frame_and_size() {
    let ops = compose(&dragged(60, 225));
    assert_eq!(ops.len(), 5);
    assert!(matches!(ops[2], PaintOp::Screenshot { left: 60, top: 100, width: 40, height: 125 }));
    match &ops[3] {
        PaintOp::Frame { rect, thickness, color } => {
            assert_eq!(*rect, Rect { left: 59, top: 99, right: 101, bottom: 226 });
            assert_eq!((*thickness, *color), (2, ORANGE));
        }
        other => panic!("unexpected {:?}", other),
    }
    match &ops[4] {
        PaintOp::Text { x, y, size, color, units } => {
            assert_eq!((*x, *y, *size, *color), (60, 229, 16, ORANGE));
            assert_eq!(*units, wide("40\u{d7}125"));
        }
        other => panic!("unexpected {:?}", other),
    }
}

#[test]
fn tiny_selection_is_not_drawn() {
    assert_eq!(compose(&dragged(102, 200)).len(), 2);
    assert_eq!(compose(&dragged(200, 98)).len(), 2);
    assert_eq!(compose(&dragged(103, 103)).len(), 5);
    let mut idle = dragged(300, 300);
    idle.dragging = false;
    assert_eq!(compose(&idle).len(), 2);
}
