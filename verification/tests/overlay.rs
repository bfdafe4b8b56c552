use qr_screen::geometry::{Point, Rect};
use qr_screen::messages::{
    WM_CREATE, WM_DESTROY, WM_KEYDOWN, WM_LBUTTONDOWN, WM_LBUTTONUP, WM_MOUSEMOVE, WM_PAINT, WM_RBUTTONDOWN,
};
use qr_screen::overlay::{
    create_overlay, event_needs_state, handle_event, overlay_event, overlay_proc, Effect, OverlayEvent,
    OverlayState, VirtualScreen,
};

fn at(x: i16, y: i16) -> isize {
    (x as u16 as isize) | ((y as u16 as isize) << 16)
}

fn fresh() -> Option<OverlayState> {
    Some(OverlayState::new(1920, 1080))
}

#[test]
fn new_overlay_drags_nothing() {
    let st = OverlayState::new(1920, 1080);
    assert_eq!((st.width, st.height, st.dragging), (1920, 1080, false));
    assert_eq!(st.start, Point { x: 0, y: 0 });
    assert_eq!(st.current, Point { x: 0, y: 0 });
    assert_eq!(st.scan_area(), None);
}

#[test]
fn drag_searches_between_press_and_release() {
    let mut st = fresh();
    assert_eq!(overlay_proc(&mut st, WM_LBUTTONDOWN, 0, at(100, 200)), Some(vec![Effect::CaptureMouse]));
    assert_eq!(overlay_proc(&mut st, WM_MOUSEMOVE, 0, at(500, 900)), Some(vec![Effect::Invalidate]));
    assert_eq!(st.unwrap().current, Point { x: 500, y: 900 });
    assert_eq!(overlay_proc(&mut st, WM_PAINT, 0, 0), Some(vec![Effect::Paint]));
    let area = Rect { left: -20, top: 150, right: 100, bottom: 200 };
    assert_eq!(
        overlay_proc(&mut st, WM_LBUTTONUP, 0, at(-20, 150)),
        Some(vec![
            Effect::ReleaseMouse,
            Effect::Recognize(Some(area)),
            Effect::CloseWindow,
            Effect::ReportResult
        ])
    );
    assert!(!st.unwrap().dragging);
}

#[test]
fn small_selection_is_not_searched() {
    for (x, y, searched) in [(9, 30, false), (30, 9, false), (10, 10, true)] {
        let mut st = fresh();
        overlay_proc(&mut st, WM_LBUTTONDOWN, 0, at(0, 0));
        let effects = overlay_proc(&mut st, WM_LBUTTONUP, 0, at(x, y)).unwrap();
        match effects[1] {
            Effect::Recognize(area) => assert_eq!(area.is_some(), searched),
            other => panic!("unexpected {:?}", other),
        }
    }
}

#[test]
fn idle_mouse_does_nothing() {
    let mut st = fresh();
    assert_eq!(overlay_proc(&mut st, WM_MOUSEMOVE, 0, at(5, 5)), Some(vec![]));
    assert_eq!(overlay_proc(&mut st, WM_LBUTTONUP, 0, at(5, 5)), Some(vec![]));
    assert_eq!(st, fresh());
}

#[test]
fn cancel_is_neither_searched_nor_reported() {
    let mut st = fresh();
    assert_eq!(overlay_proc(&mut st, WM_RBUTTONDOWN, 0, 0), Some(vec![Effect::CloseWindow]));
    overlay_proc(&mut st, WM_LBUTTONDOWN, 0, at(1, 1));
    assert_eq!(
        overlay_proc(&mut st, WM_KEYDOWN, 0x1B, 0),
        Some(vec![Effect::ReleaseMouse, Effect::CloseWindow])
    );
    assert!(!st.unwrap().dragging);
}

#[test]
fn only_the_low_word_of_a_key_counts() {
    assert_eq!(overlay_event(WM_KEYDOWN, 0x1_001B, 0), OverlayEvent::Cancelled);
    assert_eq!(overlay_event(WM_KEYDOWN, 0x41, 0), OverlayEvent::OtherKey);
    let mut st = fresh();
    assert_eq!(overlay_proc(&mut st, WM_KEYDOWN, 0x41, 0), Some(vec![]));
}

#[test]
fn destroyed_overlay_is_inactive() {
    let mut st = fresh();
    assert_eq!(
        overlay_proc(&mut st, WM_DESTROY, 0, 0),
        Some(vec![Effect::FreeState, Effect::ClearActive, Effect::PostQuit])
    );
    assert_eq!(st, None);
    assert_eq!(
        overlay_proc(&mut st, WM_DESTROY, 0, 0),
        Some(vec![Effect::ClearActive, Effect::PostQuit])
    );
}

#[test]
fn window_without_selection_paints_by_default() {
    let mut st = None;
    assert_eq!(overlay_proc(&mut st, WM_CREATE, 0, 0), Some(vec![Effect::AttachState]));
    assert_eq!(overlay_proc(&mut st, WM_PAINT, 0, 0), None);
    assert_eq!(overlay_proc(&mut st, 0x0005, 0, 0), None);
}

#[test]
fn second_press_restarts_the_drag() {
    let mut st = fresh();
    handle_event(&mut st, OverlayEvent::Pressed(Point { x: 1, y: 2 }));
    handle_event(&mut st, OverlayEvent::Pressed(Point { x: 30, y: 40 }));
    assert_eq!(st.unwrap().start, Point { x: 30, y: 40 });
    assert!(st.unwrap().dragging);
}

#[test]
fn mouse_and_cancel_need_a_selection() {
    assert!(event_needs_state(OverlayEvent::Cancelled));
    assert!(event_needs_state(OverlayEvent::Moved(Point { x: 0, y: 0 })));
    assert!(!event_needs_state(OverlayEvent::Destroyed));
    assert!(!event_needs_state(OverlayEvent::PaintNeeded));
}

#[test]
fn cancel_method_releases_only_a_drag() {
    let mut st = OverlayState::new(10, 10);
    assert_eq!(st.cancel(), vec![Effect::CloseWindow]);
    st.dragging = true;
    assert_eq!(st.cancel(), vec![Effect::ReleaseMouse, Effect::CloseWindow]);
    assert!(!st.dragging);
}

#[test]
fn overlay_covers_the_virtual_screen() {
    let screen = VirtualScreen { x: -1280, y: 40, width: 3200, height: 1024 };
    let plan = create_overlay(screen);
    assert_eq!(plan.window, screen);
    assert_eq!(plan.source, Point { x: -1280, y: 40 });
    assert_eq!((plan.bitmap_width, plan.bitmap_height), (3200, 1024));
    assert_eq!(plan.state, OverlayState::new(3200, 1024));
}
