use qr_screen::history::History;
use qr_screen::menu::{handle_menu_command, MenuAction};
use qr_screen::messages::{
    IDM_HISTORY_BASE, QR_FOUND, QR_NOT_FOUND, WM_COMMAND, WM_DESTROY, WM_QR_RESULT, WM_TRAYICON,
};
use qr_screen::tray::{
    balloon, menu_effects, notice_balloon, report_result, start_selection, tip_field, wndproc, LaunchEvent, Notice,
    TrayAction, TrayEffect,
};

fn field(text: &str, capacity: usize) -> Vec<u16> {
    let mut units: Vec<u16> = text.encode_utf16().collect();
    units.resize(capacity, 0);
    units
}

#[test]
fn click_starts_one_selection() {
    assert_eq!(wndproc(WM_TRAYICON, 0, 0x0202, false), TrayAction::StartSelection);
    assert_eq!(wndproc(WM_TRAYICON, 0, 0x0202, true), TrayAction::Nothing);
    assert_eq!(wndproc(WM_TRAYICON, 0, 0x5_0000_0202, false), TrayAction::StartSelection);
}

#[test]
fn right_click_shows_the_menu() {
    assert_eq!(wndproc(WM_TRAYICON, 0, 0x0205, true), TrayAction::ShowMenu);
    assert_eq!(wndproc(WM_TRAYICON, 0, 0x0200, false), TrayAction::Nothing);
    assert_eq!(wndproc(WM_TRAYICON, 0, -1, false), TrayAction::Nothing);
}

#[test]
fn command_is_the_low_word() {
    assert_eq!(wndproc(WM_COMMAND, 2003, 0, false), TrayAction::Command(2003));
    assert_eq!(wndproc(WM_COMMAND, 0x1_07D3, 0, false), TrayAction::Command(2003));
}

#[test]
fn results_are_announced() {
    assert_eq!(wndproc(WM_QR_RESULT, QR_FOUND, 0, true), TrayAction::Notify(Notice::Found));
    assert_eq!(wndproc(WM_QR_RESULT, QR_NOT_FOUND, 0, true), TrayAction::Notify(Notice::NotFound));
    assert_eq!(wndproc(WM_QR_RESULT, 0, 0, true), TrayAction::Nothing);
    assert_eq!(wndproc(WM_QR_RESULT, 3, 0, true), TrayAction::Nothing);
}

#[test]
fn other_messages() {
    assert_eq!(wndproc(WM_DESTROY, 0, 0, false), TrayAction::Quit);
    assert_eq!(wndproc(0x000F, 0, 0, false), TrayAction::DefaultProcessing);
}

#[test]
fn found_text_goes_to_history_and_clipboard() {
    assert_eq!(
        report_result(7, Some("hello".to_string())),
        vec![
            TrayEffect::Remember("hello".to_string()),
            TrayEffect::SetClipboard("hello".to_string()),
            TrayEffect::PostResult(QR_FOUND),
        ]
    );
}

#[test]
fn missing_text_is_only_announced() {
    assert_eq!(report_result(7, None), vec![TrayEffect::PostResult(QR_NOT_FOUND)]);
}

#[test]
fn nothing_is_reported_without_a_main_window() {
    assert_eq!(report_result(0, Some("lost".to_string())), vec![]);
    assert_eq!(report_result(0, None), vec![]);
}

#[test]
fn reported_text_can_be_copied_again() {
    let mut h = History::new();
    h.push("older".to_string());
    for effect in report_result(7, Some("newest".to_string())) {
        if let TrayEffect::Remember(text) = effect {
            h.push(text);
        }
    }
    assert_eq!(h.len(), 2);
    assert_eq!(
        menu_effects(handle_menu_command(&mut h, IDM_HISTORY_BASE)),
        vec![TrayEffect::SetClipboard("newest".to_string()), TrayEffect::Notify(Notice::Copied)]
    );
}

#[test]
fn icon_is_removed_before_the_loop_is_left() {
    assert_eq!(menu_effects(MenuAction::Quit), vec![TrayEffect::RemoveIcon, TrayEffect::PostQuit]);
    assert_eq!(menu_effects(MenuAction::Nothing), vec![]);
    assert_eq!(menu_effects(MenuAction::Cleared), vec![]);
}

#[test]
fn failed_overlay_allows_another() {
    let mut active = false;
    assert!(start_selection(&mut active, LaunchEvent::Requested));
    assert!(active);
    assert_eq!(wndproc(WM_TRAYICON, 0, 0x0202, active), TrayAction::Nothing);
    assert!(!start_selection(&mut active, LaunchEvent::Ended { ok: true }));
    assert!(active);
    assert!(!start_selection(&mut active, LaunchEvent::Ended { ok: false }));
    assert!(!active);
    assert_eq!(wndproc(WM_TRAYICON, 0, 0x0202, active), TrayAction::StartSelection);
}

#[test]
fn notices_fill_their_fields() {
    let found = notice_balloon(Notice::Found);
    assert_eq!(found.title, field("QR Code Found", 64));
    assert_eq!(found.info, field("Content copied to clipboard!", 256));
    let missing = notice_balloon(Notice::NotFound);
    assert_eq!(missing.title, field("No QR Code", 64));
    assert_eq!(missing.info, field("No QR code detected in selection.", 256));
    let copied = notice_balloon(Notice::Copied);
    assert_eq!(copied.title, field("Copied", 64));
    assert_eq!(copied.info, field("QR content copied to clipboard!", 256));
}

#[test]
fn long_balloons_are_cut() {
    let fields = balloon(&"t".repeat(100), &"m".repeat(300));
    assert_eq!(fields.title, field(&"t".repeat(63), 64));
    assert_eq!(fields.info, field(&"m".repeat(255), 256));
}

#[test]
fn tip_names_the_program() {
    assert_eq!(tip_field(), field("QR Screen Reader", 128));
}
