use qr_screen::history::History;
use qr_screen::menu::{
    can_label, can_show_menu, entry_label, handle_menu_command, show_menu, uses_history, MenuAction, MenuItem,
};

fn history(entries: &[&str]) -> History {
    let mut h = History::new();
    for e in entries {
        h.push(e.to_string());
    }
    h
}

fn shown(h: &History) -> Vec<(usize, bool, String)> {
    show_menu(h)
        .iter()
        .map(|item| match item {
            MenuItem::Separator => (0, false, "---".to_string()),
            MenuItem::Line { id, enabled, label } => {
                assert_eq!(*label.last().unwrap(), 0);
                (*id, *enabled, String::from_utf16(&label[..label.len() - 1]).unwrap())
            }
        })
        .collect()
}

fn line(id: usize, enabled: bool, text: &str) -> (usize, bool, String) {
    (id, enabled, text.to_string())
}

#[test]
fn history_counts_from_the_newest() {
    let h = history(&["a", "b", "c"]);
    assert_eq!(h.len(), 3);
    assert_eq!(h.recent(0).unwrap(), "c");
    assert_eq!(h.recent(2).unwrap(), "a");
    assert!(h.recent(3).is_none());
}

#[test]
fn menu_without_history() {
    assert_eq!(
        shown(&History::new()),
        vec![line(0, false, "(no history)"), line(0, false, "---"), line(1002, true, "Quit")]
    );
}

#[test]
fn menu_lists_newest_first() {
    assert_eq!(
        shown(&history(&["first", "second"])),
        vec![
            line(2000, true, "second"),
            line(2001, true, "first"),
            line(0, false, "---"),
            line(1001, true, "Clear History"),
            line(0, false, "---"),
            line(1002, true, "Quit"),
        ]
    );
}

#[test]
fn menu_offers_twenty_entries() {
    let texts: Vec<String> = (0..25).map(|i| format!("entry {}", i)).collect();
    let mut h = History::new();
    for t in &texts {
        h.push(t.clone());
    }
    let lines = shown(&h);
    assert_eq!(lines.len(), 24);
    assert_eq!(lines[0], line(2000, true, "entry 24"));
    assert_eq!(lines[19], line(2019, true, "entry 5"));
    assert_eq!(handle_menu_command(&mut h, 2019), MenuAction::Copy("entry 5".to_string()));
    assert_eq!(handle_menu_command(&mut h, 2020), MenuAction::Nothing);
}

#[test]
fn long_entries_are_cut_after_fifty_bytes() {
    let fifty = "x".repeat(50);
    assert_eq!(entry_label(&fifty), fifty);
    let long = "y".repeat(51);
    assert_eq!(entry_label(&long), format!("{}...", "y".repeat(50)));
    let accents = "\u{e9}".repeat(26);
    assert_eq!(entry_label(&accents), format!("{}...", "\u{e9}".repeat(25)));
}

#[test]
fn a_character_across_the_cut_has_no_label() {
    let straddling = format!("{}{}", "x".repeat(49), "\u{e9}\u{e9}");
    assert!(!can_label(&straddling));
    assert!(can_label(&format!("{}{}", "x".repeat(48), "\u{e9}\u{e9}")));
    assert!(can_label(&"short \u{1F600}".to_string()));
    let mut h = history(&["fine"]);
    assert!(can_show_menu(&h));
    h.push(straddling);
    assert!(!can_show_menu(&h));
    for _ in 0..20 {
        h.push("newer".to_string());
    }
    assert!(can_show_menu(&h));
}

#[test]
fn choosing_a_cut_entry_copies_all_of_it() {
    let long = "z".repeat(80);
    let mut h = history(&["old", &long]);
    assert_eq!(handle_menu_command(&mut h, 2000), MenuAction::Copy(long));
    assert_eq!(handle_menu_command(&mut h, 2001), MenuAction::Copy("old".to_string()));
    assert_eq!(handle_menu_command(&mut h, 2002), MenuAction::Nothing);
    assert_eq!(h.len(), 2);
}

#[test]
fn clearing_empties_the_menu() {
    let mut h = history(&["a", "b"]);
    assert_eq!(handle_menu_command(&mut h, 1001), MenuAction::Cleared);
    assert_eq!(h.len(), 0);
    assert_eq!(shown(&h)[0], line(0, false, "(no history)"));
    assert_eq!(handle_menu_command(&mut h, 2000), MenuAction::Nothing);
}

#[test]
fn quit_and_unknown_commands() {
    let mut h = history(&["a"]);
    assert_eq!(handle_menu_command(&mut h, 1002), MenuAction::Quit);
    assert_eq!(handle_menu_command(&mut h, 0), MenuAction::Nothing);
    assert_eq!(handle_menu_command(&mut h, 1999), MenuAction::Nothing);
    assert_eq!(h.len(), 1);
}

#[test]
fn commands_that_concern_the_history() {
    for id in [2000, 2019, 1001] {
        assert!(uses_history(id));
    }
    for id in [0, 1000, 1002, 1999, 2020, 65535] {
        assert!(!uses_history(id));
        assert_eq!(
            handle_menu_command(&mut history(&["a", "b"]), id),
            handle_menu_command(&mut History::new(), id)
        );
    }
}
