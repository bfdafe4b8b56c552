//! The context menu of the tray icon: the newest texts, clearing them, and
//! quitting.
use crate::history::{recent, History};
use crate::messages::{IDM_CLEAR, IDM_HISTORY_BASE, IDM_QUIT, MAX_HISTORY};
use crate::text::{utf16, wide_nul};
use vstd::prelude::*;
use vstd::string::StringExecFns;
use vstd::utf8::{decode_utf8, encode_utf8, is_char_boundary};

verus! {

/// The number of bytes of an entry that a label shows.
pub const LABEL_BYTES: usize = 50;

/// Whether a label can be cut from an entry: it is short enough to be shown
/// whole, or its first 50 bytes are whole characters.
pub open spec fn has_label(entry: Seq<char>) -> bool {
    encode_utf8(entry).len() > LABEL_BYTES ==> is_char_boundary(
        encode_utf8(entry),
        LABEL_BYTES as int,
    )
}

/// The label of an entry: the entry itself, or its first 50 bytes and an
/// ellipsis.
pub open spec fn label_text(entry: Seq<char>) -> Seq<char> {
    if encode_utf8(entry).len() > LABEL_BYTES {
        decode_utf8(encode_utf8(entry).take(LABEL_BYTES as int)) + "..."@
    } else {
        entry
    }
}

/// Tells whether a label can be cut from an entry.
pub fn can_label(entry: &String) -> (can: bool)
    ensures
        can == has_label(entry@),
{
    let text: &str = entry.as_str();
    let bytes: &[u8] = text.as_bytes();
    bytes.len() <= LABEL_BYTES || text.is_char_boundary(LABEL_BYTES)
}

/// Cuts the label of an entry.
pub fn entry_label(entry: &String) -> (label: String)
    requires
        has_label(entry@),
    ensures
        label@ == label_text(entry@),
{
    let text: &str = entry.as_str();
    let bytes: &[u8] = text.as_bytes();
    if bytes.len() > LABEL_BYTES {
        let (head, tail): (&str, &str) = text.split_at(LABEL_BYTES);
        proof {
            vstd::utf8::encode_utf8_decode_utf8(head@);
            assert(encode_utf8(head@) =~= encode_utf8(entry@).take(LABEL_BYTES as int));
        }
        let mut label: String = head.to_owned();
        label.append("...");
        label
    } else {
        entry.clone()
    }
}

/// A cut label is a prefix of the entry, 50 bytes long, and an ellipsis.
pub proof fn law_cut_label_is_prefix(entry: Seq<char>)
    requires
        has_label(entry),
        encode_utf8(entry).len() > LABEL_BYTES,
    ensures
        exists|kept: int|
            0 <= kept < entry.len() && label_text(entry) == #[trigger] entry.take(kept) + "..."@
                && encode_utf8(entry.take(kept)).len() == LABEL_BYTES,
{
    let bytes = encode_utf8(entry);
    let head = bytes.subrange(0, LABEL_BYTES as int);
    let tail = bytes.subrange(LABEL_BYTES as int, bytes.len() as int);
    vstd::utf8::encode_utf8_valid_utf8(entry);
    vstd::utf8::encode_utf8_decode_utf8(entry);
    vstd::utf8::decode_utf8_split(bytes, LABEL_BYTES as int);
    vstd::utf8::valid_utf8_split(bytes, LABEL_BYTES as int);
    vstd::utf8::decode_utf8_encode_utf8(head);
    vstd::utf8::decode_utf8_encode_utf8(tail);
    let kept = decode_utf8(head).len() as int;
    assert(entry == decode_utf8(head) + decode_utf8(tail));
    assert(entry.take(kept) =~= decode_utf8(head));
    if decode_utf8(tail).len() == 0 {
        assert(encode_utf8(decode_utf8(tail)).len() == 0);
    }
}

/// Every entry of ASCII characters has a label.
pub proof fn law_ascii_has_label(entry: Seq<char>)
    requires
        vstd::utf8::is_ascii_chars(entry),
    ensures
        has_label(entry),
{
    vstd::utf8::encode_utf8_valid_utf8(entry);
    vstd::utf8::is_ascii_chars_encode_utf8(entry);
    if encode_utf8(entry).len() > LABEL_BYTES {
        vstd::utf8::is_char_boundary_iff_not_is_continuation_byte(
            encode_utf8(entry),
            LABEL_BYTES as int,
        );
    }
}

/// One line of the menu.
#[derive(Debug)]
pub enum MenuItem {
    Separator,
    /// A line with its command and its zero-terminated label. A disabled line
    /// cannot be chosen.
    Line { id: usize, enabled: bool, label: Vec<u16> },
}

/// A line of the menu with its label as a sequence.
pub enum MenuLine {
    Separator,
    Line { id: nat, enabled: bool, label: Seq<u16> },
}

impl View for MenuItem {
    type V = MenuLine;

    open spec fn view(&self) -> MenuLine {
        match *self {
            MenuItem::Separator => MenuLine::Separator,
            MenuItem::Line { id, enabled, label } => MenuLine::Line {
                id: id as nat,
                enabled,
                label: label@,
            },
        }
    }
}

/// The lines that a list holds.
pub open spec fn lines(items: Seq<MenuItem>) -> Seq<MenuLine> {
    Seq::new(items.len(), |i: int| items[i]@)
}

/// A line with the given text as its label.
pub open spec fn text_line(id: nat, enabled: bool, text: Seq<char>) -> MenuLine {
    MenuLine::Line { id, enabled, label: utf16(text).push(0) }
}

/// The number of entries that the menu offers.
pub open spec fn offered(history: Seq<Seq<char>>) -> nat {
    if history.len() < MAX_HISTORY {
        history.len()
    } else {
        MAX_HISTORY as nat
    }
}

/// The line of the entry with the given number, counted from the newest.
pub open spec fn entry_line(history: Seq<Seq<char>>, index: int) -> MenuLine {
    text_line((IDM_HISTORY_BASE + index) as nat, true, label_text(recent(history, index)->0))
}

/// The lines of the offered entries, newest first.
pub open spec fn entry_lines(history: Seq<Seq<char>>) -> Seq<MenuLine> {
    Seq::new(offered(history), |i: int| entry_line(history, i))
}

/// The lines of the menu.
pub open spec fn menu_lines(history: Seq<Seq<char>>) -> Seq<MenuLine> {
    (if history.len() == 0 {
        seq![text_line(0, false, "(no history)"@)]
    } else {
        entry_lines(history) + seq![
            MenuLine::Separator,
            text_line(IDM_CLEAR as nat, true, "Clear History"@),
        ]
    }) + seq![MenuLine::Separator, text_line(IDM_QUIT as nat, true, "Quit"@)]
}

/// Whether every offered entry has a label.
pub open spec fn has_labels(history: Seq<Seq<char>>) -> bool {
    forall|i: int| 0 <= i < offered(history) ==> has_label(#[trigger] recent(history, i)->0)
}

/// Tells whether every offered entry has a label.
pub fn can_show_menu(history: &History) -> (can: bool)
    ensures
        can == has_labels(history@),
{
    let mut i: usize = 0;
    while i < MAX_HISTORY && i < history.len()
        invariant
            i <= offered(history@),
            forall|j: int| 0 <= j < i ==> has_label(#[trigger] recent(history@, j)->0),
        decreases MAX_HISTORY - i,
    {
        if let Some(entry) = history.recent(i) {
            if !can_label(entry) {
                assert(!has_label(recent(history@, i as int)->0));
                return false;
            }
        }
        i = i + 1;
    }
    true
}

/// Lists the lines of the context menu.
pub fn show_menu(history: &History) -> (items: Vec<MenuItem>)
    requires
        has_labels(history@),
    ensures
        lines(items@) == menu_lines(history@),
{
    let mut items: Vec<MenuItem> = Vec::new();
    if history.len() == 0 {
        items.push(MenuItem::Line { id: 0, enabled: false, label: wide_nul("(no history)") });
    } else {
        let mut i: usize = 0;
        while i < MAX_HISTORY && i < history.len()
            invariant
                i <= offered(history@),
                has_labels(history@),
                items@.len() == i,
                forall|j: int| 0 <= j < i ==> #[trigger] items@[j]@ == entry_line(history@, j),
            decreases MAX_HISTORY - i,
        {
            if let Some(entry) = history.recent(i) {
                assert(has_label(recent(history@, i as int)->0));
                let display: String = entry_label(entry);
                let label: Vec<u16> = wide_nul(display.as_str());
                let id: usize = (IDM_HISTORY_BASE + i as u16) as usize;
                items.push(MenuItem::Line { id, enabled: true, label });
            }
            i = i + 1;
        }
        items.push(MenuItem::Separator);
        items.push(
            MenuItem::Line { id: IDM_CLEAR as usize, enabled: true, label: wide_nul("Clear History") },
        );
    }
    items.push(MenuItem::Separator);
    items.push(MenuItem::Line { id: IDM_QUIT as usize, enabled: true, label: wide_nul("Quit") });
    assert(lines(items@) =~= menu_lines(history@));
    items
}

/// What choosing a menu command asks for.
#[derive(Debug, PartialEq, Eq)]
pub enum MenuAction {
    Nothing,
    /// Copy this text.
    Copy(String),
    /// The history has been cleared.
    Cleared,
    /// End the program.
    Quit,
}

/// What choosing a menu command asks for, with the text as a sequence.
pub enum MenuChoice {
    Nothing,
    Copy(Seq<char>),
    Cleared,
    Quit,
}

impl View for MenuAction {
    type V = MenuChoice;

    open spec fn view(&self) -> MenuChoice {
        match *self {
            MenuAction::Nothing => MenuChoice::Nothing,
            MenuAction::Copy(text) => MenuChoice::Copy(text@),
            MenuAction::Cleared => MenuChoice::Cleared,
            MenuAction::Quit => MenuChoice::Quit,
        }
    }
}

/// What a command asks for, given the history.
pub open spec fn choice_of(history: Seq<Seq<char>>, id: u16) -> MenuChoice {
    if IDM_HISTORY_BASE <= id < IDM_HISTORY_BASE + MAX_HISTORY {
        match recent(history, id - IDM_HISTORY_BASE) {
            Some(text) => MenuChoice::Copy(text),
            None => MenuChoice::Nothing,
        }
    } else if id == IDM_CLEAR {
        MenuChoice::Cleared
    } else if id == IDM_QUIT {
        MenuChoice::Quit
    } else {
        MenuChoice::Nothing
    }
}

/// The history after a command.
pub open spec fn history_after(history: Seq<Seq<char>>, id: u16) -> Seq<Seq<char>> {
    if id == IDM_CLEAR {
        Seq::empty()
    } else {
        history
    }
}

/// Carries out a menu command on the history and says what else it asks for.
pub fn handle_menu_command(history: &mut History, id: u16) -> (action: MenuAction)
    ensures
        action@ == choice_of(old(history)@, id),
        final(history)@ == history_after(old(history)@, id),
{
    if id >= IDM_HISTORY_BASE && id < IDM_HISTORY_BASE + MAX_HISTORY as u16 {
        let index: usize = (id - IDM_HISTORY_BASE) as usize;
        return match history.recent(index) {
            Some(entry) => MenuAction::Copy(entry.clone()),
            None => MenuAction::Nothing,
        };
    }
    if id == IDM_CLEAR {
        history.clear();
        MenuAction::Cleared
    } else if id == IDM_QUIT {
        MenuAction::Quit
    } else {
        MenuAction::Nothing
    }
}

/// Whether a command reads or changes the history.
pub open spec fn concerns_history(id: u16) -> bool {
    IDM_HISTORY_BASE <= id < IDM_HISTORY_BASE + MAX_HISTORY || id == IDM_CLEAR
}

/// Tells whether a command reads or changes the history.
pub fn uses_history(id: u16) -> (uses: bool)
    ensures
        uses == concerns_history(id),
{
    (id >= IDM_HISTORY_BASE && id < IDM_HISTORY_BASE + MAX_HISTORY as u16) || id == IDM_CLEAR
}

/// A command that does not concern the history asks for the same whatever was
/// read so far, and keeps it.
pub proof fn law_other_commands(a: Seq<Seq<char>>, b: Seq<Seq<char>>, id: u16)
    requires
        !concerns_history(id),
    ensures
        choice_of(a, id) == choice_of(b, id),
        history_after(a, id) == a,
{
}

/// Choosing the line of an entry copies that very entry, however its label was
/// cut, and keeps the history.
pub proof fn law_entry_line_copies_its_entry(history: Seq<Seq<char>>, index: int)
    requires
        0 <= index < offered(history),
    ensures
        menu_lines(history)[index] == text_line(
            (IDM_HISTORY_BASE + index) as nat,
            true,
            label_text(recent(history, index)->0),
        ),
        choice_of(history, (IDM_HISTORY_BASE + index) as u16) == MenuChoice::Copy(
            recent(history, index)->0,
        ),
        history_after(history, (IDM_HISTORY_BASE + index) as u16) == history,
{
}

/// The enabled lines are exactly those whose command does something, and no
/// two lines have the same command.
pub proof fn law_menu_commands(history: Seq<Seq<char>>, i: int)
    requires
        0 <= i < menu_lines(history).len(),
        menu_lines(history)[i] is Line,
    ensures
        menu_lines(history)[i]->enabled <==> choice_of(history, menu_lines(history)[i]->id as u16)
            != MenuChoice::Nothing,
        menu_lines(history)[i]->id <= u16::MAX,
        forall|j: int|
            0 <= j < menu_lines(history).len() && j != i && (#[trigger] menu_lines(history)[j] is Line)
                ==> menu_lines(history)[j]->id != menu_lines(history)[i]->id,
{
}

/// Clearing leaves a menu with nothing to copy or clear: one disabled line and
/// the line to quit.
pub proof fn law_cleared_menu(history: Seq<Seq<char>>, id: u16)
    ensures
        history_after(history, IDM_CLEAR) == Seq::<Seq<char>>::empty(),
        menu_lines(history_after(history, IDM_CLEAR)) == seq![
            text_line(0, false, "(no history)"@),
            MenuLine::Separator,
            text_line(IDM_QUIT as nat, true, "Quit"@),
        ],
        !(choice_of(history_after(history, IDM_CLEAR), id) is Copy),
{
    assert(menu_lines(history_after(history, IDM_CLEAR)) =~= seq![
        text_line(0, false, "(no history)"@),
        MenuLine::Separator,
        text_line(IDM_QUIT as nat, true, "Quit"@),
    ]);
}

/// Every entry is offered until there are more than the menu has room for; then
/// the newest are, and an entry that is no longer offered cannot be chosen.
pub proof fn law_only_newest_are_offered(history: Seq<Seq<char>>, id: u16)
    ensures
        choice_of(history, id) is Copy <==> IDM_HISTORY_BASE <= id < IDM_HISTORY_BASE + offered(history),
        offered(history) <= MAX_HISTORY,
        history.len() <= MAX_HISTORY ==> offered(history) == history.len(),
{
}

/// Encoding goes character by character.
proof fn lemma_encode_concat(a: Seq<char>, b: Seq<char>)
    ensures
        encode_utf8(a + b) == encode_utf8(a) + encode_utf8(b),
    decreases a.len(),
{
    if a.len() == 0 {
        assert(a + b =~= b);
        assert(encode_utf8(a) + encode_utf8(b) =~= encode_utf8(b));
    } else {
        assert((a + b).drop_first() =~= a.drop_first() + b);
        assert((a + b)[0] == a[0]);
        lemma_encode_concat(a.drop_first(), b);
        let head = vstd::utf8::encode_scalar(a[0] as u32);
        assert(head + (encode_utf8(a.drop_first()) + encode_utf8(b)) =~= (head + encode_utf8(
            a.drop_first(),
        )) + encode_utf8(b));
    }
}

/// An entry of up to 50 bytes is its own label. A longer one is shown by as many
/// characters as make up 50 bytes, and an ellipsis; it has a label where there
/// are so many.
pub proof fn law_label_shows_fifty_bytes(entry: Seq<char>, kept: int)
    requires
        0 <= kept <= entry.len(),
    ensures
        encode_utf8(entry).len() <= 50 ==> has_label(entry) && label_text(entry) == entry,
        encode_utf8(entry).len() > 50 && encode_utf8(entry.take(kept)).len() == 50 ==> has_label(entry)
            && label_text(entry) == entry.take(kept) + "..."@,
        encode_utf8(entry).len() > 50 && has_label(entry) ==> exists|k: int|
            0 <= k <= entry.len() && encode_utf8(#[trigger] entry.take(k)).len() == 50,
{
    let bytes = encode_utf8(entry);
    let head = entry.take(kept);
    let tail = entry.skip(kept);
    if bytes.len() > 50 && encode_utf8(head).len() == 50 {
        assert(entry =~= head + tail);
        lemma_encode_concat(head, tail);
        vstd::utf8::encode_utf8_valid_utf8(entry);
        vstd::utf8::encode_utf8_valid_utf8(tail);
        vstd::utf8::is_char_boundary_start_end_of_seq(encode_utf8(tail));
        vstd::utf8::is_char_boundary_iff_not_is_continuation_byte(encode_utf8(tail), 0);
        vstd::utf8::is_char_boundary_iff_not_is_continuation_byte(bytes, 50);
        assert(bytes[50] == encode_utf8(tail)[0]);
        assert(bytes.take(50) =~= encode_utf8(head));
        vstd::utf8::encode_utf8_decode_utf8(head);
    }
    if bytes.len() > 50 && has_label(entry) {
        law_cut_label_is_prefix(entry);
    }
}

/// The ellipsis of a cut label is three dots.
pub proof fn law_ellipsis(entry: Seq<char>)
    requires
        has_label(entry),
        encode_utf8(entry).len() > 50,
    ensures
        label_text(entry).len() >= 3,
        label_text(entry)[label_text(entry).len() - 1] == '.',
        label_text(entry)[label_text(entry).len() - 2] == '.',
        label_text(entry)[label_text(entry).len() - 3] == '.',
{
    reveal_strlit("...");
}

/// The menu can be shown exactly where each of the 20 newest entries has a
/// label.
pub proof fn law_menu_needs_labels(history: Seq<Seq<char>>)
    ensures
        has_labels(history) <==> forall|i: int|
            0 <= i < history.len() && i >= history.len() - 20 ==> has_label(#[trigger] history[i]),
{
    let last = history.len() - 1;
    if has_labels(history) {
        assert forall|i: int| 0 <= i < history.len() && i >= history.len() - 20 implies has_label(
            #[trigger] history[i],
        ) by {
            assert(recent(history, last - i)->0 == history[i]);
        }
    }
    if forall|i: int|
        0 <= i < history.len() && i >= history.len() - 20 ==> has_label(#[trigger] history[i]) {
        assert forall|i: int| 0 <= i < offered(history) implies has_label(
            #[trigger] recent(history, i)->0,
        ) by {
            assert(recent(history, i)->0 == history[last - i]);
        }
    }
}

/// The menu lists up to 20 entries from the newest on, with the commands from
/// 2000 on; below them, set off by a line, the command to clear them; and below
/// that, set off again, the command to quit. Without entries, one line that
/// cannot be chosen says so, and there is nothing to clear.
pub proof fn law_menu_layout(history: Seq<Seq<char>>, i: int)
    ensures
        ({
            let all = menu_lines(history);
            let count = if history.len() < 20 {
                history.len() as int
            } else {
                20
            };
            let end = all.len() as int;
            &&& end == if history.len() == 0 {
                3
            } else {
                count + 4
            }
            &&& all[end - 1] == (MenuLine::Line { id: 1002, enabled: true, label: utf16("Quit"@).push(0) })
            &&& all[end - 2] is Separator
            &&& history.len() == 0 ==> all[0] == (MenuLine::Line {
                id: 0,
                enabled: false,
                label: utf16("(no history)"@).push(0),
            })
            &&& history.len() > 0 ==> all[count] is Separator && all[count + 1] == (MenuLine::Line {
                id: 1001,
                enabled: true,
                label: utf16("Clear History"@).push(0),
            })
            &&& 0 <= i < count ==> all[i] == (MenuLine::Line {
                id: (2000 + i) as nat,
                enabled: true,
                label: utf16(label_text(history[history.len() - 1 - i])).push(0),
            })
        }),
{
}

/// Which command does what, whatever was read so far: 1001 clears, 1002 quits,
/// and the 20 from 2000 on copy the entry of that number, counted from the
/// newest, where there is one. Nothing else is asked for, and only clearing
/// changes the history.
pub proof fn law_commands(history: Seq<Seq<char>>, id: u16)
    ensures
        choice_of(history, id) is Cleared <==> id == 1001,
        choice_of(history, id) is Quit <==> id == 1002,
        choice_of(history, id) is Copy <==> 2000 <= id < 2020 && id - 2000 < history.len(),
        choice_of(history, id) matches MenuChoice::Copy(text) ==> text == history[history.len() - 1 - (id
            - 2000)],
        id == 1001 ==> history_after(history, id).len() == 0,
        id != 1001 ==> history_after(history, id) == history,
        concerns_history(id) <==> id == 1001 || 2000 <= id < 2020,
{
}

/// An action and a line of the menu are seen as what they hold.
pub proof fn law_menu_views(text: String, id: usize, enabled: bool, label: Vec<u16>, items: Seq<MenuItem>, i: int)
    ensures
        MenuAction::Nothing@ == MenuChoice::Nothing,
        MenuAction::Copy(text)@ == MenuChoice::Copy(text@),
        MenuAction::Cleared@ == MenuChoice::Cleared,
        MenuAction::Quit@ == MenuChoice::Quit,
        MenuItem::Separator@ == MenuLine::Separator,
        (MenuItem::Line { id, enabled, label })@ == (MenuLine::Line { id: id as nat, enabled, label: label@ }),
        lines(items).len() == items.len(),
        0 <= i < items.len() ==> lines(items)[i] == items[i]@,
{
}

}
