//! The main window behind the tray icon: what its messages ask for, what it
//! says in balloons, and how a search is reported to it.
use crate::menu::{
    choice_of, label_text, law_entry_line_copies_its_entry, menu_lines, offered, text_line, MenuAction,
    MenuChoice,
};
use crate::messages::{
    IDM_HISTORY_BASE, QR_FOUND, QR_NOT_FOUND, WM_COMMAND, WM_DESTROY, WM_LBUTTONUP, WM_QR_RESULT,
    WM_RBUTTONUP, WM_TRAYICON,
};
use crate::qr::content_view;
use crate::text::{clipped, clipped_field, padded, utf16, whole_field};
use vstd::prelude::*;

verus! {

/// The size of the tip field of a tray icon, in UTF-16 units.
pub const TIP_CAPACITY: usize = 128;

/// The size of the title field of a balloon.
pub const TITLE_CAPACITY: usize = 64;

/// The size of the text field of a balloon.
pub const INFO_CAPACITY: usize = 256;

/// What the user is told in a balloon.
#[derive(Clone, Copy, Debug, PartialEq, Eq, Structural)]
pub enum Notice {
    Found,
    NotFound,
    Copied,
}

/// What a message of the main window asks for.
#[derive(Clone, Copy, Debug, PartialEq, Eq, Structural)]
pub enum TrayAction {
    /// Nothing; the message is handled.
    Nothing,
    /// The window system's default processing.
    DefaultProcessing,
    StartSelection,
    ShowMenu,
    /// Carry out a menu command.
    Command(u16),
    Notify(Notice),
    /// Leave the message loop.
    Quit,
}

/// What a message of the main window asks for. A click on the icon starts a
/// selection only where none is going on.
pub open spec fn tray_action(msg: u32, wp: usize, lp: isize, overlay_active: bool) -> TrayAction {
    if msg == WM_TRAYICON {
        let mouse = lp as int % 0x1_0000_0000;
        if mouse == WM_LBUTTONUP {
            if overlay_active {
                TrayAction::Nothing
            } else {
                TrayAction::StartSelection
            }
        } else if mouse == WM_RBUTTONUP {
            TrayAction::ShowMenu
        } else {
            TrayAction::Nothing
        }
    } else if msg == WM_COMMAND {
        TrayAction::Command((wp % 0x1_0000) as u16)
    } else if msg == WM_QR_RESULT {
        if wp == QR_FOUND {
            TrayAction::Notify(Notice::Found)
        } else if wp == QR_NOT_FOUND {
            TrayAction::Notify(Notice::NotFound)
        } else {
            TrayAction::Nothing
        }
    } else if msg == WM_DESTROY {
        TrayAction::Quit
    } else {
        TrayAction::DefaultProcessing
    }
}

/// Says what a message of the main window asks for.
pub fn wndproc(msg: u32, wp: usize, lp: isize, overlay_active: bool) -> (action: TrayAction)
    ensures
        action == tray_action(msg, wp, lp, overlay_active),
{
    if msg == WM_TRAYICON {
        let mouse: u32 = #[verifier::truncate] (lp as u32);
        proof {
            lemma_low_half(lp);
        }
        if mouse == WM_LBUTTONUP {
            if !overlay_active {
                TrayAction::StartSelection
            } else {
                TrayAction::Nothing
            }
        } else if mouse == WM_RBUTTONUP {
            TrayAction::ShowMenu
        } else {
            TrayAction::Nothing
        }
    } else if msg == WM_COMMAND {
        assert(wp & 0xFFFF == wp % 0x1_0000) by (bit_vector);
        TrayAction::Command((wp & 0xFFFF) as u16)
    } else if msg == WM_QR_RESULT {
        if wp == QR_FOUND {
            TrayAction::Notify(Notice::Found)
        } else if wp == QR_NOT_FOUND {
            TrayAction::Notify(Notice::NotFound)
        } else {
            TrayAction::Nothing
        }
    } else if msg == WM_DESTROY {
        TrayAction::Quit
    } else {
        TrayAction::DefaultProcessing
    }
}

proof fn lemma_low_half(value: isize)
    ensures
        value as u32 == value as int % 0x1_0000_0000,
{
    let low: u32 = value as u32;
    assert((value - low) % 0x1_0000_0000 == 0) by (bit_vector)
        requires
            low == value as u32,
    ;
}

/// The title of a notice.
pub open spec fn notice_title(notice: Notice) -> Seq<char> {
    match notice {
        Notice::Found => "QR Code Found"@,
        Notice::NotFound => "No QR Code"@,
        Notice::Copied => "Copied"@,
    }
}

/// The text of a notice.
pub open spec fn notice_text(notice: Notice) -> Seq<char> {
    match notice {
        Notice::Found => "Content copied to clipboard!"@,
        Notice::NotFound => "No QR code detected in selection."@,
        Notice::Copied => "QR content copied to clipboard!"@,
    }
}

/// The fields of a balloon, each with a terminating zero.
#[derive(Debug)]
pub struct BalloonFields {
    pub title: Vec<u16>,
    pub info: Vec<u16>,
}

/// Fills the fields of a balloon; what does not fit is cut off.
pub fn balloon(title: &str, msg: &str) -> (fields: BalloonFields)
    ensures
        fields.title@ == padded(clipped(utf16(title@), TITLE_CAPACITY as nat), TITLE_CAPACITY as nat),
        fields.info@ == padded(clipped(utf16(msg@), INFO_CAPACITY as nat), INFO_CAPACITY as nat),
{
    BalloonFields {
        title: clipped_field(title, TITLE_CAPACITY),
        info: clipped_field(msg, INFO_CAPACITY),
    }
}

/// Fills the fields of the balloon of a notice.
pub fn notice_balloon(notice: Notice) -> (fields: BalloonFields)
    ensures
        fields.title@ == padded(
            clipped(utf16(notice_title(notice)), TITLE_CAPACITY as nat),
            TITLE_CAPACITY as nat,
        ),
        fields.info@ == padded(
            clipped(utf16(notice_text(notice)), INFO_CAPACITY as nat),
            INFO_CAPACITY as nat,
        ),
{
    match notice {
        Notice::Found => balloon("QR Code Found", "Content copied to clipboard!"),
        Notice::NotFound => balloon("No QR Code", "No QR code detected in selection."),
        Notice::Copied => balloon("Copied", "QR content copied to clipboard!"),
    }
}

/// The tip field of the tray icon.
pub fn tip_field() -> (field: Vec<u16>)
    ensures
        field@ == padded(utf16("QR Screen Reader"@), TIP_CAPACITY as nat),
{
    proof {
        reveal_strlit("QR Screen Reader");
        lemma_utf16_len("QR Screen Reader"@);
    }
    whole_field("QR Screen Reader", TIP_CAPACITY)
}

/// A text has at most two units per character.
proof fn lemma_utf16_len(text: Seq<char>)
    ensures
        utf16(text).len() <= 2 * text.len(),
    decreases text.len(),
{
    if text.len() > 0 {
        lemma_utf16_len(text.drop_last());
    }
}

/// What the program does outside its windows, in the order of a list.
#[derive(Debug, PartialEq, Eq)]
pub enum TrayEffect {
    /// Add a text to the history.
    Remember(String),
    /// Put a text on the clipboard.
    SetClipboard(String),
    Notify(Notice),
    /// Post a result code to the main window.
    PostResult(usize),
    /// Remove the tray icon.
    RemoveIcon,
    /// Leave the message loop.
    PostQuit,
}

/// What the program does, with the text as a sequence.
pub enum TrayStep {
    Remember(Seq<char>),
    SetClipboard(Seq<char>),
    Notify(Notice),
    PostResult(usize),
    RemoveIcon,
    PostQuit,
}

impl View for TrayEffect {
    type V = TrayStep;

    open spec fn view(&self) -> TrayStep {
        match *self {
            TrayEffect::Remember(text) => TrayStep::Remember(text@),
            TrayEffect::SetClipboard(text) => TrayStep::SetClipboard(text@),
            TrayEffect::Notify(notice) => TrayStep::Notify(notice),
            TrayEffect::PostResult(code) => TrayStep::PostResult(code),
            TrayEffect::RemoveIcon => TrayStep::RemoveIcon,
            TrayEffect::PostQuit => TrayStep::PostQuit,
        }
    }
}

/// The steps of a list of effects.
pub open spec fn steps(effects: Seq<TrayEffect>) -> Seq<TrayStep> {
    Seq::new(effects.len(), |i: int| effects[i]@)
}

/// How the result of a search is reported to the main window: a text that was
/// found goes to the history and to the clipboard first. Without a main window
/// (handle 0) nothing is reported.
pub open spec fn report_steps(main_window: isize, result: Option<Seq<char>>) -> Seq<TrayStep> {
    if main_window == 0 {
        Seq::empty()
    } else {
        match result {
            Some(content) => seq![
                TrayStep::Remember(content),
                TrayStep::SetClipboard(content),
                TrayStep::PostResult(QR_FOUND),
            ],
            None => seq![TrayStep::PostResult(QR_NOT_FOUND)],
        }
    }
}

/// Reports the result of a search.
pub fn report_result(main_window: isize, result: Option<String>) -> (effects: Vec<TrayEffect>)
    ensures
        steps(effects@) == report_steps(main_window, content_view(result)),
{
    let mut effects: Vec<TrayEffect> = Vec::new();
    if main_window != 0 {
        match result {
            Some(content) => {
                effects.push(TrayEffect::Remember(content.clone()));
                effects.push(TrayEffect::SetClipboard(content));
                effects.push(TrayEffect::PostResult(QR_FOUND));
            },
            None => {
                effects.push(TrayEffect::PostResult(QR_NOT_FOUND));
            },
        }
    }
    assert(steps(effects@) =~= report_steps(main_window, content_view(result)));
    effects
}

/// What is done for a menu command. Before the message loop is left, the icon
/// is removed.
pub open spec fn menu_steps(choice: MenuChoice) -> Seq<TrayStep> {
    match choice {
        MenuChoice::Copy(text) => seq![TrayStep::SetClipboard(text), TrayStep::Notify(Notice::Copied)],
        MenuChoice::Quit => seq![TrayStep::RemoveIcon, TrayStep::PostQuit],
        MenuChoice::Nothing | MenuChoice::Cleared => Seq::empty(),
    }
}

/// Lists what is to be done for a menu command.
pub fn menu_effects(action: MenuAction) -> (effects: Vec<TrayEffect>)
    ensures
        steps(effects@) == menu_steps(action@),
{
    let ghost choice = action@;
    let mut effects: Vec<TrayEffect> = Vec::new();
    match action {
        MenuAction::Nothing => {},
        MenuAction::Cleared => {},
        MenuAction::Copy(text) => {
            effects.push(TrayEffect::SetClipboard(text));
            effects.push(TrayEffect::Notify(Notice::Copied));
        },
        MenuAction::Quit => {
            effects.push(TrayEffect::RemoveIcon);
            effects.push(TrayEffect::PostQuit);
        },
    }
    assert(steps(effects@) =~= menu_steps(choice));
    effects
}

/// What happens around the thread of an overlay.
#[derive(Clone, Copy, Debug, PartialEq, Eq, Structural)]
pub enum LaunchEvent {
    /// A selection was asked for.
    Requested,
    /// The thread has ended, without an error or with one.
    Ended { ok: bool },
}

/// Whether an overlay counts as open after an event.
pub open spec fn active_after(active: bool, event: LaunchEvent) -> bool {
    match event {
        LaunchEvent::Requested => true,
        LaunchEvent::Ended { ok } => active && ok,
    }
}

/// Keeps the note of whether an overlay is open. The result tells whether a
/// thread for an overlay is to be started.
pub fn start_selection(active: &mut bool, event: LaunchEvent) -> (spawn: bool)
    ensures
        *final(active) == active_after(*old(active), event),
        spawn <==> event is Requested,
{
    match event {
        LaunchEvent::Requested => {
            *active = true;
            true
        },
        LaunchEvent::Ended { ok } => {
            if !ok {
                *active = false;
            }
            false
        },
    }
}

/// What the note of an open overlay depends on.
pub enum Activity {
    /// The icon was clicked.
    IconClicked,
    /// The thread of an overlay ended.
    ThreadEnded { ok: bool },
    /// An overlay window was destroyed.
    OverlayDestroyed,
}

/// Whether a click on the icon starts a selection.
pub open spec fn click_starts(active: bool) -> bool {
    tray_action(WM_TRAYICON, 0, WM_LBUTTONUP as isize, active) == TrayAction::StartSelection
}

/// The note of an open overlay after a row of activities, from none open.
pub open spec fn active_in(activities: Seq<Activity>) -> bool
    decreases activities.len(),
{
    if activities.len() == 0 {
        false
    } else {
        let active = active_in(activities.drop_last());
        match activities.last() {
            Activity::IconClicked => if click_starts(active) {
                active_after(active, LaunchEvent::Requested)
            } else {
                active
            },
            Activity::ThreadEnded { ok } => active_after(active, LaunchEvent::Ended { ok }),
            Activity::OverlayDestroyed => false,
        }
    }
}

/// The number of selections that a row of activities started.
pub open spec fn started_in(activities: Seq<Activity>) -> nat
    decreases activities.len(),
{
    if activities.len() == 0 {
        0
    } else {
        started_in(activities.drop_last()) + if activities.last() is IconClicked && click_starts(
            active_in(activities.drop_last()),
        ) {
            1nat
        } else {
            0
        }
    }
}

/// The number of failed threads and destroyed overlays among activities.
pub open spec fn ended_in(activities: Seq<Activity>) -> nat
    decreases activities.len(),
{
    if activities.len() == 0 {
        0
    } else {
        ended_in(activities.drop_last()) + match activities.last() {
            Activity::IconClicked => 0,
            Activity::ThreadEnded { ok } => if ok {
                0nat
            } else {
                1
            },
            Activity::OverlayDestroyed => 1,
        }
    }
}

/// However often the icon is clicked, at most one selection more was started
/// than has failed or been destroyed.
pub proof fn law_one_overlay_at_a_time(activities: Seq<Activity>)
    ensures
        started_in(activities) <= ended_in(activities) + if active_in(activities) {
            1nat
        } else {
            0
        },
    decreases activities.len(),
{
    if activities.len() > 0 {
        law_one_overlay_at_a_time(activities.drop_last());
    }
}

/// Where there is a main window, a report ends with a message that the window
/// answers with the notice that fits the result, whatever else it carries.
pub proof fn law_report_is_announced(
    main_window: isize,
    result: Option<Seq<char>>,
    lp: isize,
    overlay_active: bool,
)
    requires
        main_window != 0,
    ensures
        report_steps(main_window, result).last() matches TrayStep::PostResult(code) && tray_action(
            WM_QR_RESULT,
            code,
            lp,
            overlay_active,
        ) == TrayAction::Notify(
            if result is Some {
                Notice::Found
            } else {
                Notice::NotFound
            },
        ),
{
}

/// The history after a list of steps.
pub open spec fn remembered(history: Seq<Seq<char>>, steps: Seq<TrayStep>) -> Seq<Seq<char>>
    decreases steps.len(),
{
    if steps.len() == 0 {
        history
    } else {
        let before = remembered(history, steps.drop_last());
        match steps.last() {
            TrayStep::Remember(text) => before.push(text),
            _ => before,
        }
    }
}

/// A report adds a text that was found to the history once, and nothing where
/// nothing was found or there is no main window.
pub proof fn law_report_is_remembered(
    history: Seq<Seq<char>>,
    main_window: isize,
    result: Option<Seq<char>>,
)
    ensures
        remembered(history, report_steps(main_window, result)) == if main_window != 0 && result is Some {
            history.push(result->0)
        } else {
            history
        },
{
    reveal_with_fuel(remembered, 4);
    let steps = report_steps(main_window, result);
    if main_window != 0 && result is Some {
        assert(steps.drop_last() =~= seq![steps[0], steps[1]]);
        assert(steps.drop_last().drop_last() =~= seq![steps[0]]);
        assert(steps.drop_last().drop_last().drop_last() =~= Seq::<TrayStep>::empty());
    }
}

/// A text that was just reported is the first line of the menu, and choosing
/// that line puts it on the clipboard again.
pub proof fn law_reported_text_heads_the_menu(
    history: Seq<Seq<char>>,
    main_window: isize,
    content: Seq<char>,
)
    requires
        main_window != 0,
    ensures
        ({
            let after = remembered(history, report_steps(main_window, Some(content)));
            &&& menu_lines(after)[0] == text_line(IDM_HISTORY_BASE as nat, true, label_text(content))
            &&& menu_steps(choice_of(after, IDM_HISTORY_BASE))[0] == TrayStep::SetClipboard(content)
        }),
{
    law_report_is_remembered(history, main_window, Some(content));
    law_entry_line_copies_its_entry(history.push(content), 0);
}

/// Choosing the line of an entry sends a command that comes back as that very
/// entry, whatever is in the rest of the message.
pub proof fn law_chosen_line_is_copied(
    history: Seq<Seq<char>>,
    index: int,
    wp: usize,
    lp: isize,
    overlay_active: bool,
)
    requires
        0 <= index < offered(history),
        menu_lines(history)[index]->id == wp % 0x1_0000,
    ensures
        tray_action(WM_COMMAND, wp, lp, overlay_active) matches TrayAction::Command(id)
            && choice_of(history, id) == MenuChoice::Copy(
            crate::history::recent(history, index)->0,
        ),
{
    law_entry_line_copies_its_entry(history, index);
}

/// No notice is cut: its title and its text fit their fields.
pub proof fn law_notices_fit(notice: Notice)
    ensures
        clipped(utf16(notice_title(notice)), TITLE_CAPACITY as nat) == utf16(notice_title(notice)),
        clipped(utf16(notice_text(notice)), INFO_CAPACITY as nat) == utf16(notice_text(notice)),
{
    reveal_strlit("QR Code Found");
    reveal_strlit("No QR Code");
    reveal_strlit("Copied");
    reveal_strlit("Content copied to clipboard!");
    reveal_strlit("No QR code detected in selection.");
    reveal_strlit("QR content copied to clipboard!");
    lemma_utf16_len(notice_title(notice));
    lemma_utf16_len(notice_text(notice));
}

/// Which message of the main window asks for what: the numbers are those of the
/// window system and of the program, and every other message is left to the
/// system.
pub proof fn law_messages(msg: u32, wp: usize, lp: isize, overlay_active: bool)
    ensures
        ({
            let action = tray_action(msg, wp, lp, overlay_active);
            let mouse = lp as int % 0x1_0000_0000;
            &&& action is StartSelection <==> msg == 0x8001 && mouse == 0x0202 && !overlay_active
            &&& action is ShowMenu <==> msg == 0x8001 && mouse == 0x0205
            &&& action is Command <==> msg == 0x0111
            &&& action matches TrayAction::Command(id) ==> id == wp % 0x1_0000
            &&& action is Notify <==> msg == 0x8002 && (wp == 1 || wp == 2)
            &&& action matches TrayAction::Notify(notice) ==> notice == if wp == 1 {
                Notice::Found
            } else {
                Notice::NotFound
            }
            &&& action is Quit <==> msg == 0x0002
            &&& action is DefaultProcessing <==> msg != 0x8001 && msg != 0x0111 && msg != 0x8002 && msg
                != 0x0002
        }),
{
}

/// The text on the clipboard after a list of steps: that of the last one that
/// sets it, or what it was.
pub open spec fn clipboard_after(before: Seq<char>, steps: Seq<TrayStep>) -> Seq<char>
    decreases steps.len(),
{
    if steps.len() == 0 {
        before
    } else {
        match steps.last() {
            TrayStep::SetClipboard(text) => text,
            _ => clipboard_after(before, steps.drop_last()),
        }
    }
}

/// A report leaves the whole text that was found on the clipboard; without a
/// text or a main window the clipboard stays as it was.
pub proof fn law_report_sets_clipboard(before: Seq<char>, main_window: isize, result: Option<Seq<char>>)
    ensures
        clipboard_after(before, report_steps(main_window, result)) == if main_window != 0 && result is Some {
            result->0
        } else {
            before
        },
{
    reveal_with_fuel(clipboard_after, 4);
    let all = report_steps(main_window, result);
    if all.len() > 0 {
        assert(all.drop_last().len() == all.len() - 1);
    }
}

/// A report posts one code, at its end, and does nothing but remember, copy and
/// post, in this order: with a main window 1 for a text and 2 for none, without
/// one nothing.
pub proof fn law_report_posts_one_code(main_window: isize, result: Option<Seq<char>>, i: int)
    ensures
        ({
            let all = report_steps(main_window, result);
            &&& main_window == 0 <==> all.len() == 0
            &&& main_window != 0 ==> all.last() == TrayStep::PostResult(
                if result is Some {
                    1
                } else {
                    2
                },
            )
            &&& 0 <= i < all.len() - 1 ==> all[i] is Remember || all[i] is SetClipboard
            &&& result is None && main_window != 0 ==> all.len() == 1
            &&& result is Some && main_window != 0 ==> all.len() == 3 && all[0] is Remember
                && all[1] is SetClipboard
        }),
{
}

/// Choosing an entry leaves its whole text on the clipboard and then says so; no
/// other command touches the clipboard, none touches the history in its steps,
/// and but for quitting there are no others.
pub proof fn law_command_sets_clipboard(
    before: Seq<char>,
    earlier: Seq<Seq<char>>,
    history: Seq<Seq<char>>,
    id: u16,
)
    ensures
        ({
            let all = menu_steps(choice_of(history, id));
            let copies = 2000 <= id < 2020 && id - 2000 < history.len();
            &&& clipboard_after(before, all) == if copies {
                history[history.len() - 1 - (id - 2000)]
            } else {
                before
            }
            &&& all.contains(TrayStep::Notify(Notice::Copied)) <==> copies
            &&& copies ==> all[0] is SetClipboard && all[1] is Notify
            &&& all.len() == if copies || id == 1002 {
                2nat
            } else {
                0
            }
            &&& remembered(earlier, all) == earlier
        }),
{
    reveal_with_fuel(clipboard_after, 3);
    reveal_with_fuel(remembered, 3);
    let all = menu_steps(choice_of(history, id));
    if all.len() > 0 {
        assert(all.drop_last().len() == all.len() - 1);
        assert(all.contains(all[1]));
    }
}

/// The program ends by command 1002 and by no other, and takes its icon away
/// before that.
pub proof fn law_only_quit_ends_the_program(history: Seq<Seq<char>>, id: u16)
    ensures
        ({
            let all = menu_steps(choice_of(history, id));
            &&& all.contains(TrayStep::PostQuit) <==> id == 1002
            &&& all.contains(TrayStep::RemoveIcon) <==> id == 1002
            &&& id == 1002 ==> all.len() == 2 && all[0] is RemoveIcon && all[1] is PostQuit
            &&& forall|i: int| 0 <= i < all.len() ==> !(#[trigger] all[i] is PostResult)
        }),
{
    let all = menu_steps(choice_of(history, id));
    if all.len() > 0 {
        assert(all.contains(all[0]) && all.contains(all[1]));
    }
}

/// A request opens an overlay, whatever was noted; a thread that ends well leaves
/// the note to the window, and one that fails takes it back.
pub proof fn law_note_of_open_overlay(active: bool)
    ensures
        active_after(active, LaunchEvent::Requested),
        active_after(active, LaunchEvent::Ended { ok: true }) == active,
        !active_after(active, LaunchEvent::Ended { ok: false }),
{
}

/// What is said about a search and about copying, in full.
pub proof fn law_notices(notice: Notice)
    ensures
        notice is Found ==> notice_title(notice) == "QR Code Found"@ && notice_text(notice)
            == "Content copied to clipboard!"@,
        notice is NotFound ==> notice_title(notice) == "No QR Code"@ && notice_text(notice)
            == "No QR code detected in selection."@,
        notice is Copied ==> notice_title(notice) == "Copied"@ && notice_text(notice)
            == "QR content copied to clipboard!"@,
{
}

/// An effect is seen as what it holds, and a list of effects as one step each.
pub proof fn law_effect_views(text: String, notice: Notice, code: usize, effects: Seq<TrayEffect>, i: int)
    ensures
        TrayEffect::Remember(text)@ == TrayStep::Remember(text@),
        TrayEffect::SetClipboard(text)@ == TrayStep::SetClipboard(text@),
        TrayEffect::Notify(notice)@ == TrayStep::Notify(notice),
        TrayEffect::PostResult(code)@ == TrayStep::PostResult(code),
        TrayEffect::RemoveIcon@ == TrayStep::RemoveIcon,
        TrayEffect::PostQuit@ == TrayStep::PostQuit,
        steps(effects).len() == effects.len(),
        0 <= i < effects.len() ==> steps(effects)[i] == effects[i]@,
{
}

/// The fields of a balloon have 64 and 256 units and the tip 128; a balloon shows
/// as much of a text as leaves room for a zero, and zeros after it.
pub proof fn law_balloon_fields(text: Seq<char>, i: int)
    ensures
        TIP_CAPACITY == 128,
        ({
            let title = padded(clipped(utf16(text), TITLE_CAPACITY as nat), TITLE_CAPACITY as nat);
            let info = padded(clipped(utf16(text), INFO_CAPACITY as nat), INFO_CAPACITY as nat);
            &&& title.len() == 64 && info.len() == 256
            &&& 0 <= i < 63 ==> title[i] == if i < utf16(text).len() {
                utf16(text)[i]
            } else {
                0
            }
            &&& 0 <= i < 255 ==> info[i] == if i < utf16(text).len() {
                utf16(text)[i]
            } else {
                0
            }
            &&& title[63] == 0 && info[255] == 0
        }),
{
}

}
