//! The menu-bar icon: its title and tooltip for each status, its menu, and
//! what its events do.

use vstd::prelude::*;

use crate::model::TranscriptionStatus;

verus! {

/// The marker and the label the menu bar shows for `status`.
pub open spec fn status_label_text(status: TranscriptionStatus) -> (Seq<char>, Seq<char>) {
    match status {
        TranscriptionStatus::Idle => ("○"@, "待機中"@),
        TranscriptionStatus::Recording => ("●"@, "録音中"@),
        TranscriptionStatus::StoppedWithError => ("!"@, "エラー"@),
    }
}

/// The marker and the label the menu bar shows for `status`.
pub fn tray_status_label(status: &TranscriptionStatus) -> (r: (&'static str, &'static str))
    ensures
        (r.0@, r.1@) == status_label_text(*status),
{
    match status {
        TranscriptionStatus::Idle => ("○", "待機中"),
        TranscriptionStatus::Recording => ("●", "録音中"),
        TranscriptionStatus::StoppedWithError => ("!", "エラー"),
    }
}

/// The menu-bar title: marker, space, label.
pub open spec fn title_text(status: TranscriptionStatus) -> Seq<char> {
    status_label_text(status).0 + " "@ + status_label_text(status).1
}

/// The tooltip: `Tategoto: ` and the label.
pub open spec fn tooltip_text(status: TranscriptionStatus) -> Seq<char> {
    "Tategoto: "@ + status_label_text(status).1
}

/// The menu-bar title for `status`.
pub fn tray_title(status: &TranscriptionStatus) -> (r: String)
    ensures
        r@ == title_text(*status),
{
    let (marker, label) = tray_status_label(status);
    String::from_str(marker).concat(" ").concat(label)
}

/// The tooltip for `status`.
pub fn tray_tooltip(status: &TranscriptionStatus) -> (r: String)
    ensures
        r@ == tooltip_text(*status),
{
    let (_, label) = tray_status_label(status);
    String::from_str("Tategoto: ").concat(label)
}

/// The three statuses are told apart by their titles.
pub proof fn lemma_titles_distinct(a: TranscriptionStatus, b: TranscriptionStatus)
    requires
        a != b,
    ensures
        title_text(a) != title_text(b),
{
    reveal_strlit("○");
    reveal_strlit("●");
    reveal_strlit("!");
    assert(title_text(a)[0] != title_text(b)[0]);
}

/// The title and the tooltip name the same status: after the title's marker
/// and space comes the label that follows `Tategoto: ` in the tooltip.
pub proof fn lemma_title_and_tooltip_agree(status: TranscriptionStatus)
    ensures
        title_text(status).len() >= 2,
        tooltip_text(status).len() >= 10,
        title_text(status).subrange(2, title_text(status).len() as int) == tooltip_text(status).subrange(
            10,
            tooltip_text(status).len() as int,
        ),
{
    reveal_strlit("○");
    reveal_strlit("●");
    reveal_strlit("!");
    reveal_strlit(" ");
    reveal_strlit("Tategoto: ");
    let (m, l) = status_label_text(status);
    assert(title_text(status).subrange(2, title_text(status).len() as int) =~= l);
    assert(tooltip_text(status).subrange(10, tooltip_text(status).len() as int) =~= l);
}

/// The menu-bar titles of the three statuses.
pub proof fn lemma_titles_by_status(status: TranscriptionStatus)
    ensures
        status == TranscriptionStatus::Idle ==> title_text(status) == "○ 待機中"@,
        status == TranscriptionStatus::Recording ==> title_text(status) == "● 録音中"@,
        status == TranscriptionStatus::StoppedWithError ==> title_text(status) == "! エラー"@,
{
    reveal_strlit("○");
    reveal_strlit("●");
    reveal_strlit("!");
    reveal_strlit(" ");
    reveal_strlit("待機中");
    reveal_strlit("録音中");
    reveal_strlit("エラー");
    reveal_strlit("○ 待機中");
    reveal_strlit("● 録音中");
    reveal_strlit("! エラー");
    assert(title_text(status) =~= status_label_text(status).0 + " "@ + status_label_text(status).1);
}

/// What a menu entry does.
#[derive(Debug, Clone, Copy, PartialEq, Eq, Structural)]
pub enum TrayAction {
    ShowWindow,
    StartRecording,
    StopRecording,
    Quit,
}

/// The action of the menu entry with id `id`.
pub open spec fn menu_action_of(id: Seq<char>) -> Option<TrayAction> {
    if id == "show"@ {
        Some(TrayAction::ShowWindow)
    } else if id == "start"@ {
        Some(TrayAction::StartRecording)
    } else if id == "stop"@ {
        Some(TrayAction::StopRecording)
    } else if id == "quit"@ {
        Some(TrayAction::Quit)
    } else {
        None
    }
}

/// The action of a menu entry; `None` for an unknown id.
pub fn tray_menu_action(id: &str) -> (r: Option<TrayAction>)
    ensures
        r == menu_action_of(id@),
{
    let id = String::from_str(id);
    if id == String::from_str("show") {
        Some(TrayAction::ShowWindow)
    } else if id == String::from_str("start") {
        Some(TrayAction::StartRecording)
    } else if id == String::from_str("stop") {
        Some(TrayAction::StopRecording)
    } else if id == String::from_str("quit") {
        Some(TrayAction::Quit)
    } else {
        None
    }
}

/// One entry of the menu: its id and its label.
#[derive(Debug)]
pub struct TrayMenuItem {
    pub id: String,
    pub label: String,
}

/// The ids of the menu entries, in menu order.
pub open spec fn menu_ids() -> Seq<Seq<char>> {
    seq!["show"@, "start"@, "stop"@, "quit"@]
}

/// The menu entries: Show, Start, Stop, Quit.
pub fn tray_menu_items() -> (r: Vec<TrayMenuItem>)
    ensures
        r@.len() == 4,
        forall|i: int| 0 <= i < 4 ==> (#[trigger] r@[i]).id@ == menu_ids()[i],
        r@[0].label@ == "Show"@,
        r@[1].label@ == "Start"@,
        r@[2].label@ == "Stop"@,
        r@[3].label@ == "Quit"@,
{
    let mut r: Vec<TrayMenuItem> = Vec::new();
    r.push(TrayMenuItem { id: String::from_str("show"), label: String::from_str("Show") });
    r.push(TrayMenuItem { id: String::from_str("start"), label: String::from_str("Start") });
    r.push(TrayMenuItem { id: String::from_str("stop"), label: String::from_str("Stop") });
    r.push(TrayMenuItem { id: String::from_str("quit"), label: String::from_str("Quit") });
    r
}

/// Every entry of the menu does something, and no two do the same.
pub proof fn lemma_menu_entries_have_actions()
    ensures
        forall|i: int| 0 <= i < 4 ==> menu_action_of(#[trigger] menu_ids()[i]) is Some,
        forall|i: int, j: int|
            0 <= i < 4 && 0 <= j < 4 && i != j ==> menu_action_of(#[trigger] menu_ids()[i]) != menu_action_of(
                #[trigger] menu_ids()[j],
            ),
{
    reveal_strlit("show");
    reveal_strlit("start");
    reveal_strlit("stop");
    reveal_strlit("quit");
    assert("start"@.len() != "show"@.len());
    assert("stop"@[1] != "show"@[1]);
    assert("stop"@.len() != "start"@.len());
    assert("quit"@[0] != "show"@[0]);
    assert("quit"@.len() != "start"@.len());
    assert("quit"@[0] != "stop"@[0]);
    assert(menu_action_of(menu_ids()[0]) == Some(TrayAction::ShowWindow));
    assert(menu_action_of(menu_ids()[1]) == Some(TrayAction::StartRecording));
    assert(menu_action_of(menu_ids()[2]) == Some(TrayAction::StopRecording));
    assert(menu_action_of(menu_ids()[3]) == Some(TrayAction::Quit));
}

/// A mouse button of a tray click.
#[derive(Debug, Clone, Copy, PartialEq, Eq, Structural)]
pub enum PointerButton {
    Left,
    Right,
    Middle,
}

/// Whether the button went down or up.
#[derive(Debug, Clone, Copy, PartialEq, Eq, Structural)]
pub enum PointerButtonState {
    Up,
    Down,
}

/// A click on the tray icon shows the window when the left button is released.
pub fn click_shows_window(button: PointerButton, state: PointerButtonState) -> (r: bool)
    ensures
        r <==> button == PointerButton::Left && state == PointerButtonState::Up,
{
    button == PointerButton::Left && state == PointerButtonState::Up
}

} // verus!
