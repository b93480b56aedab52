use vstd::prelude::*;

verus! {

/// The key of a key event, as far as the key bindings tell keys apart.
#[derive(Clone, Copy, PartialEq, Eq, Structural, Debug)]
pub enum KeyCode {
    Char(char),
    Esc,
    Up,
    Down,
    Left,
    Right,
    PageUp,
    PageDown,
    Home,
    End,
    Enter,
    Backspace,
    Tab,
    /// Any other key.
    Other,
}

/// Whether a key event is a press, a repeat or a release.
#[derive(Clone, Copy, PartialEq, Eq, Structural, Debug)]
pub enum KeyEventKind {
    Press,
    Repeat,
    Release,
}

/// A key event: the key, whether Control was held, and the event's kind.
#[derive(Clone, Copy, PartialEq, Eq, Structural, Debug)]
pub struct KeyEvent {
    pub code: KeyCode,
    pub ctrl: bool,
    pub kind: KeyEventKind,
}

/// What a mouse event did, as far as the application tells events apart.
#[derive(Clone, Copy, PartialEq, Eq, Structural, Debug)]
pub enum MouseEventKind {
    ScrollDown,
    ScrollUp,
    /// The left button pressed.
    LeftClick,
    /// Any other mouse event (other buttons, releases, drags, moves, horizontal scrolling).
    Other,
}

/// A mouse event, and the cell under the pointer.
#[derive(Clone, Copy, PartialEq, Eq, Structural, Debug)]
pub struct MouseEvent {
    pub kind: MouseEventKind,
    pub column: u16,
    pub row: u16,
}

/// A terminal event.
#[derive(Clone, Copy, PartialEq, Eq, Structural, Debug)]
pub enum Event {
    Key(KeyEvent),
    Mouse(MouseEvent),
    /// Any other event (resize, focus, paste).
    Other,
}

/// Everything a key can ask the application to do.
#[derive(Clone, Copy, PartialEq, Eq, Structural, Debug)]
pub enum Action {
    Quit,
    Up,
    Down,
    ScrollUp,
    ScrollDown,
    ScrollLeft,
    ScrollRight,
    Enter,
    Back,
    Tab,
    StageToggle,
    StageAll,
    UnstageAll,
    Commit,
    CommitLog,
    Refresh,
    BranchSwitch,
    Filter,
    Help,
    Mouse(MouseEvent),
}

/// The action bound to a key: Ctrl+C quits whatever else is held, then each key or
/// character has its binding, and unbound keys do nothing.
pub open spec fn key_action(key: KeyEvent) -> Option<Action> {
    if key.ctrl && key.code == KeyCode::Char('c') {
        Some(Action::Quit)
    } else {
        match key.code {
            KeyCode::Char('q') | KeyCode::Esc => Some(Action::Quit),
            KeyCode::Up | KeyCode::Char('k') => Some(Action::Up),
            KeyCode::Down | KeyCode::Char('j') => Some(Action::Down),
            KeyCode::PageUp => Some(Action::ScrollUp),
            KeyCode::PageDown => Some(Action::ScrollDown),
            KeyCode::Enter => Some(Action::Enter),
            KeyCode::Backspace => Some(Action::Back),
            KeyCode::Tab => Some(Action::Tab),
            KeyCode::Char('s') => Some(Action::StageToggle),
            KeyCode::Char('S') => Some(Action::StageAll),
            KeyCode::Char('u') => Some(Action::UnstageAll),
            KeyCode::Char('c') => Some(Action::Commit),
            KeyCode::Char('l') => Some(Action::CommitLog),
            KeyCode::Char('r') => Some(Action::Refresh),
            KeyCode::Char('b') => Some(Action::BranchSwitch),
            KeyCode::Char('/') => Some(Action::Filter),
            KeyCode::Char('?') => Some(Action::Help),
            KeyCode::Left | KeyCode::Char('h') => Some(Action::ScrollLeft),
            KeyCode::Right => Some(Action::ScrollRight),
            KeyCode::Home => Some(Action::Up),
            KeyCode::End => Some(Action::Down),
            _ => None,
        }
    }
}

/// The action bound to a key, if any.
pub fn map_key(key: KeyEvent) -> (action: Option<Action>)
    ensures
        action == key_action(key),
{
    if key.ctrl && key.code == KeyCode::Char('c') {
        return Some(Action::Quit);
    }
    match key.code {
        KeyCode::Char('q') | KeyCode::Esc => Some(Action::Quit),
        KeyCode::Up | KeyCode::Char('k') => Some(Action::Up),
        KeyCode::Down | KeyCode::Char('j') => Some(Action::Down),
        KeyCode::PageUp => Some(Action::ScrollUp),
        KeyCode::PageDown => Some(Action::ScrollDown),
        KeyCode::Enter => Some(Action::Enter),
        KeyCode::Backspace => Some(Action::Back),
        KeyCode::Tab => Some(Action::Tab),
        KeyCode::Char('s') => Some(Action::StageToggle),
        KeyCode::Char('S') => Some(Action::StageAll),
        KeyCode::Char('u') => Some(Action::UnstageAll),
        KeyCode::Char('c') => Some(Action::Commit),
        KeyCode::Char('l') => Some(Action::CommitLog),
        KeyCode::Char('r') => Some(Action::Refresh),
        KeyCode::Char('b') => Some(Action::BranchSwitch),
        KeyCode::Char('/') => Some(Action::Filter),
        KeyCode::Char('?') => Some(Action::Help),
        KeyCode::Left | KeyCode::Char('h') => Some(Action::ScrollLeft),
        KeyCode::Right => Some(Action::ScrollRight),
        KeyCode::Home => Some(Action::Up),
        KeyCode::End => Some(Action::Down),
        _ => None,
    }
}

/// The quit keys: `q`, Esc, and Ctrl+C quit, whatever the event's kind.
pub proof fn quit_keys_quit(kind: KeyEventKind, ctrl: bool)
    ensures
        key_action(KeyEvent { code: KeyCode::Char('q'), ctrl, kind }) == Some(Action::Quit),
        key_action(KeyEvent { code: KeyCode::Esc, ctrl, kind }) == Some(Action::Quit),
        key_action(KeyEvent { code: KeyCode::Char('c'), ctrl: true, kind }) == Some(Action::Quit),
{
}

/// The key table of the help screen: arrows or `j`/`k` move, Tab cycles focus, Enter
/// opens, Backspace goes back, `s` stages or unstages, `S` stages all, `u` unstages all,
/// `c` commits, `l` toggles the log, `b` switches branch, `r` refreshes, `/` filters,
/// `?` toggles help, PageUp/PageDown scroll; with or without Control, whatever the kind.
pub proof fn keys_do_what_the_help_says(kind: KeyEventKind, ctrl: bool)
    ensures
        key_action(KeyEvent { code: KeyCode::Up, ctrl, kind }) == Some(Action::Up),
        key_action(KeyEvent { code: KeyCode::Char('k'), ctrl, kind }) == Some(Action::Up),
        key_action(KeyEvent { code: KeyCode::Down, ctrl, kind }) == Some(Action::Down),
        key_action(KeyEvent { code: KeyCode::Char('j'), ctrl, kind }) == Some(Action::Down),
        key_action(KeyEvent { code: KeyCode::Tab, ctrl, kind }) == Some(Action::Tab),
        key_action(KeyEvent { code: KeyCode::Enter, ctrl, kind }) == Some(Action::Enter),
        key_action(KeyEvent { code: KeyCode::Backspace, ctrl, kind }) == Some(Action::Back),
        key_action(KeyEvent { code: KeyCode::Char('s'), ctrl, kind }) == Some(Action::StageToggle),
        key_action(KeyEvent { code: KeyCode::Char('S'), ctrl, kind }) == Some(Action::StageAll),
        key_action(KeyEvent { code: KeyCode::Char('u'), ctrl, kind }) == Some(Action::UnstageAll),
        key_action(KeyEvent { code: KeyCode::Char('c'), ctrl: false, kind }) == Some(Action::Commit),
        key_action(KeyEvent { code: KeyCode::Char('l'), ctrl, kind }) == Some(Action::CommitLog),
        key_action(KeyEvent { code: KeyCode::Char('b'), ctrl, kind }) == Some(Action::BranchSwitch),
        key_action(KeyEvent { code: KeyCode::Char('r'), ctrl, kind }) == Some(Action::Refresh),
        key_action(KeyEvent { code: KeyCode::Char('/'), ctrl, kind }) == Some(Action::Filter),
        key_action(KeyEvent { code: KeyCode::Char('?'), ctrl, kind }) == Some(Action::Help),
        key_action(KeyEvent { code: KeyCode::PageUp, ctrl, kind }) == Some(Action::ScrollUp),
        key_action(KeyEvent { code: KeyCode::PageDown, ctrl, kind }) == Some(Action::ScrollDown),
{
}

} // verus!
