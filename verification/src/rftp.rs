use vstd::prelude::*;

use crate::file::{FileEntry, SelectedFileEntry};

verus! {

/// One keyboard input, as the control loop sees it.
#[derive(Clone, Copy, PartialEq, Eq, Structural, Debug)]
pub enum KeyInput {
    Char(char),
    Up,
    Down,
    Left,
    Right,
    Enter,
}

/// What the control loop should do with one key.
#[derive(Clone, Copy, PartialEq, Eq, Structural, Debug)]
pub enum UiCommand {
    ForceQuit,
    Quit,
    EnterSelected,
    TransferSelected,
    CursorNext,
    CursorPrev,
    TogglePane,
    ToggleHidden,
    ShowHelp,
    Ignore,
}

/// The key binding: which command each key stands for.
pub open spec fn spec_interpret_key(key: KeyInput) -> UiCommand {
    match key {
        KeyInput::Char(c) => {
            if c == 'Q' {
                UiCommand::ForceQuit
            } else if c == 'q' {
                UiCommand::Quit
            } else if c == ' ' {
                UiCommand::TransferSelected
            } else if c == 'j' {
                UiCommand::CursorNext
            } else if c == 'k' {
                UiCommand::CursorPrev
            } else if c == 'h' || c == 'l' {
                UiCommand::TogglePane
            } else if c == 'z' {
                UiCommand::ToggleHidden
            } else if c == '?' {
                UiCommand::ShowHelp
            } else {
                UiCommand::Ignore
            }
        },
        KeyInput::Up => UiCommand::CursorPrev,
        KeyInput::Down => UiCommand::CursorNext,
        KeyInput::Left => UiCommand::TogglePane,
        KeyInput::Right => UiCommand::TogglePane,
        KeyInput::Enter => UiCommand::EnterSelected,
    }
}

/// Turn one key press into the command it is bound to.
pub fn interpret_key(key: KeyInput) -> (r: UiCommand)
    ensures
        r == spec_interpret_key(key),
{
    match key {
        KeyInput::Char(c) => {
            if c == 'Q' {
                UiCommand::ForceQuit
            } else if c == 'q' {
                UiCommand::Quit
            } else if c == ' ' {
                UiCommand::TransferSelected
            } else if c == 'j' {
                UiCommand::CursorNext
            } else if c == 'k' {
                UiCommand::CursorPrev
            } else if c == 'h' || c == 'l' {
                UiCommand::TogglePane
            } else if c == 'z' {
                UiCommand::ToggleHidden
            } else if c == '?' {
                UiCommand::ShowHelp
            } else {
                UiCommand::Ignore
            }
        },
        KeyInput::Up => UiCommand::CursorPrev,
        KeyInput::Down => UiCommand::CursorNext,
        KeyInput::Left => UiCommand::TogglePane,
        KeyInput::Right => UiCommand::TogglePane,
        KeyInput::Enter => UiCommand::EnterSelected,
    }
}

/// What a plain quit request does.
#[derive(Clone, Copy, PartialEq, Eq, Structural, Debug)]
pub enum QuitOutcome {
    Quit,
    WarnTransfersInProgress,
}

/// Decide a plain quit request: the session ends only when no transfer
/// is still running; otherwise the user is warned and may force-quit.
pub fn quit_decision(transfers_in_progress: bool) -> (r: QuitOutcome)
    ensures
        r == if transfers_in_progress {
            QuitOutcome::WarnTransfersInProgress
        } else {
            QuitOutcome::Quit
        },
{
    if transfers_in_progress {
        QuitOutcome::WarnTransfersInProgress
    } else {
        QuitOutcome::Quit
    }
}

/// What pressing Enter on the current selection does.
pub enum EnterAction {
    EnterLocalDirectory(String),
    EnterRemoteDirectory(String),
    NotADirectory(String),
    NothingSelected,
}

/// Decide what Enter does: a directory (or parent marker) is entered in
/// its own pane; a file or symlink is refused with its path; no
/// selection does nothing.
pub fn enter_decision(sel: SelectedFileEntry) -> (r: EnterAction)
    ensures
        match sel {
            SelectedFileEntry::Local(e) => {
                if e.spec_kind() == crate::file::EntryKind::Directory || e.spec_kind()
                    == crate::file::EntryKind::Parent {
                    r matches EnterAction::EnterLocalDirectory(p) && p@ == e.spec_path()
                } else {
                    r matches EnterAction::NotADirectory(p) && p@ == e.spec_path()
                }
            },
            SelectedFileEntry::Remote(e) => {
                if e.spec_kind() == crate::file::EntryKind::Directory || e.spec_kind()
                    == crate::file::EntryKind::Parent {
                    r matches EnterAction::EnterRemoteDirectory(p) && p@ == e.spec_path()
                } else {
                    r matches EnterAction::NotADirectory(p) && p@ == e.spec_path()
                }
            },
            SelectedFileEntry::Nothing => r matches EnterAction::NothingSelected,
        },
{
    match sel {
        SelectedFileEntry::Local(e) => {
            if e.is_dir() {
                EnterAction::EnterLocalDirectory(e.path().to_owned())
            } else {
                EnterAction::NotADirectory(e.path().to_owned())
            }
        },
        SelectedFileEntry::Remote(e) => {
            if e.is_dir() {
                EnterAction::EnterRemoteDirectory(e.path().to_owned())
            } else {
                EnterAction::NotADirectory(e.path().to_owned())
            }
        },
        SelectedFileEntry::Nothing => EnterAction::NothingSelected,
    }
}

/// What pressing the transfer key on the current selection does.
pub enum TransferDispatch {
    UploadSelected(crate::file::LocalFileEntry, String),
    DownloadSelected(crate::file::RemoteFileEntry, String),
    NoFileSelected,
}

/// Decide what the transfer key does: a local selection is uploaded into
/// the current remote directory, a remote selection is downloaded into
/// the current local directory, and no selection does nothing.
pub fn transfer_decision(sel: SelectedFileEntry, local_dir: &str, remote_dir: &str) -> (r:
    TransferDispatch)
    ensures
        match sel {
            SelectedFileEntry::Local(e) => r matches TransferDispatch::UploadSelected(src, dest)
                && src == e && dest@ == remote_dir@,
            SelectedFileEntry::Remote(e) => r matches TransferDispatch::DownloadSelected(src, dest)
                && src == e && dest@ == local_dir@,
            SelectedFileEntry::Nothing => r matches TransferDispatch::NoFileSelected,
        },
{
    match sel {
        SelectedFileEntry::Local(e) => TransferDispatch::UploadSelected(e, remote_dir.to_owned()),
        SelectedFileEntry::Remote(e) => TransferDispatch::DownloadSelected(e, local_dir.to_owned()),
        SelectedFileEntry::Nothing => TransferDispatch::NoFileSelected,
    }
}

} // verus!
