use rftp::file::{LocalFileEntry, RemoteFileEntry, SelectedFileEntry};
use rftp::rftp::{
    enter_decision, interpret_key, quit_decision, transfer_decision, EnterAction, KeyInput,
    QuitOutcome, TransferDispatch, UiCommand,
};
use rftp::user_message::{MessageStyle, UserMessage};

#[test]
fn test_key_bindings() {
    assert_eq!(interpret_key(KeyInput::Char('Q')), UiCommand::ForceQuit);
    assert_eq!(interpret_key(KeyInput::Char('q')), UiCommand::Quit);
    assert_eq!(interpret_key(KeyInput::Char(' ')), UiCommand::TransferSelected);
    assert_eq!(interpret_key(KeyInput::Char('j')), UiCommand::CursorNext);
    assert_eq!(interpret_key(KeyInput::Down), UiCommand::CursorNext);
    assert_eq!(interpret_key(KeyInput::Char('k')), UiCommand::CursorPrev);
    assert_eq!(interpret_key(KeyInput::Up), UiCommand::CursorPrev);
    assert_eq!(interpret_key(KeyInput::Char('h')), UiCommand::TogglePane);
    assert_eq!(interpret_key(KeyInput::Char('l')), UiCommand::TogglePane);
    assert_eq!(interpret_key(KeyInput::Left), UiCommand::TogglePane);
    assert_eq!(interpret_key(KeyInput::Right), UiCommand::TogglePane);
    assert_eq!(interpret_key(KeyInput::Char('z')), UiCommand::ToggleHidden);
    assert_eq!(interpret_key(KeyInput::Char('?')), UiCommand::ShowHelp);
    assert_eq!(interpret_key(KeyInput::Enter), UiCommand::EnterSelected);
    assert_eq!(interpret_key(KeyInput::Char('x')), UiCommand::Ignore);
}

#[test]
fn test_quit_decision() {
    assert_eq!(quit_decision(false), QuitOutcome::Quit);
    assert_eq!(quit_decision(true), QuitOutcome::WarnTransfersInProgress);
}

#[test]
fn test_enter_decision() {
    let d = SelectedFileEntry::Local(LocalFileEntry::Directory("/d/sub".to_string()));
    assert!(matches!(enter_decision(d), EnterAction::EnterLocalDirectory(p) if p == "/d/sub"));
    let p = SelectedFileEntry::Remote(RemoteFileEntry::Parent("home".to_string()));
    assert!(matches!(enter_decision(p), EnterAction::EnterRemoteDirectory(q) if q == "home"));
    let f = SelectedFileEntry::Local(LocalFileEntry::File("/d/f".to_string(), 1));
    assert!(matches!(enter_decision(f), EnterAction::NotADirectory(q) if q == "/d/f"));
    assert!(matches!(
        enter_decision(SelectedFileEntry::Nothing),
        EnterAction::NothingSelected
    ));
}

#[test]
fn test_transfer_decision() {
    let sel = SelectedFileEntry::Local(LocalFileEntry::File("/d/f".to_string(), 1));
    match transfer_decision(sel, "/d", "home") {
        TransferDispatch::UploadSelected(src, dest) => {
            assert!(matches!(src, LocalFileEntry::File(p, 1) if p == "/d/f"));
            assert_eq!(dest, "home".to_string());
        }
        _ => panic!("expected an upload"),
    }
    let sel = SelectedFileEntry::Remote(RemoteFileEntry::File("home/g".to_string(), 2));
    match transfer_decision(sel, "/d", "home") {
        TransferDispatch::DownloadSelected(src, dest) => {
            assert!(matches!(src, RemoteFileEntry::File(p, 2) if p == "home/g"));
            assert_eq!(dest, "/d".to_string());
        }
        _ => panic!("expected a download"),
    }
    assert!(matches!(
        transfer_decision(SelectedFileEntry::Nothing, "/d", "home"),
        TransferDispatch::NoFileSelected
    ));
}

#[test]
fn test_message_queue_cap() {
    let mut q = UserMessage::new();
    q.report(0, "This message will not be shown.");
    q.report(1, "This is one message.");
    q.report(2, "And here is a second.");
    q.report(3, "This one is far too large to fit on one single line.");
    q.report(4, "Another short message.");
    // The queue caps out: the oldest message has fallen out.
    assert_eq!(q.num_messages(), 4);
    assert_eq!(q.message_at(0).text, "This is one message.".to_string());
    assert_eq!(q.message_at(3).text, "Another short message.".to_string());
}

#[test]
fn test_message_styles() {
    let mut q = UserMessage::new();
    q.report(0, "plain");
    q.warn(1, "careful");
    q.error(2, "broken");
    assert_eq!(q.num_messages(), 3);
    assert_eq!(q.message_at(0).style, MessageStyle::Info);
    assert_eq!(q.message_at(1).style, MessageStyle::Warning);
    assert_eq!(q.message_at(2).style, MessageStyle::Error);
    assert_eq!(q.message_at(1).posted_at, 1);
}

#[test]
fn test_message_pruning() {
    let mut q = UserMessage::new();
    q.report(0, "old");
    q.report(6000, "newer");
    // Eleven seconds in, the first message is past the ten-second
    // retention window and the second is not.
    q.prune(11_000);
    assert_eq!(q.num_messages(), 1);
    assert_eq!(q.message_at(0).text, "newer".to_string());
    // Pruning at the same instant again changes nothing.
    q.prune(11_000);
    assert_eq!(q.num_messages(), 1);
}
