use sendme::client::{get_tab_switch, should_quit, App, KeyCode, KeyPress};
use sendme::progress::{DownloadProgress, ProgressEvent};
use sendme::tui::{SendTabState, Tab, Transfer, TransferStatus, TransferType, TransfersTabState};

fn key(code: KeyCode) -> KeyPress {
    KeyPress { code, control_only: false }
}

fn transfer(id: &str, ticket: Option<&str>) -> Transfer {
    let mut t = Transfer::new(TransferType::Send, format!("/tmp/{id}"), id.to_string(), 0);
    t.ticket = ticket.map(|s| s.to_string());
    t
}

#[test]
fn keys_switch_tabs_and_quit() {
    assert_eq!(get_tab_switch(&key(KeyCode::Char('3'))), Some(2));
    assert_eq!(get_tab_switch(&key(KeyCode::Char('5'))), None);
    assert!(should_quit(&key(KeyCode::Char('q'))));
    assert!(should_quit(&KeyPress { code: KeyCode::Char('c'), control_only: true }));
    assert!(!should_quit(&key(KeyCode::Char('c'))));
    let mut app = App::new();
    app.handle_key(key(KeyCode::Char('2')));
    assert_eq!(app.current_tab, Tab::Receive);
    app.handle_key(key(KeyCode::Char('q')));
    assert!(!app.running);
}

#[test]
fn send_tab_edits_path_and_announces() {
    let mut app = App::new();
    for c in "ab".chars() {
        app.handle_key(key(KeyCode::Char(c)));
    }
    app.handle_key(key(KeyCode::Char('x')));
    app.handle_key(key(KeyCode::Backspace));
    assert_eq!(app.send_input_path, "ab");
    app.handle_key(key(KeyCode::Enter));
    assert_eq!(app.send_message, "Sending: ab");
    app.set_send_success("blobticket".to_string(), "ab".to_string());
    assert_eq!(app.send_tab_state, SendTabState::Success);
    assert_eq!(app.send_input_path, "");
    assert_eq!(app.handle_key(key(KeyCode::Char('C'))), Some("blobticket".to_string()));
    app.set_clipboard_result(None);
    assert_eq!(app.clipboard_message(), "Ticket copied to clipboard!");
    assert!(app.has_clipboard_message());
    app.handle_key(key(KeyCode::Esc));
    assert_eq!(app.send_tab_state, SendTabState::Input);
    assert!(app.send_success_ticket.is_none());
    app.set_clipboard_result(Some("no terminal".to_string()));
    assert_eq!(app.send_message, "Copy failed: no terminal");
    assert!(app.has_clipboard_message());
}

#[test]
fn receive_and_nearby_tabs() {
    let mut app = App::new();
    app.handle_key(key(KeyCode::Char('2')));
    app.handle_key(key(KeyCode::Enter));
    assert_eq!(app.receive_message, "");
    app.handle_key(key(KeyCode::Char('b')));
    app.handle_key(key(KeyCode::Enter));
    assert_eq!(app.receive_input_ticket, "b");
    assert_eq!(app.receive_message, "Receiving from ticket...");
    assert!(!app.has_clipboard_message());
    app.handle_key(key(KeyCode::Char('4')));
    app.handle_key(key(KeyCode::Char('s')));
    assert!(app.nearby_enabled);
    app.handle_key(key(KeyCode::Char('s')));
    assert!(!app.nearby_enabled);
}

#[test]
fn transfers_tab_navigates_opens_and_deletes() {
    let mut app = App::new();
    app.add_transfer(transfer("t1", Some("ticket-1")));
    app.add_transfer(transfer("t2", None));
    app.add_transfer(transfer("t3", Some("ticket-3")));
    app.handle_key(key(KeyCode::Char('3')));
    app.handle_key(key(KeyCode::Up));
    assert_eq!(app.selected_transfer_index, Some(2));
    app.handle_key(key(KeyCode::Down));
    assert_eq!(app.selected_transfer_index, Some(0));
    app.handle_key(key(KeyCode::Down));
    assert_eq!(app.selected_transfer_index, Some(1));
    app.handle_key(key(KeyCode::Enter));
    assert!(matches!(app.transfers_tab_state, TransfersTabState::List));
    app.handle_key(key(KeyCode::Up));
    app.handle_key(key(KeyCode::Enter));
    assert!(matches!(&app.transfers_tab_state, TransfersTabState::Detail { transfer_id } if transfer_id == "t1"));
    assert_eq!(app.get_selected_transfer_ticket(), Some("ticket-1"));
    assert_eq!(app.handle_key(key(KeyCode::Char('c'))), Some("ticket-1".to_string()));
    app.handle_key(key(KeyCode::Esc));
    assert!(matches!(app.transfers_tab_state, TransfersTabState::List));
    app.handle_key(key(KeyCode::Up));
    app.handle_key(key(KeyCode::Up));
    assert_eq!(app.selected_transfer_index, Some(1));
    app.handle_key(key(KeyCode::Char('d')));
    assert_eq!(app.transfers.len(), 2);
    assert_eq!(app.transfers[1].id, "t3");
    assert_eq!(app.selected_transfer_index, Some(1));
    app.handle_key(key(KeyCode::Char('d')));
    assert_eq!(app.selected_transfer_index, Some(0));
    app.handle_key(key(KeyCode::Char('d')));
    assert!(app.transfers.is_empty());
    assert_eq!(app.selected_transfer_index, None);
}

#[test]
fn progress_reaches_the_named_transfer_and_cleanup_drops_finished() {
    let mut app = App::new();
    app.add_transfer(transfer("a", None));
    app.add_transfer(transfer("b", None));
    app.update_progress(&ProgressEvent::Download(DownloadProgress::Completed), "b");
    assert!(matches!(app.get_transfer_by_id("b").unwrap().status, TransferStatus::Completed));
    assert!(matches!(app.get_transfer_by_id("a").unwrap().status, TransferStatus::Initializing));
    assert!(app.get_transfer_by_id("zzz").is_none());
    app.cleanup_finished_transfers();
    assert_eq!(app.transfers.len(), 1);
    assert_eq!(app.transfers[0].id, "a");
}
