use sendme::progress::ConnectionStatus;
use sendme::provider::{request_event, ProviderTracker, RequestUpdate};

#[test]
fn connections_open_and_close_once() {
    let mut t = ProviderTracker::new();
    match t.client_connected(1, None) {
        ConnectionStatus::ClientConnected { endpoint_id, connection_id } => {
            assert_eq!(endpoint_id, "?");
            assert_eq!(connection_id, 1);
        }
        _ => panic!("expected a connection event"),
    }
    match t.client_connected(2, Some("abcde".to_string())) {
        ConnectionStatus::ClientConnected { endpoint_id, .. } => assert_eq!(endpoint_id, "abcde"),
        _ => panic!("expected a connection event"),
    }
    assert!(matches!(t.connection_closed(1), Some(ConnectionStatus::ConnectionClosed { connection_id: 1 })));
    assert!(t.connection_closed(1).is_none());
    assert!(t.connection_closed(7).is_none());
    assert_eq!(t.connections.keys().copied().collect::<Vec<u64>>(), vec![2]);
    assert_eq!(t.connections.get(&2).map(|s| s.as_str()), Some("abcde"));
}

#[test]
fn request_updates_become_events() {
    let (e, done) = request_event(1, 2, RequestUpdate::Started { hash: [5; 32], size: 10 });
    assert!(matches!(e, Some(ConnectionStatus::RequestStarted { connection_id: 1, request_id: 2, size: 10, .. })));
    assert!(!done);
    let (e, done) = request_event(1, 2, RequestUpdate::Progress { end_offset: 8 });
    assert!(matches!(e, Some(ConnectionStatus::RequestProgress { offset: 8, .. })));
    assert!(!done);
    let (e, done) = request_event(1, 2, RequestUpdate::Completed);
    assert!(matches!(e, Some(ConnectionStatus::RequestCompleted { connection_id: 1, request_id: 2 })));
    assert!(done);
    let (e, done) = request_event(1, 2, RequestUpdate::Aborted);
    assert!(e.is_none());
    assert!(done);
}
