use sendme::error::ErrorKind;
use sendme::export::{check_targets, export_item_event, plan_export, ExportItem};
use sendme::fmt::{format_bytes, format_time};
use sendme::import::{import_item_event, AddItem};
use sendme::collection::{collect_imports, ImportedFile};
use sendme::progress::{ConnectionStatus, DownloadProgress, ExportProgress, ImportProgress, ProgressEvent};
use sendme::ticket::Format;
use sendme::tui::{Tab, Transfer, TransferStatus, TransferType};
use sendme::workdir::{check_send_setup, parse_secret, recv_dir_name, send_dir_name};

#[test]
fn byte_counts_for_display() {
    assert_eq!(format_bytes(0), "0 B");
    assert_eq!(format_bytes(512), "512 B");
    assert_eq!(format_bytes(1023), "1023 B");
    assert_eq!(format_bytes(1024), "1.0 KB");
    assert_eq!(format_bytes(1536), "1.5 KB");
    assert_eq!(format_bytes(1126), "1.1 KB");
    assert_eq!(format_bytes(3 * 1048576), "3.0 MB");
    assert_eq!(format_bytes(1073741824), "1.0 GB");
    assert_eq!(format_bytes(5 * 1073741824 + 107374182), "5.1 GB");
}

#[test]
fn ages_for_display() {
    assert_eq!(format_time(1_000, 1_030), "30s ago");
    assert_eq!(format_time(1_000, 1_000 + 125), "2m ago");
    assert_eq!(format_time(0, 7_300), "2h ago");
    assert_eq!(format_time(0, 2 * 86_400 + 5), "2d ago");
    assert_eq!(format_time(100, 95), "-5s ago");
}

#[test]
fn working_directory_names() {
    assert_eq!(send_dir_name(&[0xab; 16]), format!(".sendme-send-{}", "ab".repeat(16)));
    let mut h = [0u8; 32];
    h[0] = 0x0f;
    h[31] = 0xf0;
    let expected = format!(".sendme-recv-0f{}f0", "00".repeat(30));
    assert_eq!(recv_dir_name(&h), expected);
}

#[test]
fn send_setup_conflicts() {
    let clean = vec!["photos".to_string(), ".sendme-recv-00".to_string(), ".sendme-sen".to_string()];
    assert!(check_send_setup(true, false, false, &clean).is_ok());
    assert!(check_send_setup(true, true, true, &clean).is_ok());
    assert_eq!(check_send_setup(true, false, true, &clean), Err(ErrorKind::PathConflict));
    let busy = vec!["a".to_string(), ".sendme-send-0123".to_string()];
    assert_eq!(check_send_setup(true, true, false, &busy), Err(ErrorKind::PathConflict));
    assert_eq!(check_send_setup(false, true, false, &busy), Err(ErrorKind::InvalidPath));
    assert_eq!(check_send_setup(false, true, false, &vec![]), Err(ErrorKind::InvalidPath));
}

#[test]
fn secrets_are_lowercase_hex_of_32_bytes() {
    let text = "0123456789abcdef".repeat(4);
    let key = parse_secret(&text).unwrap();
    assert_eq!(key[0], 0x01);
    assert_eq!(key[1], 0x23);
    assert_eq!(key[31], 0xef);
    assert_eq!(parse_secret(&text.to_uppercase()), Err(ErrorKind::InvalidSecret));
    assert_eq!(parse_secret(&text[..62]), Err(ErrorKind::InvalidSecret));
    assert_eq!(parse_secret(""), Err(ErrorKind::InvalidSecret));
}

#[test]
fn export_plan_and_conflicts() {
    let (c, _) = collect_imports(vec![
        ImportedFile { name: "src/a.txt".to_string(), hash: [1; 32], size: 5 },
        ImportedFile { name: "src/sub/b.txt".to_string(), hash: [2; 32], size: 7 },
    ]);
    let root = vec!["/".to_string(), "tmp".to_string(), "dst".to_string()];
    let plan = plan_export(&root, &c).ok().unwrap();
    assert_eq!(plan[0], vec!["/", "tmp", "dst", "src", "a.txt"]);
    assert_eq!(plan[1], vec!["/", "tmp", "dst", "src", "sub", "b.txt"]);
    assert!(check_targets(&vec![false, false]).is_ok());
    assert_eq!(check_targets(&vec![true, false]), Err(ErrorKind::ExportConflict));
    assert!(check_targets(&vec![]).is_ok());
    let (bad, _) = collect_imports(vec![ImportedFile { name: "x/./y".to_string(), hash: [0; 32], size: 0 }]);
    assert_eq!(plan_export(&root, &bad).err(), Some(ErrorKind::InvalidPath));
}

#[test]
fn store_notifications_become_progress() {
    let (e, size) = import_item_event("a".to_string(), AddItem::Size(9));
    assert!(matches!(e, Some(ImportProgress::FileProgress { offset: 0, .. })));
    assert_eq!(size, Some(9));
    let (e, _) = import_item_event("a".to_string(), AddItem::OutboardProgress(4));
    assert!(matches!(e, Some(ImportProgress::FileProgress { offset: 4, .. })));
    let (e, _) = import_item_event("a".to_string(), AddItem::Done);
    assert!(matches!(e, Some(ImportProgress::FileCompleted { .. })));
    assert!(import_item_event("a".to_string(), AddItem::Error).0.is_none());
    assert!(matches!(export_item_event("b".to_string(), ExportItem::CopyProgress(3)), Some(ExportProgress::FileProgress { offset: 3, .. })));
    assert!(matches!(export_item_event("b".to_string(), ExportItem::Done), Some(ExportProgress::FileCompleted { .. })));
    assert!(export_item_event("b".to_string(), ExportItem::Error).is_none());
}

#[test]
fn tabs_round_trip_through_index() {
    for t in Tab::all() {
        assert_eq!(Tab::from_index(t.index()), Some(t));
    }
    assert_eq!(Tab::from_index(4), None);
    assert_eq!(Tab::Transfers.name(), "Transfers");
    assert_eq!(TransferType::Receive.name(), "Receive");
}

#[test]
fn statuses_are_active_or_finished() {
    assert!(TransferStatus::Serving.is_active());
    assert!(!TransferStatus::Serving.is_finished());
    assert!(TransferStatus::Error("x".to_string()).is_finished());
    assert!(!TransferStatus::Cancelled.is_active());
}

#[test]
fn transfer_follows_progress_events() {
    let mut t = Transfer::new(TransferType::Receive, "/tmp/b".to_string(), "id-1".to_string(), 42);
    assert!(matches!(t.status, TransferStatus::Initializing));
    t.update_progress(&ProgressEvent::Download(DownloadProgress::Connecting));
    assert!(matches!(t.status, TransferStatus::Connecting));
    t.update_progress(&ProgressEvent::Download(DownloadProgress::Metadata { total_size: 2, file_count: 1, names: vec!["hello.txt".to_string()] }));
    assert!(matches!(t.status, TransferStatus::Downloading));
    assert_eq!(t.total_files, 1);
    t.update_progress(&ProgressEvent::Download(DownloadProgress::Downloading { offset: 50, total: 200 }));
    assert_eq!(t.progress, 25);
    assert_eq!(t.transferred_bytes, 50);
    t.update_progress(&ProgressEvent::Download(DownloadProgress::Downloading { offset: 29, total: 100 }));
    assert_eq!(t.progress, 29);
    t.update_progress(&ProgressEvent::Export("".to_string(), ExportProgress::Started { total_files: 1 }));
    assert!(matches!(t.status, TransferStatus::Exporting));
    t.update_progress(&ProgressEvent::Export("hello.txt".to_string(), ExportProgress::FileCompleted { name: "hello.txt".to_string() }));
    assert_eq!(t.transferred_files, 1);
    t.update_progress(&ProgressEvent::Download(DownloadProgress::Completed));
    assert!(matches!(t.status, TransferStatus::Completed));
    assert_eq!(t.progress, 100);
    assert_eq!(t.created_at, 42);
}

#[test]
fn format_names_parse_in_any_case() {
    assert_eq!(Format::from_text("hex"), Ok(Format::Hex));
    assert_eq!(Format::from_text("CiD"), Ok(Format::Cid));
    assert_eq!(Format::from_text("hexx"), Err(ErrorKind::InvalidFormat));
    assert_eq!(Format::from_text(""), Err(ErrorKind::InvalidFormat));
    assert_eq!(Format::Cid.name(), "cid");
    assert_eq!(Format::default(), Format::Hex);
}

#[test]
fn only_terminal_events_must_be_delivered() {
    assert!(ProgressEvent::Download(DownloadProgress::Completed).must_deliver());
    assert!(!ProgressEvent::Download(DownloadProgress::Downloading { offset: 1, total: 2 }).must_deliver());
    assert!(ProgressEvent::Export("a".to_string(), ExportProgress::FileCompleted { name: "a".to_string() }).must_deliver());
    assert!(!ProgressEvent::Import("a".to_string(), ImportProgress::FileProgress { name: "a".to_string(), offset: 3 }).must_deliver());
    assert!(ProgressEvent::Connection(ConnectionStatus::ConnectionClosed { connection_id: 4 }).must_deliver());
    assert!(!ProgressEvent::Connection(ConnectionStatus::RequestProgress { connection_id: 4, request_id: 1, offset: 9 }).must_deliver());
}

#[test]
fn empty_collection_exports_nothing() {
    let (c, total) = collect_imports(vec![]);
    assert_eq!(total, 0);
    let plan = plan_export(&vec!["/".to_string(), "tmp".to_string()], &c).ok().unwrap();
    assert!(plan.is_empty());
    assert!(check_targets(&vec![]).is_ok());
}
