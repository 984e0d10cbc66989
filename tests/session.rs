use sendme::progress::DownloadProgress;
use sendme::session::{receive_step, ReceiveEvent, ReceivePhase};

#[test]
fn full_receive_walks_every_phase() {
    let (p, e) = receive_step(ReceivePhase::Init, ReceiveEvent::LocalChecked { complete: false });
    assert_eq!(p, ReceivePhase::Connecting);
    assert!(matches!(e, Some(DownloadProgress::Connecting)));
    let (p, e) = receive_step(p, ReceiveEvent::Connected);
    assert_eq!(p, ReceivePhase::GettingSizes);
    assert!(matches!(e, Some(DownloadProgress::GettingSizes)));
    let (p, e) = receive_step(p, ReceiveEvent::SizesKnown { total: 2 });
    assert_eq!(p, ReceivePhase::Downloading);
    assert!(matches!(e, Some(DownloadProgress::Downloading { offset: 0, total: 2 })));
    let (p, e) = receive_step(p, ReceiveEvent::StreamDone);
    assert_eq!(p, ReceivePhase::Exporting);
    assert!(e.is_none());
    let (p, e) = receive_step(p, ReceiveEvent::ExportDone);
    assert_eq!(p, ReceivePhase::Completed);
    assert!(matches!(e, Some(DownloadProgress::Completed)));
}

#[test]
fn cached_content_skips_the_network() {
    let (p, e) = receive_step(ReceivePhase::Init, ReceiveEvent::LocalChecked { complete: true });
    assert_eq!(p, ReceivePhase::Exporting);
    assert!(e.is_none());
}

#[test]
fn abort_and_failure_end_the_session() {
    let (p, _) = receive_step(ReceivePhase::Downloading, ReceiveEvent::Abort);
    assert_eq!(p, ReceivePhase::Cancelled);
    let (p2, e2) = receive_step(p, ReceiveEvent::StreamDone);
    assert_eq!(p2, ReceivePhase::Cancelled);
    assert!(e2.is_none());
    let (f, _) = receive_step(ReceivePhase::GettingSizes, ReceiveEvent::Failure);
    assert_eq!(f, ReceivePhase::Failed);
    let (c, e) = receive_step(ReceivePhase::Completed, ReceiveEvent::Abort);
    assert_eq!(c, ReceivePhase::Completed);
    assert!(e.is_none());
}

#[test]
fn out_of_order_events_change_nothing() {
    let (p, e) = receive_step(ReceivePhase::Connecting, ReceiveEvent::ExportDone);
    assert_eq!(p, ReceivePhase::Connecting);
    assert!(e.is_none());
}
