//! The phases of a receive session and what moves it from one to the next.

use vstd::prelude::*;
use crate::progress::DownloadProgress;

verus! {

/// Where a receive session stands.
#[derive(Clone, Copy, Debug, PartialEq, Eq, Structural)]
pub enum ReceivePhase {
    Init,
    Connecting,
    GettingSizes,
    Downloading,
    Exporting,
    Completed,
    Failed,
    Cancelled,
}

/// What happened next in a receive session.
#[derive(Clone, Copy, Debug, PartialEq, Eq, Structural)]
pub enum ReceiveEvent {
    /// The local store was checked: whether it already holds everything.
    LocalChecked { complete: bool },
    /// A connection to the sender is open.
    Connected,
    /// The sizes of all blobs are known, summing to `total`.
    SizesKnown { total: u64 },
    /// The download stream finished.
    StreamDone,
    /// Every file was exported.
    ExportDone,
    /// A step failed.
    Failure,
    /// The user aborted.
    Abort,
}

/// A finished session: completed, failed or cancelled.
pub open spec fn finished(p: ReceivePhase) -> bool {
    p == ReceivePhase::Completed || p == ReceivePhase::Failed || p == ReceivePhase::Cancelled
}

/// The next phase and the download event to publish, if any. Finished sessions ignore
/// everything; a failure or an abort ends any other session; events that do not fit the
/// current phase change nothing.
pub open spec fn receive_next(p: ReceivePhase, e: ReceiveEvent) -> (ReceivePhase, Option<DownloadProgress>) {
    if finished(p) {
        (p, None)
    } else {
        match e {
            ReceiveEvent::Failure => (ReceivePhase::Failed, None),
            ReceiveEvent::Abort => (ReceivePhase::Cancelled, None),
            ReceiveEvent::LocalChecked { complete } => if p == ReceivePhase::Init {
                if complete {
                    (ReceivePhase::Exporting, None)
                } else {
                    (ReceivePhase::Connecting, Some(DownloadProgress::Connecting))
                }
            } else {
                (p, None)
            },
            ReceiveEvent::Connected => if p == ReceivePhase::Connecting {
                (ReceivePhase::GettingSizes, Some(DownloadProgress::GettingSizes))
            } else {
                (p, None)
            },
            ReceiveEvent::SizesKnown { total } => if p == ReceivePhase::GettingSizes {
                (ReceivePhase::Downloading, Some(DownloadProgress::Downloading { offset: 0, total }))
            } else {
                (p, None)
            },
            ReceiveEvent::StreamDone => if p == ReceivePhase::Downloading {
                (ReceivePhase::Exporting, None)
            } else {
                (p, None)
            },
            ReceiveEvent::ExportDone => if p == ReceivePhase::Exporting {
                (ReceivePhase::Completed, Some(DownloadProgress::Completed))
            } else {
                (p, None)
            },
        }
    }
}

fn is_finished(p: ReceivePhase) -> (r: bool)
    ensures
        r == finished(p),
{
    match p {
        ReceivePhase::Completed | ReceivePhase::Failed | ReceivePhase::Cancelled => true,
        _ => false,
    }
}

/// Moves a receive session along by one event.
pub fn receive_step(p: ReceivePhase, e: ReceiveEvent) -> (r: (ReceivePhase, Option<DownloadProgress>))
    ensures
        r == receive_next(p, e),
{
    if is_finished(p) {
        return (p, None);
    }
    match e {
        ReceiveEvent::Failure => (ReceivePhase::Failed, None),
        ReceiveEvent::Abort => (ReceivePhase::Cancelled, None),
        ReceiveEvent::LocalChecked { complete } => if p == ReceivePhase::Init {
            if complete {
                (ReceivePhase::Exporting, None)
            } else {
                (ReceivePhase::Connecting, Some(DownloadProgress::Connecting))
            }
        } else {
            (p, None)
        },
        ReceiveEvent::Connected => if p == ReceivePhase::Connecting {
            (ReceivePhase::GettingSizes, Some(DownloadProgress::GettingSizes))
        } else {
            (p, None)
        },
        ReceiveEvent::SizesKnown { total } => if p == ReceivePhase::GettingSizes {
            (ReceivePhase::Downloading, Some(DownloadProgress::Downloading { offset: 0, total }))
        } else {
            (p, None)
        },
        ReceiveEvent::StreamDone => if p == ReceivePhase::Downloading {
            (ReceivePhase::Exporting, None)
        } else {
            (p, None)
        },
        ReceiveEvent::ExportDone => if p == ReceivePhase::Exporting {
            (ReceivePhase::Completed, Some(DownloadProgress::Completed))
        } else {
            (p, None)
        },
    }
}

/// Once a session has finished it stays as it is and publishes nothing more, whatever
/// follows: no progress after a failure, and an abort after completion changes nothing.
pub proof fn lemma_finished_sessions_are_inert(p: ReceivePhase, e: ReceiveEvent)
    requires
        finished(p),
    ensures
        receive_next(p, e) == (p, None::<DownloadProgress>),
{
}

/// A session whose store already holds everything goes straight to export, without
/// connecting.
pub proof fn lemma_cached_receive_skips_network()
    ensures
        receive_next(ReceivePhase::Init, ReceiveEvent::LocalChecked { complete: true }) == (
        ReceivePhase::Exporting, None::<DownloadProgress>),
        receive_next(ReceivePhase::Exporting, ReceiveEvent::ExportDone) == (
        ReceivePhase::Completed, Some(DownloadProgress::Completed)),
{
}

} // verus!
