//! The terminal client's model of tabs and transfers, and how progress events move it.

use vstd::prelude::*;
use crate::progress::{DownloadProgress, ExportProgress, ImportProgress, ProgressEvent};

verus! {

/// A tab of the terminal client.
#[derive(Clone, Copy, Debug, PartialEq, Eq, Structural)]
pub enum Tab {
    Send,
    Receive,
    Transfers,
    Nearby,
}

/// The position of each tab.
pub open spec fn tab_index(t: Tab) -> int {
    match t {
        Tab::Send => 0,
        Tab::Receive => 1,
        Tab::Transfers => 2,
        Tab::Nearby => 3,
    }
}

/// The title of each tab.
pub open spec fn tab_name(t: Tab) -> Seq<char> {
    match t {
        Tab::Send => "Send"@,
        Tab::Receive => "Receive"@,
        Tab::Transfers => "Transfers"@,
        Tab::Nearby => "Nearby"@,
    }
}

impl Tab {
    /// Every tab, in order.
    pub fn all() -> (r: [Tab; 4])
        ensures
            r@ == seq![Tab::Send, Tab::Receive, Tab::Transfers, Tab::Nearby],
    {
        let r = [Tab::Send, Tab::Receive, Tab::Transfers, Tab::Nearby];
        assert(r@ =~= seq![Tab::Send, Tab::Receive, Tab::Transfers, Tab::Nearby]);
        r
    }

    /// The tab's position.
    pub fn index(&self) -> (r: usize)
        ensures
            r == tab_index(*self),
    {
        match self {
            Tab::Send => 0,
            Tab::Receive => 1,
            Tab::Transfers => 2,
            Tab::Nearby => 3,
        }
    }

    /// The tab at a position, if there is one.
    pub fn from_index(index: usize) -> (r: Option<Tab>)
        ensures
            r matches Some(t) ==> tab_index(t) == index,
            r is None <==> index > 3,
    {
        match index {
            0 => Some(Tab::Send),
            1 => Some(Tab::Receive),
            2 => Some(Tab::Transfers),
            3 => Some(Tab::Nearby),
            _ => None,
        }
    }

    /// The tab's title.
    pub fn name(&self) -> (r: &'static str)
        ensures
            r@ == tab_name(*self),
    {
        match self {
            Tab::Send => "Send",
            Tab::Receive => "Receive",
            Tab::Transfers => "Transfers",
            Tab::Nearby => "Nearby",
        }
    }
}

/// Which way a transfer goes.
#[derive(Clone, Copy, Debug, PartialEq, Eq, Structural)]
pub enum TransferType {
    Send,
    Receive,
}

impl TransferType {
    /// The direction's title.
    pub fn name(&self) -> (r: &'static str)
        ensures
            r@ == (match *self {
                TransferType::Send => "Send"@,
                TransferType::Receive => "Receive"@,
            }),
    {
        match self {
            TransferType::Send => "Send",
            TransferType::Receive => "Receive",
        }
    }
}

/// Where a transfer stands.
pub enum TransferStatus {
    Initializing,
    Serving,
    Connecting,
    Downloading,
    Exporting,
    Completed,
    Error(String),
    Cancelled,
}

impl TransferStatus {
    /// Still under way.
    pub fn is_active(&self) -> (r: bool)
        ensures
            r == (self is Initializing || self is Serving || self is Connecting || self is Downloading
                || self is Exporting),
    {
        match self {
            TransferStatus::Initializing | TransferStatus::Serving | TransferStatus::Connecting
            | TransferStatus::Downloading | TransferStatus::Exporting => true,
            _ => false,
        }
    }

    /// Over, whether it succeeded, failed or was cancelled.
    pub fn is_finished(&self) -> (r: bool)
        ensures
            r == (self is Completed || self is Error || self is Cancelled),
    {
        match self {
            TransferStatus::Completed | TransferStatus::Error(_) | TransferStatus::Cancelled => true,
            _ => false,
        }
    }
}

/// The state of the send tab.
#[derive(Clone, Copy, Debug, PartialEq, Eq, Structural)]
pub enum SendTabState {
    Input,
    Success,
}

/// The state of the transfers tab.
pub enum TransfersTabState {
    List,
    Detail { transfer_id: String },
}

/// One transfer as the client shows it.
pub struct Transfer {
    pub id: String,
    pub transfer_type: TransferType,
    pub path: String,
    pub status: TransferStatus,
    pub ticket: Option<String>,
    pub hash: Option<[u8; 32]>,
    pub total_bytes: u64,
    pub transferred_bytes: u64,
    pub total_files: u64,
    pub transferred_files: u64,
    /// Creation time, in Unix seconds.
    pub created_at: i64,
    /// Percentage done.
    pub progress: u16,
}

/// Percentage of `offset` in `total`, rounded down, capped at the largest `u16`; zero
/// when the total is zero.
pub open spec fn percent(offset: u64, total: u64) -> u16 {
    if total == 0 {
        0
    } else if (offset as int) * 100 / (total as int) > u16::MAX as int {
        u16::MAX
    } else {
        ((offset as int) * 100 / (total as int)) as u16
    }
}

/// The transfer after a progress event.
pub open spec fn after_event(t: Transfer, e: ProgressEvent) -> Transfer {
    match e {
        ProgressEvent::Download(DownloadProgress::Metadata { total_size, file_count, .. }) => Transfer {
            total_bytes: total_size,
            total_files: file_count,
            status: TransferStatus::Downloading,
            ..t
        },
        ProgressEvent::Download(DownloadProgress::Downloading { offset, total }) => Transfer {
            transferred_bytes: offset,
            total_bytes: total,
            progress: percent(offset, total),
            ..t
        },
        ProgressEvent::Download(DownloadProgress::Completed) => Transfer {
            status: TransferStatus::Completed,
            progress: 100,
            ..t
        },
        ProgressEvent::Download(DownloadProgress::Connecting) => Transfer { status: TransferStatus::Connecting, ..t },
        ProgressEvent::Import(_, ImportProgress::Started { total_files }) => Transfer { total_files: total_files as u64, ..t },
        ProgressEvent::Import(_, ImportProgress::FileCompleted { .. }) => Transfer {
            transferred_files: (t.transferred_files + 1) as u64,
            ..t
        },
        ProgressEvent::Import(_, ImportProgress::Completed { total_size }) => Transfer {
            total_bytes: total_size,
            status: TransferStatus::Serving,
            ..t
        },
        ProgressEvent::Export(_, ExportProgress::Started { total_files }) => Transfer {
            status: TransferStatus::Exporting,
            total_files: total_files as u64,
            ..t
        },
        ProgressEvent::Export(_, ExportProgress::FileCompleted { .. }) => Transfer {
            status: TransferStatus::Exporting,
            transferred_files: (t.transferred_files + 1) as u64,
            ..t
        },
        ProgressEvent::Export(_, ExportProgress::Completed) => Transfer { status: TransferStatus::Completed, ..t },
        ProgressEvent::Export(_, _) => Transfer { status: TransferStatus::Exporting, ..t },
        _ => t,
    }
}

impl Transfer {
    /// A new transfer with identifier `id`, created at `created_at` (Unix seconds).
    pub fn new(transfer_type: TransferType, path: String, id: String, created_at: i64) -> (r: Transfer)
        ensures
            r.id == id,
            r.transfer_type == transfer_type,
            r.path == path,
            r.status is Initializing,
            r.ticket is None,
            r.hash is None,
            r.total_bytes == 0 && r.transferred_bytes == 0,
            r.total_files == 0 && r.transferred_files == 0,
            r.created_at == created_at,
            r.progress == 0,
    {
        Transfer {
            id,
            transfer_type,
            path,
            status: TransferStatus::Initializing,
            ticket: None,
            hash: None,
            total_bytes: 0,
            transferred_bytes: 0,
            total_files: 0,
            transferred_files: 0,
            created_at,
            progress: 0,
        }
    }

    /// Moves the transfer along with a progress event.
    pub fn update_progress(&mut self, event: &ProgressEvent)
        requires
            old(self).transferred_files < u64::MAX,
        ensures
            *final(self) == after_event(*old(self), *event),
    {
        match event {
            ProgressEvent::Download(DownloadProgress::Metadata { total_size, file_count, .. }) => {
                self.total_bytes = *total_size;
                self.total_files = *file_count;
                self.status = TransferStatus::Downloading;
            },
            ProgressEvent::Download(DownloadProgress::Downloading { offset, total }) => {
                self.transferred_bytes = *offset;
                self.total_bytes = *total;
                self.progress = if *total > 0 {
                    let p: u128 = (*offset as u128) * 100 / (*total as u128);
                    if p > 65535 {
                        65535
                    } else {
                        p as u16
                    }
                } else {
                    0
                };
            },
            ProgressEvent::Download(DownloadProgress::Completed) => {
                self.status = TransferStatus::Completed;
                self.progress = 100;
            },
            ProgressEvent::Download(DownloadProgress::Connecting) => {
                self.status = TransferStatus::Connecting;
            },
            ProgressEvent::Import(_, progress) => match progress {
                ImportProgress::Started { total_files } => {
                    self.total_files = *total_files as u64;
                },
                ImportProgress::FileCompleted { .. } => {
                    self.transferred_files = self.transferred_files + 1;
                },
                ImportProgress::Completed { total_size } => {
                    self.total_bytes = *total_size;
                    self.status = TransferStatus::Serving;
                },
                _ => {},
            },
            ProgressEvent::Export(_, progress) => {
                self.status = TransferStatus::Exporting;
                match progress {
                    ExportProgress::Started { total_files } => {
                        self.total_files = *total_files as u64;
                    },
                    ExportProgress::FileCompleted { .. } => {
                        self.transferred_files = self.transferred_files + 1;
                    },
                    ExportProgress::Completed => {
                        self.status = TransferStatus::Completed;
                    },
                    _ => {},
                }
            },
            _ => {},
        }
    }
}

} // verus!
