//! Progress events that the transfer pipelines publish.

use vstd::prelude::*;

verus! {

/// Progress of importing files into the store.
pub enum ImportProgress {
    /// The import started.
    Started { total_files: usize },
    /// A file's import started.
    FileStarted { name: String, size: u64 },
    /// A file's import advanced.
    FileProgress { name: String, offset: u64 },
    /// A file's import finished.
    FileCompleted { name: String },
    /// The whole import finished.
    Completed { total_size: u64 },
}

/// Progress of exporting files out of the store.
pub enum ExportProgress {
    /// The export started.
    Started { total_files: usize },
    /// A file's export started.
    FileStarted { name: String, size: u64 },
    /// A file's export advanced.
    FileProgress { name: String, offset: u64 },
    /// A file's export finished.
    FileCompleted { name: String },
    /// The whole export finished.
    Completed,
}

/// Progress of a download.
pub enum DownloadProgress {
    /// Connecting to the sender.
    Connecting,
    /// Asking for the sizes of the blobs.
    GettingSizes,
    /// The collection is known: its payload size, file count and names.
    Metadata { total_size: u64, file_count: u64, names: Vec<String> },
    /// Bytes received so far, out of the total.
    Downloading { offset: u64, total: u64 },
    /// The download finished.
    Completed,
}

/// What happens on the provider's connections.
pub enum ConnectionStatus {
    /// A client connected.
    ClientConnected { endpoint_id: String, connection_id: u64 },
    /// A connection closed.
    ConnectionClosed { connection_id: u64 },
    /// A request for a blob started.
    RequestStarted { connection_id: u64, request_id: u64, hash: [u8; 32], size: u64 },
    /// A request advanced to an end offset.
    RequestProgress { connection_id: u64, request_id: u64, offset: u64 },
    /// A request finished.
    RequestCompleted { connection_id: u64, request_id: u64 },
}

/// One event on the progress stream.
pub enum ProgressEvent {
    /// Import progress of the named file.
    Import(String, ImportProgress),
    /// Export progress of the named file.
    Export(String, ExportProgress),
    /// Download progress.
    Download(DownloadProgress),
    /// Provider connection status.
    Connection(ConnectionStatus),
}

/// Terminal events: the `Completed` variants, a file's completion, a closed connection
/// and a completed request.
pub open spec fn terminal(e: ProgressEvent) -> bool {
    match e {
        ProgressEvent::Import(_, p) => p is FileCompleted || p is Completed,
        ProgressEvent::Export(_, p) => p is FileCompleted || p is Completed,
        ProgressEvent::Download(p) => p is Completed,
        ProgressEvent::Connection(c) => c is ConnectionClosed || c is RequestCompleted,
    }
}

impl ProgressEvent {
    /// Whether the event must reach the consumer: a sender waits for room in the channel
    /// for these, and may drop the others when it is full.
    pub fn must_deliver(&self) -> (r: bool)
        ensures
            r == terminal(*self),
    {
        match self {
            ProgressEvent::Import(_, p) => match p {
                ImportProgress::FileCompleted { .. } | ImportProgress::Completed { .. } => true,
                _ => false,
            },
            ProgressEvent::Export(_, p) => match p {
                ExportProgress::FileCompleted { .. } | ExportProgress::Completed => true,
                _ => false,
            },
            ProgressEvent::Download(p) => match p {
                DownloadProgress::Completed => true,
                _ => false,
            },
            ProgressEvent::Connection(c) => match c {
                ConnectionStatus::ConnectionClosed { .. } | ConnectionStatus::RequestCompleted { .. } => true,
                _ => false,
            },
        }
    }
}

} // verus!
