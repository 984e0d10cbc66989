//! Provider-side bookkeeping: which connections are open, and the progress events that
//! connection and request notifications become.

use vstd::prelude::*;
use crate::progress::ConnectionStatus;
use std::collections::BTreeMap;

verus! {

broadcast use vstd::laws_cmp::group_laws_cmp, vstd::std_specs::btree::group_btree_axioms;

/// A notification about one blob request on a connection.
pub enum RequestUpdate {
    /// The request started, for a blob of the given hash and size.
    Started { hash: [u8; 32], size: u64 },
    /// Data was sent up to an end offset.
    Progress { end_offset: u64 },
    /// The request completed.
    Completed,
    /// The request was aborted.
    Aborted,
}

/// The open connections of a provider: connection id to the client's endpoint id.
pub struct ProviderTracker {
    pub connections: BTreeMap<u64, String>,
}

impl ProviderTracker {
    /// The open connections.
    pub open spec fn view(&self) -> Map<u64, String> {
        self.connections@
    }

    /// A tracker with no connections.
    pub fn new() -> (r: ProviderTracker)
        ensures
            r.view() == Map::<u64, String>::empty(),
    {
        ProviderTracker { connections: BTreeMap::new() }
    }

    /// Records a client connection and reports it, naming the client `?` when its id is
    /// unknown.
    pub fn client_connected(&mut self, connection_id: u64, endpoint_id: Option<String>) -> (r: ConnectionStatus)
        ensures
            r matches ConnectionStatus::ClientConnected { endpoint_id: e, connection_id: c } && c == connection_id
                && (endpoint_id matches Some(s) ==> e == s) && (endpoint_id is None ==> e@ == "?"@)
                && final(self).view() == old(self).view().insert(connection_id, e),
    {
        let e = match endpoint_id {
            Some(s) => s,
            None => String::from_str("?"),
        };
        self.connections.insert(connection_id, e.clone());
        ConnectionStatus::ClientConnected { endpoint_id: e, connection_id }
    }

    /// Forgets a closed connection; reports the closing only for a connection that was open.
    pub fn connection_closed(&mut self, connection_id: u64) -> (r: Option<ConnectionStatus>)
        ensures
            final(self).view() == old(self).view().remove(connection_id),
            r is Some == old(self).view().contains_key(connection_id),
            r matches Some(st) ==> st == (ConnectionStatus::ConnectionClosed { connection_id }),
    {
        match self.connections.remove(&connection_id) {
            Some(_) => Some(ConnectionStatus::ConnectionClosed { connection_id }),
            None => None,
        }
    }
}

/// The progress event for a request update, if any, and whether the request is over:
/// a start, progress to an end offset, or completion are reported; an abort is not.
pub fn request_event(connection_id: u64, request_id: u64, update: RequestUpdate) -> (r: (Option<ConnectionStatus>, bool))
    ensures
        r.1 == (update is Completed || update is Aborted),
        update matches RequestUpdate::Started { hash, size } ==> r.0 == Some(
            ConnectionStatus::RequestStarted { connection_id, request_id, hash, size },
        ),
        update matches RequestUpdate::Progress { end_offset } ==> r.0 == Some(
            ConnectionStatus::RequestProgress { connection_id, request_id, offset: end_offset },
        ),
        update is Completed ==> r.0 == Some(ConnectionStatus::RequestCompleted { connection_id, request_id }),
        update is Aborted ==> r.0 is None,
{
    match update {
        RequestUpdate::Started { hash, size } => (
            Some(ConnectionStatus::RequestStarted { connection_id, request_id, hash, size }),
            false,
        ),
        RequestUpdate::Progress { end_offset } => (
            Some(ConnectionStatus::RequestProgress { connection_id, request_id, offset: end_offset }),
            false,
        ),
        RequestUpdate::Completed => (Some(ConnectionStatus::RequestCompleted { connection_id, request_id }), true),
        RequestUpdate::Aborted => (None, true),
    }
}

} // verus!
