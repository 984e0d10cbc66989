//! Receive-side bookkeeping: sizes of a transfer and the download progress it reports.

use vstd::prelude::*;
use crate::collection::{same_hash, Collection};
use crate::progress::DownloadProgress;

verus! {

/// The sum of `sizes`.
pub open spec fn sum_u64(sizes: Seq<u64>) -> int
    decreases sizes.len(),
{
    if sizes.len() == 0 {
        0
    } else {
        sum_u64(sizes.drop_last()) + sizes.last()
    }
}

/// The total size of a transfer: the sum of the sizes of every blob in the hash sequence,
/// or `None` when that sum does not fit in 64 bits.
pub fn total_size_of(sizes: &Vec<u64>) -> (r: Option<u64>)
    ensures
        r == (if sum_u64(sizes@) <= u64::MAX { Some(sum_u64(sizes@) as u64) } else { None::<u64> }),
{
    let mut total: u64 = 0;
    let mut i: usize = 0;
    while i < sizes.len()
        invariant
            i <= sizes@.len(),
            total == sum_u64(sizes@.take(i as int)),
        decreases sizes@.len() - i,
    {
        assert(sizes@.take(i as int + 1).drop_last() =~= sizes@.take(i as int));
        if total > u64::MAX - sizes[i] {
            proof {
                lemma_sum_prefix_le(sizes@, i as int + 1);
            }
            return None;
        }
        total = total + sizes[i];
        i = i + 1;
    }
    assert(sizes@.take(sizes@.len() as int) =~= sizes@);
    Some(total)
}

/// A prefix of a list of sizes sums to no more than the whole.
pub proof fn lemma_sum_prefix_le(sizes: Seq<u64>, n: int)
    requires
        0 <= n <= sizes.len(),
    ensures
        sum_u64(sizes.take(n)) <= sum_u64(sizes),
    decreases sizes.len(),
{
    if n < sizes.len() {
        assert(sizes.drop_last().take(n) =~= sizes.take(n));
        lemma_sum_prefix_le(sizes.drop_last(), n);
    } else {
        assert(sizes.take(n) =~= sizes);
    }
}

/// The number of files in a transfer counted from its sizes alone: every blob but the
/// first, which is the collection's own metadata.
pub fn total_files(sizes: &Vec<u64>) -> (r: u64)
    ensures
        r == (if sizes@.len() == 0 { 0 } else { sizes@.len() - 1 }),
{
    if sizes.len() == 0 {
        0
    } else {
        (sizes.len() - 1) as u64
    }
}

/// The first position of `h` in `hs`, or -1 when it is absent.
pub open spec fn first_index(hs: Seq<Seq<u8>>, h: Seq<u8>) -> int
    decreases hs.len(),
{
    if hs.len() == 0 {
        -1
    } else if hs[0] == h {
        0
    } else {
        let r = first_index(hs.drop_first(), h);
        if r < 0 {
            -1
        } else {
            r + 1
        }
    }
}

/// The size that one entry contributes: the size at the first position of its hash in the
/// hash sequence, or nothing when the hash is absent or has no size.
pub open spec fn entry_size(hs: Seq<Seq<u8>>, sizes: Seq<u64>, h: Seq<u8>) -> int {
    let i = first_index(hs, h);
    if 0 <= i < sizes.len() {
        sizes[i] as int
    } else {
        0
    }
}

/// The payload of a collection: the sum, over its entries in order, of each entry's size.
pub open spec fn payload_of(entries: Seq<(Seq<char>, Seq<u8>)>, hs: Seq<Seq<u8>>, sizes: Seq<u64>) -> int
    decreases entries.len(),
{
    if entries.len() == 0 {
        0
    } else {
        payload_of(entries.drop_last(), hs, sizes) + entry_size(hs, sizes, entries.last().1)
    }
}

proof fn lemma_first_index_step(hs: Seq<Seq<u8>>, h: Seq<u8>, i: int)
    requires
        0 <= i <= hs.len(),
        forall|k: int| 0 <= k < i ==> hs[k] != h,
    ensures
        i < hs.len() && hs[i] == h ==> first_index(hs, h) == i,
        i == hs.len() ==> first_index(hs, h) == -1,
    decreases i,
{
    if i > 0 {
        lemma_first_index_step(hs.drop_first(), h, i - 1);
    }
}

/// The first position of `h` in `hs`, if any.
pub fn position_of(hs: &Vec<[u8; 32]>, h: &[u8; 32]) -> (r: Option<usize>)
    ensures
        r is Some ==> r->Some_0 as int == first_index(hs@.map_values(|x: [u8; 32]| x@), h@),
        r is None ==> first_index(hs@.map_values(|x: [u8; 32]| x@), h@) == -1,
{
    let ghost s = hs@.map_values(|x: [u8; 32]| x@);
    let mut i: usize = 0;
    while i < hs.len()
        invariant
            i <= hs@.len(),
            s == hs@.map_values(|x: [u8; 32]| x@),
            forall|k: int| 0 <= k < i ==> s[k] != h@,
        decreases hs@.len() - i,
    {
        if same_hash(&hs[i], h) {
            proof {
                lemma_first_index_step(s, h@, i as int);
            }
            return Some(i);
        }
        i = i + 1;
    }
    proof {
        lemma_first_index_step(s, h@, i as int);
    }
    None
}

/// The payload size of a collection given the transfer's hash sequence and sizes, or
/// `None` when it does not fit in 64 bits. Entries whose hash is missing count nothing.
pub fn actual_payload_size(collection: &Collection, hash_seq: &Vec<[u8; 32]>, sizes: &Vec<u64>) -> (r:
    Option<u64>)
    ensures
        r == (if payload_of(collection.view(), hash_seq@.map_values(|x: [u8; 32]| x@), sizes@) <= u64::MAX {
            Some(payload_of(collection.view(), hash_seq@.map_values(|x: [u8; 32]| x@), sizes@) as u64)
        } else {
            None::<u64>
        }),
{
    let ghost hs = hash_seq@.map_values(|x: [u8; 32]| x@);
    let ghost es = collection.view();
    let mut total: u64 = 0;
    let mut i: usize = 0;
    while i < collection.entries.len()
        invariant
            i <= es.len(),
            es == collection.view(),
            hs == hash_seq@.map_values(|x: [u8; 32]| x@),
            total == payload_of(es.take(i as int), hs, sizes@),
        decreases es.len() - i,
    {
        assert(es.take(i as int + 1).drop_last() =~= es.take(i as int));
        assert(es[i as int].1 == collection.entries@[i as int].hash@);
        let add: u64 = match position_of(hash_seq, &collection.entries[i].hash) {
            Some(p) => if p < sizes.len() {
                sizes[p]
            } else {
                0
            },
            None => 0,
        };
        if total > u64::MAX - add {
            proof {
                lemma_payload_prefix_le(es, hs, sizes@, i as int + 1);
            }
            return None;
        }
        total = total + add;
        i = i + 1;
    }
    assert(es.take(es.len() as int) =~= es);
    Some(total)
}

/// A prefix of a collection has no larger payload than the whole.
pub proof fn lemma_payload_prefix_le(es: Seq<(Seq<char>, Seq<u8>)>, hs: Seq<Seq<u8>>, sizes: Seq<u64>, n: int)
    requires
        0 <= n <= es.len(),
    ensures
        payload_of(es.take(n), hs, sizes) <= payload_of(es, hs, sizes),
    decreases es.len(),
{
    if n < es.len() {
        assert(es.drop_last().take(n) =~= es.take(n));
        lemma_payload_prefix_le(es.drop_last(), hs, sizes, n);
    } else {
        assert(es.take(n) =~= es);
    }
}

/// The receiver's view of one download: bytes already held locally, the total to fetch,
/// and whether the metadata event has gone out.
pub struct ReceiveTracker {
    pub local_bytes: u64,
    pub total: u64,
    pub metadata_sent: bool,
    /// Progress items since the last attempt to load the collection, modulo the poll period.
    pub since_poll: u64,
}

/// How many progress items pass between attempts to load the collection.
pub const METADATA_POLL_PERIOD: u64 = 10;

/// What to do on one progress item of the download stream.
pub struct ProgressStep {
    /// Try to load the collection now, to emit the metadata event.
    pub try_metadata: bool,
    /// The progress event to publish.
    pub event: DownloadProgress,
}

impl ReceiveTracker {
    /// A tracker for a download that starts with `local_bytes` already verified.
    pub fn new(local_bytes: u64, total: u64) -> (r: ReceiveTracker)
        ensures
            r.local_bytes == local_bytes,
            r.total == total,
            !r.metadata_sent,
            r.since_poll == 0,
    {
        ReceiveTracker { local_bytes, total, metadata_sent: false, since_poll: 0 }
    }

    /// The well-formed states: the poll counter stays below the period.
    pub open spec fn wf(&self) -> bool {
        self.since_poll < METADATA_POLL_PERIOD
    }

    /// Handles a progress item at `stream_offset` bytes into the stream: reports the offset
    /// counted from the start of the blob, and asks for a collection load on the first
    /// item and on every tenth after it until the metadata has gone out.
    pub fn on_progress(&mut self, stream_offset: u64) -> (r: ProgressStep)
        requires
            old(self).wf(),
            reported_offset(old(self).local_bytes, stream_offset) <= u64::MAX,
        ensures
            final(self).wf(),
            r.event == (DownloadProgress::Downloading {
                offset: reported_offset(old(self).local_bytes, stream_offset) as u64,
                total: old(self).total,
            }),
            r.try_metadata == (!old(self).metadata_sent && old(self).since_poll == 0),
            final(self).local_bytes == old(self).local_bytes,
            final(self).total == old(self).total,
            final(self).metadata_sent == old(self).metadata_sent,
            final(self).since_poll == (if old(self).metadata_sent {
                old(self).since_poll
            } else {
                ((old(self).since_poll + 1) % (METADATA_POLL_PERIOD as int)) as u64
            }),
    {
        let mut try_metadata = false;
        if !self.metadata_sent {
            try_metadata = self.since_poll == 0;
            self.since_poll = (self.since_poll + 1) % METADATA_POLL_PERIOD;
        }
        ProgressStep {
            try_metadata,
            event: DownloadProgress::Downloading { offset: self.local_bytes + stream_offset, total: self.total },
        }
    }

    /// Handles a successful collection load: the metadata event, the first time only.
    pub fn on_metadata(&mut self, total_size: u64, file_count: u64, names: Vec<String>) -> (r: Option<DownloadProgress>)
        ensures
            final(self).metadata_sent,
            final(self).local_bytes == old(self).local_bytes,
            final(self).total == old(self).total,
            final(self).since_poll == old(self).since_poll,
            old(self).metadata_sent ==> r is None,
            !old(self).metadata_sent ==> r == Some(DownloadProgress::Metadata { total_size, file_count, names }),
    {
        if self.metadata_sent {
            None
        } else {
            self.metadata_sent = true;
            Some(DownloadProgress::Metadata { total_size, file_count, names })
        }
    }
}

/// The offset that a download reports: the bytes held locally when it started plus the
/// stream's own offset.
pub open spec fn reported_offset(local_bytes: u64, stream_offset: u64) -> int {
    local_bytes + stream_offset
}

/// Reported offsets never fall below what was held locally when the download started, so
/// a resumed download reports nothing below its resume point, and they grow with the
/// stream's offset.
pub proof fn lemma_reported_offsets(local_bytes: u64, a: u64, b: u64)
    requires
        a <= b,
        reported_offset(local_bytes, b) <= u64::MAX,
    ensures
        local_bytes <= reported_offset(local_bytes, a) as u64 <= reported_offset(local_bytes, b) as u64,
{
}

} // verus!
