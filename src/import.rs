//! Import progress: what each notification from the store becomes.

use vstd::prelude::*;
use crate::collection::Collection;
use crate::error::ErrorKind;
use crate::paths::{is_valid_name, valid_name};
use crate::progress::ImportProgress;

verus! {

/// A notification from the store while it imports one file.
pub enum AddItem {
    /// The file's size is known.
    Size(u64),
    /// Bytes copied into the store so far.
    CopyProgress(u64),
    /// The copy finished.
    CopyDone,
    /// Bytes of the hash tree computed so far.
    OutboardProgress(u64),
    /// The import failed.
    Error,
    /// The import finished.
    Done,
}

/// The progress event for one import notification of the file `name`, or `None` for a
/// failure, which aborts the import; the size, when this notification gives it.
pub fn import_item_event(name: String, item: AddItem) -> (r: (Option<ImportProgress>, Option<u64>))
    ensures
        item matches AddItem::Size(n) ==> r == (Some(ImportProgress::FileProgress { name, offset: 0 }), Some(n)),
        item matches AddItem::CopyProgress(o) ==> r == (Some(ImportProgress::FileProgress { name, offset: o }), None::<u64>),
        item is CopyDone ==> r == (Some(ImportProgress::FileProgress { name, offset: 0 }), None::<u64>),
        item matches AddItem::OutboardProgress(o) ==> r == (Some(ImportProgress::FileProgress { name, offset: o }), None::<u64>),
        item is Done ==> r == (Some(ImportProgress::FileCompleted { name }), None::<u64>),
        item is Error ==> r.0 is None && r.1 is None,
{
    match item {
        AddItem::Size(n) => (Some(ImportProgress::FileProgress { name, offset: 0 }), Some(n)),
        AddItem::CopyProgress(o) => (Some(ImportProgress::FileProgress { name, offset: o }), None),
        AddItem::CopyDone => (Some(ImportProgress::FileProgress { name, offset: 0 }), None),
        AddItem::OutboardProgress(o) => (Some(ImportProgress::FileProgress { name, offset: o }), None),
        AddItem::Error => (None, None),
        AddItem::Done => (Some(ImportProgress::FileCompleted { name }), None),
    }
}

/// The hash that the blob store gives a blob: the root of its BLAKE3 tree.
pub uninterp spec fn blake3_root(b: Seq<u8>) -> Seq<u8>;

/// Relies on `iroh_blobs::Hash::new`: the BLAKE3 hash of the bytes, which depends on the
/// bytes alone.
#[verifier::external_body]
fn hash_bytes(data: &Vec<u8>) -> (r: [u8; 32])
    ensures
        r@ == blake3_root(data@),
{
    *iroh_blobs::Hash::new(data).as_bytes()
}

/// The single-entry collection for in-memory content named `name`, with its size: the
/// entry's hash is the hash of the bytes. Fails with `InvalidPath` on an invalid name.
pub fn import_from_bytes(name: String, data: &Vec<u8>) -> (r: Result<(Collection, u64), ErrorKind>)
    ensures
        r is Ok <==> valid_name(name@),
        r matches Ok((c, n)) ==> c.view() == seq![(name@, blake3_root(data@))] && n == data@.len() && c.wf(),
        r is Err ==> r->Err_0 == ErrorKind::InvalidPath,
{
    if !is_valid_name(name.as_str()) {
        return Err(ErrorKind::InvalidPath);
    }
    let hash = hash_bytes(data);
    let mut entries: Vec<crate::collection::Entry> = Vec::new();
    let ghost nv = name@;
    entries.push(crate::collection::Entry { name, hash });
    let c = Collection { entries };
    assert(c.view() =~= seq![(nv, blake3_root(data@))]);
    assert(crate::collection::entry_names(c.view()) =~= seq![nv]);
    Ok((c, data.len() as u64))
}

} // verus!
