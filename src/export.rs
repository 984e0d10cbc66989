//! Export planning: where each collection entry goes, and refusing to overwrite.

use vstd::prelude::*;
use crate::collection::Collection;
use crate::error::ErrorKind;
use crate::paths::{get_export_path, split_slash, valid_name, views};
use crate::progress::ExportProgress;

verus! {

/// The export target of each entry: the export directory's components followed by the
/// entry name's components. Fails with `InvalidPath` when some name breaks the naming rules.
pub fn plan_export(root: &Vec<String>, collection: &Collection) -> (r: Result<Vec<Vec<String>>, ErrorKind>)
    ensures
        r is Ok <==> forall|i: int| 0 <= i < collection.view().len() ==> valid_name(#[trigger] collection.view()[i].0),
        r matches Ok(t) ==> t@.len() == collection.view().len() && forall|i: int|
            0 <= i < t@.len() ==> views((#[trigger] t@[i])@) == views(root@) + split_slash(collection.view()[i].0),
        r is Err ==> r->Err_0 == ErrorKind::InvalidPath,
{
    let mut targets: Vec<Vec<String>> = Vec::new();
    let mut i: usize = 0;
    while i < collection.entries.len()
        invariant
            i <= collection.view().len(),
            targets@.len() == i,
            forall|k: int| 0 <= k < i ==> valid_name(#[trigger] collection.view()[k].0),
            forall|k: int| 0 <= k < i ==> views((#[trigger] targets@[k])@) == views(root@) + split_slash(collection.view()[k].0),
        decreases collection.view().len() - i,
    {
        assert(collection.view()[i as int].0 == collection.entries@[i as int].name@);
        match get_export_path(root, collection.entries[i].name.as_str()) {
            Ok(t) => {
                targets.push(t);
            },
            Err(e) => {
                return Err(e);
            },
        }
        i = i + 1;
    }
    Ok(targets)
}

/// Fails with `ExportConflict` when any export target already exists, so that nothing is
/// written unless every target is free.
pub fn check_targets(exists: &Vec<bool>) -> (r: Result<(), ErrorKind>)
    ensures
        r is Err <==> exists|i: int| 0 <= i < exists@.len() && exists@[i],
        r is Err ==> r->Err_0 == ErrorKind::ExportConflict,
{
    let mut i: usize = 0;
    while i < exists.len()
        invariant
            i <= exists@.len(),
            forall|k: int| 0 <= k < i ==> !exists@[k],
        decreases exists@.len() - i,
    {
        if exists[i] {
            return Err(ErrorKind::ExportConflict);
        }
        i = i + 1;
    }
    Ok(())
}

/// A notification from the store while it exports one blob.
pub enum ExportItem {
    /// The blob's size.
    Size(u64),
    /// Bytes copied so far.
    CopyProgress(u64),
    /// The copy finished.
    Done,
    /// The copy failed.
    Error,
}

/// The progress event for one export notification of the entry `name`, or `None` for a
/// failure, which ends the export.
pub fn export_item_event(name: String, item: ExportItem) -> (r: Option<ExportProgress>)
    ensures
        item matches ExportItem::Size(_) ==> r == Some(ExportProgress::FileProgress { name, offset: 0 }),
        item matches ExportItem::CopyProgress(o) ==> r == Some(ExportProgress::FileProgress { name, offset: o }),
        item is Done ==> r == Some(ExportProgress::FileCompleted { name }),
        item is Error ==> r is None,
{
    match item {
        ExportItem::Size(_) => Some(ExportProgress::FileProgress { name, offset: 0 }),
        ExportItem::CopyProgress(offset) => Some(ExportProgress::FileProgress { name, offset }),
        ExportItem::Done => Some(ExportProgress::FileCompleted { name }),
        ExportItem::Error => None,
    }
}

} // verus!
