//! The annotation document of an overlay: annotations in drawing order with undo and redo,
//! and a revision that changes with every change, so that a result computed for an earlier
//! state of the document can be told apart. The overlay's derived image identity pairs its
//! image with the document's revision.

use crate::model::{AssetGeneration, AssetRef, ImageId};
use vstd::prelude::*;

verus! {

/// The revision of a document; the first one is 1 and it never returns to an earlier value.
#[derive(Debug, Clone, Copy, PartialEq, Eq, Structural)]
pub struct AnnotationRevision {
    pub raw: u64,
}

impl AnnotationRevision {
    pub fn initial() -> (r: AnnotationRevision)
        ensures
            r.raw == 1,
    {
        AnnotationRevision { raw: 1 }
    }
}

/// Annotations with undo and redo.
#[derive(Debug, Clone)]
pub struct AnnotationDoc<T> {
    items: Vec<T>,
    undone: Vec<T>,
    revision: u64,
}

impl<T> AnnotationDoc<T> {
    /// The annotations, in drawing order.
    pub closed spec fn spec_items(&self) -> Seq<T> {
        self.items@
    }

    /// The undone annotations; the last one is redone first.
    pub closed spec fn spec_undone(&self) -> Seq<T> {
        self.undone@
    }

    pub closed spec fn spec_revision(&self) -> u64 {
        self.revision
    }

    pub open spec fn wf(&self) -> bool {
        self.spec_revision() >= 1
    }

    pub fn new() -> (d: AnnotationDoc<T>)
        ensures
            d.wf(),
            d.spec_items().len() == 0,
            d.spec_undone().len() == 0,
            d.spec_revision() == 1,
    {
        AnnotationDoc { items: Vec::new(), undone: Vec::new(), revision: 1 }
    }

    pub fn revision(&self) -> (r: AnnotationRevision)
        ensures
            r.raw == self.spec_revision(),
    {
        AnnotationRevision { raw: self.revision }
    }

    pub fn items(&self) -> (v: &Vec<T>)
        ensures
            v@ == self.spec_items(),
    {
        &self.items
    }

    /// Adds an annotation on top; what was undone can no longer be redone.
    pub fn push(&mut self, annotation: T)
        requires
            old(self).wf(),
            old(self).spec_revision() < u64::MAX,
        ensures
            final(self).wf(),
            final(self).spec_items() == old(self).spec_items().push(annotation),
            final(self).spec_undone().len() == 0,
            final(self).spec_revision() == old(self).spec_revision() + 1,
    {
        self.items.push(annotation);
        self.undone = Vec::new();
        self.revision = self.revision + 1;
    }

    /// Takes back the last annotation; `None`, and no change, where there is none.
    pub fn undo(&mut self) -> (r: Option<&T>)
        requires
            old(self).wf(),
            old(self).spec_revision() < u64::MAX,
        ensures
            final(self).wf(),
            old(self).spec_items().len() == 0 ==> r is None && final(self).spec_items() == old(self).spec_items() && final(self).spec_undone() == old(self).spec_undone() && final(self).spec_revision() == old(self).spec_revision(),
            old(self).spec_items().len() > 0 ==> r is Some && final(self).spec_items() == old(self).spec_items().drop_last() && final(self).spec_undone() == old(self).spec_undone().push(
                old(self).spec_items().last(),
            ) && final(self).spec_revision() == old(self).spec_revision() + 1,
    {
        match self.items.pop() {
            Some(a) => {
                self.undone.push(a);
                self.revision = self.revision + 1;
                let n = self.undone.len();
                Some(&self.undone[n - 1])
            },
            None => None,
        }
    }

    /// Brings back the last undone annotation; `None`, and no change, where there is none.
    pub fn redo(&mut self) -> (r: Option<&T>)
        requires
            old(self).wf(),
            old(self).spec_revision() < u64::MAX,
        ensures
            final(self).wf(),
            old(self).spec_undone().len() == 0 ==> r is None && final(self).spec_items() == old(self).spec_items() && final(self).spec_undone() == old(self).spec_undone() && final(self).spec_revision() == old(self).spec_revision(),
            old(self).spec_undone().len() > 0 ==> r is Some && final(self).spec_items() == old(self).spec_items().push(old(self).spec_undone().last()) && final(self).spec_undone() == old(self).spec_undone().drop_last() && final(self).spec_revision() == old(self).spec_revision()
                + 1,
    {
        match self.undone.pop() {
            Some(a) => {
                self.items.push(a);
                self.revision = self.revision + 1;
                let n = self.items.len();
                Some(&self.items[n - 1])
            },
            None => None,
        }
    }
}

/// Undoing and then redoing gives back the same annotations and the same undo list, under a
/// newer revision.
pub proof fn redo_restores_what_undo_took<T>(items: Seq<T>, undone: Seq<T>)
    requires
        items.len() > 0,
    ensures
        ({
            let after_undo = (items.drop_last(), undone.push(items.last()));
            let after_redo = (after_undo.0.push(after_undo.1.last()), after_undo.1.drop_last());
            after_redo.0 == items && after_redo.1 == undone
        }),
{
    assert(items.drop_last().push(items.last()) =~= items);
    assert(undone.push(items.last()).drop_last() =~= undone);
}

/// The image identity of a confirmed overlay selection: annotating changes only its
/// generation, a new selection gets a new image.
#[derive(Debug, Clone, Copy, PartialEq, Eq, Structural)]
pub struct OverlayAssetIdentity {
    pub image_id: ImageId,
}

impl OverlayAssetIdentity {
    /// The identity of a selection whose derived image is `image_id` (a fresh one per
    /// selection).
    pub fn new(image_id: ImageId) -> (i: OverlayAssetIdentity)
        ensures
            i.image_id == image_id,
    {
        OverlayAssetIdentity { image_id }
    }

    /// The asset of the selection at a document revision: its image, with the revision as the
    /// generation.
    pub fn current(self, revision: AnnotationRevision) -> (a: AssetRef)
        requires
            revision.raw >= 1,
        ensures
            a.image_id == self.image_id,
            a.generation.raw == revision.raw,
    {
        AssetRef { image_id: self.image_id, generation: AssetGeneration { raw: revision.raw } }
    }
}

/// The overlay's asset, once a selection has an identity.
pub fn overlay_asset_for_revision(
    identity: Option<OverlayAssetIdentity>,
    revision: AnnotationRevision,
) -> (a: Option<AssetRef>)
    requires
        revision.raw >= 1,
    ensures
        match identity {
            Some(i) => a matches Some(r) && r.image_id == i.image_id && r.generation.raw
                == revision.raw,
            None => a is None,
        },
{
    match identity {
        Some(i) => Some(i.current(revision)),
        None => None,
    }
}

} // verus!
