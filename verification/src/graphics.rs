//! The graphics bag: an arena of items, a paint palette, and a transform
//! hierarchy with cached world transforms.
//!
//! Transforms form a rooted tree over slot indices: slot 0 is the root and
//! every other slot's parent has a strictly smaller index, so one forward
//! pass over increasing indices re-derives every world transform.  The world
//! transform of a node is always its parent's world transform composed with
//! its local transform ([`world_at`]).

use vstd::prelude::*;
use crate::affine::{Affine, AffS, aff_identity, aff_mul};
use crate::shape::{FatPaint, FatShape};
use crate::text::FatText;

verus! {

/// Items for [`GraphicsBag`].
#[derive(Debug, Clone)]
pub enum GraphicsItem {
    /// See [`FatShape`].
    FatShape(FatShape),
    /// See [`FatText`].
    FatText(FatText),
}

/// A handle for a transform slot; slot 0 is the root.
#[derive(Debug, Clone, Copy, PartialEq, Eq, Structural, PartialOrd, Ord, Hash)]
pub struct TransformHandle(pub u32);

/// A handle for a `GraphicsItem` in a `GraphicsBag`.
#[derive(Debug, Clone, Copy, PartialEq, Eq, Structural, PartialOrd, Ord, Hash)]
pub struct ItemHandle(pub u32);

/// A handle for a `FatPaint` in a `GraphicsBag`.
#[derive(Debug, Clone, Copy, PartialEq, Eq, Structural, PartialOrd, Ord, Hash)]
pub struct PaintHandle(pub u32);

impl TransformHandle {
    /// The root transform handle.
    pub fn root() -> (r: TransformHandle)
        ensures
            r.0 == 0,
    {
        TransformHandle(0)
    }
}

/// Transform record for deriving final transforms.
#[derive(Debug, Clone, Copy)]
pub struct ManagedTransform {
    /// Handle of the parent transform.
    pub parent: TransformHandle,
    /// Transform local to the parent.
    pub local: Affine,
}

/// The transform records form a well-shaped tree: the root is its own
/// parent and every other slot's parent precedes it.
pub open spec fn managed_wf(m: Seq<ManagedTransform>) -> bool {
    &&& m.len() >= 1
    &&& m[0].parent.0 == 0
    &&& forall|i: int| 1 <= i < m.len() ==> (#[trigger] m[i].parent.0) < i
}

/// The world transform of slot `i`: the root's local transform, or the
/// parent's world transform composed with the slot's local transform.
pub open spec fn world_at(m: Seq<ManagedTransform>, i: int) -> AffS
    decreases i,
{
    if i < 0 || i >= m.len() {
        aff_identity()
    } else if i == 0 {
        m[0].local@
    } else if m[i].parent.0 >= i {
        aff_identity()
    } else {
        aff_mul(world_at(m, m[i].parent.0 as int), m[i].local@)
    }
}

/// The world transform of a slot depends only on the records up to it.
pub proof fn lemma_world_at_prefix(m1: Seq<ManagedTransform>, m2: Seq<ManagedTransform>, i: int)
    requires
        0 <= i < m1.len(),
        i < m2.len(),
        forall|j: int| 0 <= j <= i ==> m1[j] == m2[j],
    ensures
        world_at(m1, i) == world_at(m2, i),
    decreases i,
{
    if i > 0 && m1[i].parent.0 < i {
        lemma_world_at_prefix(m1, m2, m1[i].parent.0 as int);
    }
}

/// Sequential application of (handle, local) replacements, last write wins.
pub open spec fn apply_updates(
    m: Seq<ManagedTransform>,
    pairs: Seq<(TransformHandle, Affine)>,
) -> Seq<ManagedTransform>
    decreases pairs.len(),
{
    if pairs.len() == 0 {
        m
    } else {
        let rest = apply_updates(m, pairs.drop_last());
        let (h, local) = pairs.last();
        if 0 <= h.0 < rest.len() {
            rest.update(
                h.0 as int,
                ManagedTransform { parent: rest[h.0 as int].parent, local },
            )
        } else {
            rest
        }
    }
}

/// Bag of [`GraphicsItem`]s, their paints and their transforms.
#[derive(Debug)]
pub struct GraphicsBag {
    /// [`GraphicsItem`]s in the bag.
    pub items: Vec<GraphicsItem>,
    /// Fully realized transforms used for rendering, parallel to
    /// `managed_transforms`.
    pub final_transforms: Vec<Affine>,
    /// Parent and local transform of every slot.
    pub managed_transforms: Vec<ManagedTransform>,
    /// `FatPaint`s registered with this bag.
    pub palette: Vec<FatPaint>,
}

impl GraphicsBag {
    /// The bag's transform table is well-formed.
    pub open spec fn wf(self) -> bool {
        &&& managed_wf(self.managed_transforms@)
        &&& self.final_transforms@.len() == self.managed_transforms@.len()
    }

    /// Every cached world transform equals the model's world transform.
    pub open spec fn finalized(self) -> bool {
        forall|i: int|
            0 <= i < self.managed_transforms@.len() ==> (#[trigger] self.final_transforms@[i])@
                == world_at(self.managed_transforms@, i)
    }

    /// A fresh bag holding only the root transform.
    pub fn new() -> (r: GraphicsBag)
        ensures
            r.wf(),
            r.finalized(),
            r.items@.len() == 0,
            r.palette@.len() == 0,
            r.managed_transforms@.len() == 1,
            r.managed_transforms@[0].local@ == aff_identity(),
    {
        let root = ManagedTransform { parent: TransformHandle(0), local: Affine::identity() };
        let mut managed: Vec<ManagedTransform> = Vec::new();
        managed.push(root);
        let mut finals: Vec<Affine> = Vec::new();
        finals.push(Affine::identity());
        GraphicsBag {
            items: Vec::new(),
            final_transforms: finals,
            managed_transforms: managed,
            palette: Vec::new(),
        }
    }

    /// Push a [`GraphicsItem`], returning its handle.
    pub fn push(&mut self, item: GraphicsItem) -> (r: ItemHandle)
        requires
            old(self).items@.len() < u32::MAX as int,
        ensures
            final(self).items@ =~= old(self).items@.push(item),
            r.0 as int == old(self).items@.len(),
            final(self).final_transforms == old(self).final_transforms,
            final(self).managed_transforms == old(self).managed_transforms,
            final(self).palette == old(self).palette,
    {
        let n = self.items.len();
        self.items.push(item);
        ItemHandle(n as u32)
    }

    /// Get an individual [`GraphicsItem`].
    pub fn get(&self, idx: ItemHandle) -> (r: Option<&GraphicsItem>)
        ensures
            (idx.0 as int) < self.items@.len() ==> r == Some(&self.items@[idx.0 as int]),
            (idx.0 as int) >= self.items@.len() ==> r is None,
    {
        if (idx.0 as usize) < self.items.len() {
            Some(&self.items[idx.0 as usize])
        } else {
            None
        }
    }

    /// Register a paint.
    ///
    /// Attach the returned `PaintHandle` to a `GraphicsItem`.
    pub fn register_paint(&mut self, paint: FatPaint) -> (r: PaintHandle)
        requires
            old(self).palette@.len() < u32::MAX as int,
        ensures
            final(self).palette@ =~= old(self).palette@.push(paint),
            r.0 as int == old(self).palette@.len(),
            final(self).items == old(self).items,
            final(self).final_transforms == old(self).final_transforms,
            final(self).managed_transforms == old(self).managed_transforms,
    {
        let n = self.palette.len();
        self.palette.push(paint);
        PaintHandle(n as u32)
    }

    /// Get a paint.  The handle must belong to this bag.
    pub fn get_paint(&self, handle: PaintHandle) -> (r: &FatPaint)
        requires
            (handle.0 as int) < self.palette@.len(),
        ensures
            r == &self.palette@[handle.0 as int],
    {
        &self.palette[handle.0 as usize]
    }

    /// Update a paint.  The handle must belong to this bag.
    pub fn update_paint(&mut self, handle: PaintHandle, paint: FatPaint)
        requires
            (handle.0 as int) < old(self).palette@.len(),
        ensures
            final(self).palette@ =~= old(self).palette@.update(handle.0 as int, paint),
            final(self).items == old(self).items,
            final(self).final_transforms == old(self).final_transforms,
            final(self).managed_transforms == old(self).managed_transforms,
    {
        self.palette.set(handle.0 as usize, paint);
    }

    /// Register a transform under `parent`.
    ///
    /// The returned handle's slot index is strictly greater than the
    /// parent's, and the cached world transform of the new slot is its
    /// parent's world composed with `local`.
    pub fn register_transform(&mut self, parent: TransformHandle, local: Affine) -> (r:
        TransformHandle)
        requires
            old(self).wf(),
            old(self).finalized(),
            (parent.0 as int) < old(self).managed_transforms@.len(),
            old(self).managed_transforms@.len() < u32::MAX as int,
        ensures
            final(self).wf(),
            final(self).finalized(),
            r.0 as int == old(self).managed_transforms@.len(),
            parent.0 < r.0,
            final(self).managed_transforms@ =~= old(self).managed_transforms@.push(
                ManagedTransform { parent, local },
            ),
            final(self).items == old(self).items,
            final(self).palette == old(self).palette,
    {
        let n = self.managed_transforms.len();
        let handle = TransformHandle(n as u32);
        self.managed_transforms.push(ManagedTransform { parent, local });
        let pw = self.final_transforms[parent.0 as usize];
        let w = pw.mul(local);
        self.final_transforms.push(w);
        proof {
            let m1 = old(self).managed_transforms@;
            let m2 = self.managed_transforms@;
            assert forall|i: int| 0 <= i < m2.len() implies (#[trigger] self.final_transforms@[i])@
                == world_at(m2, i) by {
                if i < m1.len() {
                    lemma_world_at_prefix(m1, m2, i);
                } else {
                    lemma_world_at_prefix(m1, m2, parent.0 as int);
                }
            }
        }
        handle
    }

    /// Get a cached world transform.  The handle must belong to this bag.
    pub fn get_transform(&self, handle: TransformHandle) -> (r: Affine)
        requires
            self.wf(),
            (handle.0 as int) < self.managed_transforms@.len(),
        ensures
            r == self.final_transforms@[handle.0 as int],
            self.finalized() ==> r@ == world_at(self.managed_transforms@, handle.0 as int),
    {
        self.final_transforms[handle.0 as usize]
    }

    /// Re-derive the cached world transforms of every slot at or after
    /// `from`.
    fn finalize_transforms(&mut self, from: usize)
        requires
            old(self).wf(),
            forall|i: int|
                0 <= i < from ==> (#[trigger] old(self).final_transforms@[i])@ == world_at(
                    old(self).managed_transforms@,
                    i,
                ),
        ensures
            final(self).wf(),
            final(self).finalized(),
            final(self).managed_transforms == old(self).managed_transforms,
            final(self).items == old(self).items,
            final(self).palette == old(self).palette,
    {
        let len = self.managed_transforms.len();
        let mut i: usize = from;
        if i > len {
            i = len;
        }
        while i < len
            invariant
                i <= len,
                len == self.managed_transforms@.len(),
                self.wf(),
                self.managed_transforms == old(self).managed_transforms,
                self.items == old(self).items,
                self.palette == old(self).palette,
                forall|j: int|
                    0 <= j < i ==> (#[trigger] self.final_transforms@[j])@ == world_at(
                        self.managed_transforms@,
                        j,
                    ),
            decreases len - i,
        {
            let mt = self.managed_transforms[i];
            let w = if i == 0 {
                mt.local
            } else {
                let pw = self.final_transforms[mt.parent.0 as usize];
                pw.mul(mt.local)
            };
            self.final_transforms.set(i, w);
            i += 1;
        }
    }

    /// Replace one local transform and re-derive every world transform that
    /// may depend on it.
    pub fn update_transform(&mut self, handle: TransformHandle, local: Affine)
        requires
            old(self).wf(),
            old(self).finalized(),
            (handle.0 as int) < old(self).managed_transforms@.len(),
        ensures
            final(self).wf(),
            final(self).finalized(),
            final(self).managed_transforms@ =~= old(self).managed_transforms@.update(
                handle.0 as int,
                ManagedTransform {
                    parent: old(self).managed_transforms@[handle.0 as int].parent,
                    local,
                },
            ),
            final(self).items == old(self).items,
            final(self).palette == old(self).palette,
    {
        let mt = self.managed_transforms[handle.0 as usize];
        self.managed_transforms.set(
            handle.0 as usize,
            ManagedTransform { parent: mt.parent, local },
        );
        proof {
            assert forall|i: int| 0 <= i < handle.0 as int implies (
            #[trigger] self.final_transforms@[i])@ == world_at(self.managed_transforms@, i) by {
                lemma_world_at_prefix(old(self).managed_transforms@, self.managed_transforms@, i);
            }
        }
        self.finalize_transforms(handle.0 as usize);
    }

    /// Replace a set of local transforms by (handle, local) pairs, then
    /// re-derive world transforms once, starting from the least replaced
    /// slot.  Every handle must belong to this bag.  Applying the pairs one
    /// by one with [`Self::update_transform`] leaves the bag with the same
    /// transform records, and therefore the same world transforms.
    pub fn update_transforms(&mut self, pairs: &Vec<(TransformHandle, Affine)>)
        requires
            old(self).wf(),
            old(self).finalized(),
            forall|k: int|
                0 <= k < pairs@.len() ==> ((#[trigger] pairs@[k]).0.0 as int) < old(
                    self,
                ).managed_transforms@.len(),
        ensures
            final(self).wf(),
            final(self).finalized(),
            final(self).managed_transforms@ =~= apply_updates(
                old(self).managed_transforms@,
                pairs@,
            ),
            final(self).items == old(self).items,
            final(self).palette == old(self).palette,
    {
        let mut least: usize = usize::MAX;
        let mut any: bool = false;
        let mut k: usize = 0;
        while k < pairs.len()
            invariant
                k <= pairs@.len(),
                any == (k > 0),
                any ==> (least as int) < self.managed_transforms@.len(),
                self.wf(),
                self.final_transforms == old(self).final_transforms,
                self.items == old(self).items,
                self.palette == old(self).palette,
                self.managed_transforms@.len() == old(self).managed_transforms@.len(),
                self.managed_transforms@ =~= apply_updates(
                    old(self).managed_transforms@,
                    pairs@.subrange(0, k as int),
                ),
                forall|kk: int|
                    0 <= kk < pairs@.len() ==> ((#[trigger] pairs@[kk]).0.0 as int) < old(
                        self,
                    ).managed_transforms@.len(),
                forall|i: int|
                    0 <= i < self.managed_transforms@.len() && i < least as int ==> (
                    #[trigger] self.managed_transforms@[i]) == old(self).managed_transforms@[i],
            decreases pairs@.len() - k,
        {
            let (h, local) = pairs[k];
            let mt = self.managed_transforms[h.0 as usize];
            self.managed_transforms.set(h.0 as usize, ManagedTransform { parent: mt.parent, local });
            if !any || (h.0 as usize) < least {
                least = h.0 as usize;
            }
            any = true;
            k += 1;
            proof {
                assert(pairs@.subrange(0, k as int) =~= pairs@.subrange(0, k as int - 1) + seq![
                    pairs@[k as int - 1],
                ]);
                let prev = apply_updates(old(self).managed_transforms@, pairs@.subrange(0, k as int - 1));
                let whole = pairs@.subrange(0, k as int);
                assert(whole.drop_last() =~= pairs@.subrange(0, k as int - 1));
                assert(whole.last() == pairs@[k as int - 1]);
            }
        }
        proof {
            assert(pairs@.subrange(0, pairs@.len() as int) =~= pairs@);
            assert forall|i: int| 0 <= i < least as int && i < self.managed_transforms@.len()
                implies (#[trigger] self.final_transforms@[i])@ == world_at(
                self.managed_transforms@,
                i,
            ) by {
                lemma_world_at_prefix(old(self).managed_transforms@, self.managed_transforms@, i);
            }
        }
        if !any {
            // No pair touched any slot: the cache is already finalized.
            proof {
                assert(pairs@.subrange(0, pairs@.len() as int) =~= pairs@);
                assert(self.managed_transforms@ =~= old(self).managed_transforms@);
                assert forall|i: int|
                    0 <= i < self.managed_transforms@.len() implies (
                #[trigger] self.final_transforms@[i])@ == world_at(self.managed_transforms@, i) by {
                    lemma_world_at_prefix(
                        old(self).managed_transforms@,
                        self.managed_transforms@,
                        i,
                    );
                }
            }
            return ;
        }
        self.finalize_transforms(least);
    }
}

/// The defining recurrence of world transforms: below the root, the world
/// transform of a slot is its parent's world transform composed with the
/// slot's local transform; at the root it is the root's local transform.
/// This holds of the cached transforms of any finalized bag, after single
/// and batched updates alike.
pub proof fn lemma_world_parent_local(m: Seq<ManagedTransform>, i: int)
    requires
        managed_wf(m),
        0 < i < m.len(),
    ensures
        world_at(m, i) == aff_mul(world_at(m, m[i].parent.0 as int), m[i].local@),
{
}

/// Bags that carry the same transform records have the same world
/// transforms, however those records were reached: N single updates and one
/// batch of the same N replacements end in the same records, so their world
/// transforms agree everywhere.
pub proof fn lemma_equal_records_equal_worlds(
    m1: Seq<ManagedTransform>,
    m2: Seq<ManagedTransform>,
)
    requires
        m1 =~= m2,
    ensures
        forall|i: int| world_at(m1, i) == world_at(m2, i),
{
}

/// One batch of replacements ends in the same records as applying the same
/// replacements one at a time, in the same order: both are the sequential
/// fold [`apply_updates`].
pub proof fn lemma_batch_equals_sequence(
    m: Seq<ManagedTransform>,
    pairs: Seq<(TransformHandle, Affine)>,
)
    requires
        pairs.len() > 0,
    ensures
        apply_updates(m, pairs) == apply_updates(
            apply_updates(m, pairs.drop_last()),
            seq![pairs.last()],
        ),
{
    let single = seq![pairs.last()];
    assert(single.drop_last() =~= Seq::<(TransformHandle, Affine)>::empty());
    assert(apply_updates(apply_updates(m, pairs.drop_last()), single.drop_last())
        == apply_updates(m, pairs.drop_last()));
}

} // verus!
