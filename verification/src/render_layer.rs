//! Render layers: ordered views of item handles.

use vstd::prelude::*;
use crate::graphics::{GraphicsBag, GraphicsItem, ItemHandle};

verus! {

/// Render layer: a collection of [`GraphicsItem`] handles in z order.  It is
/// a view of a bag and owns no items; one bag may back several layers.
#[derive(Debug)]
pub struct RenderLayer {
    /// Item handles in z order.
    pub indices: Vec<ItemHandle>,
}

impl Default for RenderLayer {
    /// An empty layer.
    fn default() -> (r: RenderLayer)
        ensures
            r.indices@.len() == 0,
    {
        RenderLayer { indices: Vec::new() }
    }
}

impl RenderLayer {
    /// An empty layer.
    pub fn new() -> (r: RenderLayer)
        ensures
            r.indices@.len() == 0,
    {
        RenderLayer { indices: Vec::new() }
    }

    /// Push a [`GraphicsItem`] into the bag and record its handle here,
    /// returning the handle.
    pub fn push_with_bag(&mut self, bag: &mut GraphicsBag, item: GraphicsItem) -> (r: ItemHandle)
        requires
            old(bag).items@.len() < u32::MAX as int,
        ensures
            r.0 as int == old(bag).items@.len(),
            final(bag).items@ =~= old(bag).items@.push(item),
            final(bag).final_transforms == old(bag).final_transforms,
            final(bag).managed_transforms == old(bag).managed_transforms,
            final(bag).palette == old(bag).palette,
            final(self).indices@ =~= old(self).indices@.push(r),
    {
        let n = bag.push(item);
        self.indices.push(n);
        n
    }

    /// The handles of this layer that the keep list admits, in order.
    pub fn filter_sorted(&self, keep: &Vec<ItemHandle>) -> (r: RenderLayer)
        ensures
            r.indices@ =~= self.indices@.filter(kept(keep@)),
    {
        let ghost p = kept(keep@);
        let mut out: Vec<ItemHandle> = Vec::new();
        let mut i: usize = 0;
        while i < self.indices.len()
            invariant
                i <= self.indices@.len(),
                p == kept(keep@),
                out@ =~= self.indices@.subrange(0, i as int).filter(p),
            decreases self.indices@.len() - i,
        {
            let ih = self.indices[i];
            if contains_handle(keep, ih) {
                out.push(ih);
            }
            i += 1;
            proof {
                reveal_with_fuel(Seq::filter, 2);
                let prefix = self.indices@.subrange(0, i as int - 1);
                let whole = self.indices@.subrange(0, i as int);
                let x = self.indices@[i as int - 1];
                assert(whole.drop_last() =~= prefix);
                assert(whole.last() == x);
                assert(whole.filter(p) == (if p(x) {
                    prefix.filter(p).push(x)
                } else {
                    prefix.filter(p)
                }));
            }
        }
        proof {
            assert(self.indices@.subrange(0, self.indices@.len() as int) =~= self.indices@);
        }
        RenderLayer { indices: out }
    }
}

/// The membership test of a keep list, as a function value.
pub open spec fn kept(keep: Seq<ItemHandle>) -> spec_fn(ItemHandle) -> bool {
    |ih: ItemHandle| keep.contains(ih)
}

/// Whether a list of handles contains the given handle.
pub fn contains_handle(hs: &Vec<ItemHandle>, h: ItemHandle) -> (r: bool)
    ensures
        r == hs@.contains(h),
{
    let mut i: usize = 0;
    while i < hs.len()
        invariant
            i <= hs@.len(),
            forall|j: int| 0 <= j < i ==> hs@[j] != h,
        decreases hs@.len() - i,
    {
        if hs[i].0 == h.0 {
            proof {
                assert(hs@[i as int] == h);
            }
            return true;
        }
        i += 1;
    }
    proof {
        assert(!hs@.contains(h));
    }
    false
}

} // verus!
