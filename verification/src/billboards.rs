//! The bindless array of billboard textures.
//!
//! Adding a texture reserves the next slot of the array (empty while the
//! image is created and uploaded without holding the lock), then fills the
//! slot with the image; the slot's index is the texture's index in the
//! descriptor array.
use vstd::prelude::*;

verus! {

/// Why a billboard texture id was refused.
#[derive(Clone, Copy, Debug, PartialEq, Eq, Structural)]
pub enum BillboardError {
    /// No billboard slot has this index.
    UnknownTexture(u64),
}

/// The billboard slots, in descriptor array order.
pub struct BillboardSlots<I> {
    pub slots: Vec<Option<I>>,
}

impl<I> BillboardSlots<I> {
    /// No slot.
    pub fn new() -> (r: Self)
        ensures
            r.slots@ == Seq::<Option<I>>::empty(),
    {
        BillboardSlots { slots: Vec::new() }
    }

    /// Whether `texture_id` names a slot.
    pub fn check_texture_id(&self, texture_id: u64) -> (r: Result<(), BillboardError>)
        ensures
            r == (if texture_id < self.slots@.len() {
                Ok::<(), BillboardError>(())
            } else {
                Err::<(), BillboardError>(BillboardError::UnknownTexture(texture_id))
            }),
    {
        if (texture_id as u128) < (self.slots.len() as u128) {
            Ok(())
        } else {
            Err(BillboardError::UnknownTexture(texture_id))
        }
    }

    /// Reserves the next slot, empty, and returns its index.
    pub fn reserve(&mut self) -> (r: u32)
        requires
            old(self).slots@.len() < u32::MAX,
        ensures
            r == old(self).slots@.len(),
            final(self).slots@ == old(self).slots@.push(None),
    {
        let index = self.slots.len() as u32;
        self.slots.push(None);
        index
    }

    /// Puts the uploaded image in reserved slot `index`.
    pub fn fill(&mut self, index: u32, image: I)
        requires
            index < old(self).slots@.len(),
        ensures
            final(self).slots@ == old(self).slots@.update(index as int, Some(image)),
    {
        self.slots.set(index as usize, Some(image));
    }
}

/// Adding a texture gives it the index of the slot it lands in: after a
/// reservation and a fill at the index it returned, that slot holds the
/// image, every earlier slot is unchanged, and the texture id is accepted.
pub proof fn lemma_added_texture_is_found<I>(before: Seq<Option<I>>, image: I)
    ensures
        ({
            let index = before.len();
            let after = before.push(None).update(index as int, Some(image));
            &&& after.len() == index + 1
            &&& after[index as int] == Some(image)
            &&& after.take(index as int) == before
        }),
{
    let index = before.len();
    let after = before.push(None).update(index as int, Some(image));
    assert(after.take(index as int) =~= before);
}

} // verus!
