//! The device's resources that must be handed to the discard pool before
//! the device is torn down: the archetypes of every live presentation
//! engine, the per-entity mesh and sun resources, the billboard images and
//! the sky image.
use crate::archetypes::{ArchetypeRecord, Archetypes};
use crate::resources::{ready_values, ResourceState, ResourceTable};
use vstd::prelude::*;

verus! {

/// What clearing the discardable resources hands to the discard pool.
pub struct Released<M, S, I> {
    /// The archetype records of every presentation engine, engine by engine.
    pub archetypes: Vec<ArchetypeRecord>,
    /// The built mesh resources.
    pub meshes: Vec<M>,
    /// The built sun resources.
    pub suns: Vec<S>,
    /// The billboard images present, in slot order, then the sky image.
    pub images: Vec<I>,
}

/// The records of the registries `engines`, engine by engine.
pub open spec fn engines_records(engines: Seq<Archetypes>) -> Seq<ArchetypeRecord>
    decreases engines.len(),
{
    if engines.len() == 0 {
        Seq::empty()
    } else {
        engines_records(engines.drop_last()) + engines.last().records()
    }
}

/// The images present among `slots`, in slot order.
pub open spec fn present_images<I>(slots: Seq<Option<I>>) -> Seq<I>
    decreases slots.len(),
{
    if slots.len() == 0 {
        Seq::empty()
    } else {
        present_images(slots.drop_last()) + match slots.last() {
            Some(i) => seq![i],
            None => Seq::empty(),
        }
    }
}

/// The discardable resources of a device.
pub struct Discardables<M, S, I> {
    engines: Vec<Archetypes>,
    meshes: ResourceTable<M>,
    suns: ResourceTable<S>,
    billboards: Vec<Option<I>>,
    sky_image: Option<I>,
}

impl<M, S, I> Discardables<M, S, I> {
    /// The archetype registries of the live presentation engines.
    pub closed spec fn engines(&self) -> Seq<Archetypes> {
        self.engines@
    }

    /// Mesh resources by instance.
    pub closed spec fn meshes(&self) -> Map<u64, ResourceState<M>> {
        self.meshes@
    }

    /// Sun resources by entity.
    pub closed spec fn suns(&self) -> Map<u64, ResourceState<S>> {
        self.suns@
    }

    /// Mesh resource states in storage order.
    pub closed spec fn stored_meshes(&self) -> Seq<ResourceState<M>> {
        self.meshes.stored()
    }

    /// Sun resource states in storage order.
    pub closed spec fn stored_suns(&self) -> Seq<ResourceState<S>> {
        self.suns.stored()
    }

    /// Billboard image slots.
    pub closed spec fn billboards(&self) -> Seq<Option<I>> {
        self.billboards@
    }

    /// The sky image, once generated.
    pub closed spec fn sky_image(&self) -> Option<I> {
        self.sky_image
    }

    /// Every registry and table is well formed.
    pub closed spec fn wf(&self) -> bool {
        &&& forall|i: int| 0 <= i < self.engines@.len() ==> #[trigger] self.engines@[i].wf()
        &&& self.meshes.wf()
        &&& self.suns.wf()
    }

    /// Something is left to discard: an engine has archetypes, or there are
    /// mesh or sun resources, or billboard slots. The sky image alone does
    /// not count.
    pub open spec fn spec_has_discardables(&self) -> bool {
        ||| exists|i: int| 0 <= i < self.engines().len() && #[trigger] self.engines()[i].ids().len() > 0
        ||| self.meshes().dom() != Set::<u64>::empty()
        ||| self.suns().dom() != Set::<u64>::empty()
        ||| self.billboards().len() > 0
    }

    /// Gathers the discardable resources of a device.
    pub fn new(
        engines: Vec<Archetypes>,
        meshes: ResourceTable<M>,
        suns: ResourceTable<S>,
        billboards: Vec<Option<I>>,
        sky_image: Option<I>,
    ) -> (r: Self)
        requires
            forall|i: int| 0 <= i < engines@.len() ==> #[trigger] engines@[i].wf(),
            meshes.wf(),
            suns.wf(),
        ensures
            r.wf(),
            r.engines() == engines@,
            r.meshes() == meshes@,
            r.suns() == suns@,
            r.billboards() == billboards@,
            r.sky_image() == sky_image,
    {
        Discardables { engines, meshes, suns, billboards, sky_image }
    }

    /// Whether anything is left to discard; see
    /// [`Self::spec_has_discardables`].
    pub fn has_discardables(&self) -> (r: bool)
        requires
            self.wf(),
        ensures
            r == self.spec_has_discardables(),
    {
        let mut i: usize = 0;
        while i < self.engines.len()
            invariant
                i <= self.engines@.len(),
                forall|j: int| 0 <= j < i ==> #[trigger] self.engines@[j].ids().len() == 0,
            decreases self.engines@.len() - i,
        {
            if self.engines[i].has_discardables() {
                assert(self.engines()[i as int].ids().len() > 0);
                return true;
            }
            i = i + 1;
        }
        !self.meshes.is_empty() || !self.suns.is_empty() || self.billboards.len() > 0
    }

    /// Takes every discardable resource out: the archetypes of every
    /// engine, the built mesh and sun resources (entries still being built
    /// are dropped), the billboard images and the sky image. Nothing is left
    /// to discard afterwards.
    pub fn clear_discardables(&mut self) -> (r: Released<M, S, I>)
        requires
            old(self).wf(),
        ensures
            final(self).wf(),
            !final(self).spec_has_discardables(),
            final(self).sky_image() is None,
            final(self).engines().len() == old(self).engines().len(),
            r.archetypes@ == engines_records(old(self).engines()),
            r.meshes@ == ready_values(old(self).stored_meshes()),
            r.suns@ == ready_values(old(self).stored_suns()),
            r.images@ == present_images(old(self).billboards()) + match old(self).sky_image() {
                Some(i) => seq![i],
                None => Seq::empty(),
            },
    {
        let ghost e0 = self.engines@;
        let ghost m0 = self.stored_meshes();
        let ghost s0 = self.stored_suns();
        let mut archetypes: Vec<ArchetypeRecord> = Vec::new();
        let mut kept: Vec<Archetypes> = Vec::new();
        assert(e0.take(0) =~= Seq::<Archetypes>::empty());
        while self.engines.len() > 0
            invariant
                kept@.len() + self.engines@.len() == e0.len(),
                self.engines@ == e0.skip(kept@.len() as int),
                archetypes@ == engines_records(e0.take(kept@.len() as int)),
                forall|i: int| 0 <= i < e0.len() ==> #[trigger] e0[i].wf(),
                self.meshes.wf(),
                self.suns.wf(),
                self.stored_meshes() == m0,
                self.stored_suns() == s0,
                self.billboards@ == old(self).billboards@,
                self.sky_image == old(self).sky_image,
                forall|j: int| 0 <= j < kept@.len() ==> (#[trigger] kept@[j]).wf() && kept@[j].ids().len() == 0,
            decreases self.engines@.len(),
        {
            let k = kept.len();
            let mut a = self.engines.remove(0);
            proof {
                assert(a == e0[k as int]);
                assert(self.engines@ =~= e0.skip(k + 1));
            }
            let records = a.discard();
            let ghost before = archetypes@;
            let mut j: usize = 0;
            let mut records = records;
            let ghost rs = records@;
            let total = records.len();
            while records.len() > 0
                invariant
                    rs.len() == total,
                    j + records@.len() == rs.len(),
                    records@ == rs.skip(j as int),
                    archetypes@ == before + rs.take(j as int),
                decreases records@.len(),
            {
                let x = records.remove(0);
                proof {
                    assert(x == rs[j as int]);
                    assert(records@ =~= rs.skip(j + 1));
                    assert(rs.take(j + 1) =~= rs.take(j as int).push(x));
                }
                archetypes.push(x);
                j = j + 1;
            }
            proof {
                assert(rs.take(rs.len() as int) =~= rs);
                let t = e0.take(k + 1);
                assert(t.drop_last() =~= e0.take(k as int));
                assert(t.last() == e0[k as int]);
            }
            kept.push(a);
        }
        self.engines = kept;
        proof {
            assert(e0.take(e0.len() as int) =~= e0);
        }
        let meshes = self.meshes.drain_ready();
        let suns = self.suns.drain_ready();
        let mut images: Vec<I> = Vec::new();
        let ghost b0 = self.billboards@;
        let mut slots = Vec::new();
        std::mem::swap(&mut slots, &mut self.billboards);
        let mut n: usize = 0;
        let count = slots.len();
        assert(b0.take(0) =~= Seq::<Option<I>>::empty());
        while slots.len() > 0
            invariant
                b0.len() == count,
                n + slots@.len() == b0.len(),
                slots@ == b0.skip(n as int),
                images@ == present_images(b0.take(n as int)),
            decreases slots@.len(),
        {
            let slot = slots.remove(0);
            proof {
                assert(slot == b0[n as int]);
                assert(slots@ =~= b0.skip(n + 1));
                let t = b0.take(n + 1);
                assert(t.drop_last() =~= b0.take(n as int));
                assert(t.last() == slot);
            }
            match slot {
                Some(i) => images.push(i),
                None => {},
            }
            n = n + 1;
        }
        assert(b0.take(b0.len() as int) =~= b0);
        let ghost before_sky = images@;
        match self.sky_image.take() {
            Some(i) => images.push(i),
            None => {},
        }
        proof {
            assert(self.meshes@.dom() =~= Set::<u64>::empty());
            assert(self.suns@.dom() =~= Set::<u64>::empty());
            assert forall|i: int| 0 <= i < self.engines().len() implies #[trigger] self.engines()[i].ids().len()
                == 0 by {
                assert(self.engines()[i] == self.engines@[i]);
            }
        }
        Released { archetypes, meshes, suns, images }
    }
}

} // verus!
