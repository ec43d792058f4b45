//! The device's queues: one queue (index 0) per distinct queue family, and
//! which of them serves graphics, compute and transfer work.
use vstd::prelude::*;

verus! {

/// Queues a device holds at most.
pub const MAX_QUEUE_COUNT: usize = 4;

/// A device queue: its handle, its index in its family, and its family.
#[derive(Clone, Copy, Debug, PartialEq, Eq, Structural)]
pub struct Queue {
    pub handle: u64,
    pub index: u32,
    pub family_index: u32,
}

/// Index of the first queue of `family` in `queues`, if any.
pub open spec fn first_of_family(queues: Seq<Queue>, family: u32) -> Option<int> {
    if exists|i: int| 0 <= i < queues.len() && queues[i].family_index == family {
        Some(
            choose|i: int|
                0 <= i < queues.len() && queues[i].family_index == family && forall|j: int|
                    0 <= j < i ==> queues[j].family_index != family,
        )
    } else {
        None
    }
}

/// The queues and the role of each.
pub struct Queues {
    queues: Vec<Queue>,
    graphics: Option<usize>,
    compute: Option<usize>,
    transfer: Option<usize>,
}

/// Position of the first queue of `family`.
fn find_family(queues: &Vec<Queue>, family: u32) -> (r: Option<usize>)
    ensures
        r is None ==> forall|i: int| 0 <= i < queues@.len() ==> queues@[i].family_index != family,
        r matches Some(i) ==> i < queues@.len() && queues@[i as int].family_index == family && forall|j: int|
            0 <= j < i ==> queues@[j].family_index != family,
{
    let mut i: usize = 0;
    while i < queues.len()
        invariant
            0 <= i <= queues@.len(),
            forall|j: int| 0 <= j < i ==> queues@[j].family_index != family,
        decreases queues@.len() - i,
    {
        if queues[i].family_index == family {
            return Some(i);
        }
        i = i + 1;
    }
    None
}

proof fn lemma_first_of_family(queues: Seq<Queue>, family: u32, r: Option<usize>)
    requires
        r is None ==> forall|i: int| 0 <= i < queues.len() ==> queues[i].family_index != family,
        r matches Some(i) ==> i < queues.len() && queues[i as int].family_index == family && forall|j: int|
            0 <= j < i ==> queues[j].family_index != family,
    ensures
        first_of_family(queues, family) == (match r {
            Some(i) => Some(i as int),
            None => None::<int>,
        }),
{
    match r {
        Some(i) => {
            assert(queues[i as int].family_index == family);
            let c = choose|c: int|
                0 <= c < queues.len() && queues[c].family_index == family && forall|j: int|
                    0 <= j < c ==> queues[j].family_index != family;
            assert(0 <= c < queues.len() && queues[c].family_index == family);
            if c < i {
                assert(queues[c].family_index != family);
            }
            if c > i {
                assert(queues[i as int].family_index != family);
            }
        },
        None => {},
    }
}

impl Queues {
    /// The queues, in creation order.
    pub closed spec fn all(&self) -> Seq<Queue> {
        self.queues@
    }

    /// Position of the graphics queue.
    pub closed spec fn graphics_index(&self) -> Option<usize> {
        self.graphics
    }

    /// Position of the compute queue.
    pub closed spec fn compute_index(&self) -> Option<usize> {
        self.compute
    }

    /// Position of the transfer queue.
    pub closed spec fn transfer_index(&self) -> Option<usize> {
        self.transfer
    }

    /// Assigns each role the first queue of its family.
    pub fn from_queues(queues: Vec<Queue>, graphics_family: u32, compute_family: u32, transfer_family: u32) -> (r:
        Self)
        requires
            queues@.len() <= MAX_QUEUE_COUNT,
        ensures
            r.all() == queues@,
            r.graphics_index() matches Some(i) ==> first_of_family(queues@, graphics_family) == Some(i as int),
            r.graphics_index() is None ==> first_of_family(queues@, graphics_family) is None,
            r.compute_index() matches Some(i) ==> first_of_family(queues@, compute_family) == Some(i as int),
            r.compute_index() is None ==> first_of_family(queues@, compute_family) is None,
            r.transfer_index() matches Some(i) ==> first_of_family(queues@, transfer_family) == Some(i as int),
            r.transfer_index() is None ==> first_of_family(queues@, transfer_family) is None,
    {
        let graphics = find_family(&queues, graphics_family);
        let compute = find_family(&queues, compute_family);
        let transfer = find_family(&queues, transfer_family);
        proof {
            lemma_first_of_family(queues@, graphics_family, graphics);
            lemma_first_of_family(queues@, compute_family, compute);
            lemma_first_of_family(queues@, transfer_family, transfer);
        }
        Queues { queues, graphics, compute, transfer }
    }

    /// The graphics queue.
    pub fn get_graphics_queue(&self) -> (r: Queue)
        requires
            self.graphics_index() is Some,
            self.graphics_index().unwrap() < self.all().len(),
        ensures
            r == self.all()[self.graphics_index().unwrap() as int],
    {
        match self.graphics {
            Some(i) => self.queues[i],
            None => {
                assert(false);
                self.queues[0]
            },
        }
    }

    /// The compute queue.
    pub fn get_compute_queue(&self) -> (r: Queue)
        requires
            self.compute_index() is Some,
            self.compute_index().unwrap() < self.all().len(),
        ensures
            r == self.all()[self.compute_index().unwrap() as int],
    {
        match self.compute {
            Some(i) => self.queues[i],
            None => {
                assert(false);
                self.queues[0]
            },
        }
    }

    /// The transfer queue.
    pub fn get_transfer_queue(&self) -> (r: Queue)
        requires
            self.transfer_index() is Some,
            self.transfer_index().unwrap() < self.all().len(),
        ensures
            r == self.all()[self.transfer_index().unwrap() as int],
    {
        match self.transfer {
            Some(i) => self.queues[i],
            None => {
                assert(false);
                self.queues[0]
            },
        }
    }
}

} // verus!
