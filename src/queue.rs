//! A first-in, first-out queue of raw samples held in a vector.
use vstd::prelude::*;

verus! {

/// Raw samples kept in the order in which they were enqueued.
#[derive(Debug)]
pub struct SensorOutputQueue {
    pub items: Vec<Vec<u32>>,
}

impl View for SensorOutputQueue {
    type V = Seq<Seq<u32>>;

    /// The samples, front first.
    open spec fn view(&self) -> Seq<Seq<u32>> {
        self.items@.map_values(|v: Vec<u32>| v@)
    }
}

impl SensorOutputQueue {
    /// An empty queue.
    pub fn new() -> (r: SensorOutputQueue)
        ensures
            r@ == Seq::<Seq<u32>>::empty(),
    {
        let r = SensorOutputQueue { items: Vec::new() };
        assert(r@ =~= Seq::<Seq<u32>>::empty());
        r
    }

    /// Adds `item` at the back.
    pub fn enqueue(&mut self, item: Vec<u32>)
        ensures
            final(self)@ == old(self)@.push(item@),
    {
        self.items.push(item);
        assert(self@ =~= old(self)@.push(item@));
    }

    /// Removes and returns the front sample, or `None` when the queue is empty.
    pub fn dequeue(&mut self) -> (r: Option<Vec<u32>>)
        ensures
            old(self)@.len() == 0 ==> r is None && final(self)@ == old(self)@,
            old(self)@.len() > 0 ==> r is Some && r->Some_0@ == old(self)@[0] && final(self)@
                == old(self)@.drop_first(),
    {
        if self.items.is_empty() {
            None
        } else {
            let front = self.items.remove(0);
            assert(self@ =~= old(self)@.drop_first());
            Some(front)
        }
    }

    /// A copy of the sample at `index`, or `None` past the back; the queue is
    /// left as it was.
    pub fn get(&mut self, index: usize) -> (r: Option<Vec<u32>>)
        ensures
            final(self)@ == old(self)@,
            index < old(self)@.len() ==> r is Some && r->Some_0@ == old(self)@[index as int],
            index >= old(self)@.len() ==> r is None,
    {
        if index < self.items.len() {
            let copy = self.items[index].clone();
            assert(copy@ =~= self.items@[index as int]@);
            Some(copy)
        } else {
            None
        }
    }

    /// The samples, front first.
    pub fn get_items(&self) -> (r: &[Vec<u32>])
        ensures
            r@ == self.items@,
    {
        self.items.as_slice()
    }

    /// Whether no sample is queued.
    pub fn is_empty(&self) -> (r: bool)
        ensures
            r == (self@.len() == 0),
    {
        self.items.is_empty()
    }

    /// The number of queued samples.
    pub fn size(&self) -> (r: usize)
        ensures
            r == self@.len(),
    {
        self.items.len()
    }
}

} // verus!
