//! The sample source: an unbounded concurrent queue of raw samples from
//! which the acquiring stage pops until it is exhausted.
use crossbeam_queue::SegQueue;
use vstd::prelude::*;

verus! {

/// The concurrent queue that holds the samples, opaque to proofs.
#[verifier::external_type_specification]
#[verifier::external_body]
#[verifier::reject_recursive_types(T)]
pub struct ExSegQueue<T>(SegQueue<T>);

/// The samples that a source holds, front first.
pub uninterp spec fn queued_samples(q: SegQueue<Vec<u32>>) -> Seq<Seq<u32>>;

/// Relies on `SegQueue::new`: a new queue holds nothing.
#[verifier::external_body]
fn empty_queue() -> (q: SegQueue<Vec<u32>>)
    ensures
        queued_samples(q) == Seq::<Seq<u32>>::empty(),
{
    SegQueue::new()
}

/// Relies on `SegQueue::push_mut`: with exclusive access the value is placed
/// at the back.
#[verifier::external_body]
fn push_back(q: &mut SegQueue<Vec<u32>>, sample: Vec<u32>)
    ensures
        queued_samples(*final(q)) == queued_samples(*old(q)).push(sample@),
{
    q.push_mut(sample)
}

/// Relies on `SegQueue::pop_mut`: with exclusive access it returns the front
/// value and removes it, or `None` when the queue is empty.
#[verifier::external_body]
pub(crate) fn pop_front(q: &mut SegQueue<Vec<u32>>) -> (r: Option<Vec<u32>>)
    ensures
        queued_samples(*old(q)).len() == 0 ==> r is None && queued_samples(*final(q))
            == queued_samples(*old(q)),
        queued_samples(*old(q)).len() > 0 ==> r is Some && r->Some_0@ == queued_samples(
            *old(q),
        )[0] && queued_samples(*final(q)) == queued_samples(*old(q)).drop_first(),
{
    q.pop_mut()
}

/// A source pre-loaded with `samples`, in order.
pub fn source_from_samples(samples: &[Vec<u32>]) -> (q: SegQueue<Vec<u32>>)
    ensures
        queued_samples(q) == samples@.map_values(|v: Vec<u32>| v@),
{
    let mut q = empty_queue();
    let mut i: usize = 0;
    while i < samples.len()
        invariant
            i <= samples@.len(),
            queued_samples(q) == samples@.subrange(0, i as int).map_values(|v: Vec<u32>| v@),
        decreases samples@.len() - i,
    {
        let sample = samples[i].clone();
        assert(sample@ =~= samples@[i as int]@);
        push_back(&mut q, sample);
        assert(samples@.subrange(0, i + 1).map_values(|v: Vec<u32>| v@) =~= samples@.subrange(
            0,
            i as int,
        ).map_values(|v: Vec<u32>| v@).push(samples@[i as int]@));
        i = i + 1;
    }
    assert(samples@.subrange(0, i as int) =~= samples@);
    q
}

} // verus!
