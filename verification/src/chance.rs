use rand::rngs::ThreadRng;
use rand::seq::SliceRandom;
use vstd::prelude::*;

verus! {

/// `rand`'s generator that is local to the thread; nothing is known of what it holds.
#[verifier::external_type_specification]
#[verifier::external_body]
pub struct ExThreadRng(ThreadRng);

/// `rand::thread_rng` hands out the generator of the current thread, which
/// is seeded by the system on first use, and fails only where the system
/// has no entropy to give. Nothing is claimed of it.
pub assume_specification[ rand::thread_rng ]() -> (rng: ThreadRng);

/// `SliceRandom::shuffle` of `rand` on the items of a vector. It reorders
/// the items by swapping pairs of them, so the vector holds the same items
/// as before, each as often as before; in which order is left open.
#[verifier::external_body]
pub(crate) fn shuffle_items<T>(items: &mut Vec<T>, rng: &mut ThreadRng)
    ensures
        final(items)@.to_multiset() == old(items)@.to_multiset(),
{
    items.shuffle(rng);
}

/// Shuffles `items` with the generator of the current thread.
pub fn shuffle<T>(items: &mut Vec<T>)
    ensures
        final(items)@.to_multiset() == old(items)@.to_multiset(),
        final(items)@.len() == old(items)@.len(),
{
    let mut rng = rand::thread_rng();
    shuffle_items(items, &mut rng);
    proof {
        old(items)@.to_multiset_ensures();
        final(items)@.to_multiset_ensures();
    }
}

} // verus!
