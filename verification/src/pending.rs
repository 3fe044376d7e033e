//! The table of pending requests, held in a `sharded_slab::Slab`.
//!
//! Each request that waits for its response is registered under a key that
//! the slab hands out; the value stored under the key is the caller's token
//! for the waiter (in the asynchronous client, the number under which it keeps
//! the one-shot sender that completes the request).
//!
//! Keys come back from the responder, so a key may name a slot that holds
//! nothing. The slab's `take` and `remove` must not be given such a key: on a
//! vacant slot whose generation matches they release the slot a second time
//! and corrupt the slab's free list. So every removal here first reads the
//! key with `get`, which checks that the slot holds a value at that
//! generation, and removes only a key that is present, with `remove`.
use vstd::prelude::*;

use sharded_slab::Slab;

verus! {

/// A `sharded_slab::Slab` of tokens, with the default configuration.
///
/// The slab's configuration parameter is bounded by a trait of the outside
/// crate, so the slab itself cannot appear in a contract; it is held here and
/// reached only through the functions below. Nothing here calls `Slab::take`:
/// values leave the slab only through `Slab::remove`, which leaves the
/// emptied slot in a state that `Slab::get` reports as vacant.
#[verifier::external_body]
pub struct TokenSlab {
    slab: Slab<u64>,
}

/// What a slab of tokens holds: for each key under which the slab currently
/// holds a value, that value.
pub uninterp spec fn slab_entries(slab: TokenSlab) -> Map<usize, u64>;

/// The table of a slab that holds nothing.
pub open spec fn no_entries() -> Map<usize, u64> {
    Map::empty()
}

/// How many values the shard of any one thread can hold, at least, in a slab
/// with the default configuration: its pages hold 32, 64, 128, ... slots, and
/// it has at least 16 of them (`MAX_PAGES` is half the pointer width), so
/// `32 * (2^16 - 1)` slots.
pub open spec fn guaranteed_capacity() -> nat {
    2_097_120
}

/// `Slab::new`: a new slab holds nothing.
#[verifier::external_body]
pub(crate) fn slab_new() -> (fresh: TokenSlab)
    ensures
        slab_entries(fresh) == no_entries(),
{
    TokenSlab { slab: Slab::new() }
}

/// `Slab::insert`: on `Some(key)`, the key was vacant and now holds the value;
/// on `None` (the shard of the calling thread is full) nothing changed. A
/// shard holds no more values than the whole slab, and a removed value frees
/// its slot at once (no guard outlives these functions), so the insertion
/// succeeds while the slab holds fewer values than `guaranteed_capacity()`.
/// `insert` panics when more threads than the configured maximum have used
/// slabs in the process; which key is handed out depends on the calling
/// thread, and is not stated.
#[verifier::external_body]
pub(crate) fn slab_insert(slab: &mut TokenSlab, value: u64) -> (key: Option<usize>)
    ensures
        slab_entries(*old(slab)).dom().finite() && slab_entries(*old(slab)).len()
            < guaranteed_capacity() ==> key is Some,
        match key {
            Some(k) => {
                &&& !slab_entries(*old(slab)).contains_key(k)
                &&& slab_entries(*final(slab)) == slab_entries(*old(slab)).insert(k, value)
            },
            None => slab_entries(*final(slab)) == slab_entries(*old(slab)),
        },
{
    slab.slab.insert(value)
}

/// `Slab::get`, with the value copied out of the returned entry (whose guard
/// is dropped at once): the value under the key, or `None` when the slab
/// holds no value under it.
#[verifier::external_body]
pub(crate) fn slab_get(slab: &TokenSlab, key: usize) -> (value: Option<u64>)
    ensures
        value == (if slab_entries(*slab).contains_key(key) {
            Some(slab_entries(*slab)[key])
        } else {
            None::<u64>
        }),
{
    slab.slab.get(key).map(|entry| *entry)
}

/// `Slab::remove`, on a key under which the slab holds a value: the value is
/// removed (no guard to it is alive, so at once) and `true` is returned.
#[verifier::external_body]
pub(crate) fn slab_remove(slab: &mut TokenSlab, key: usize) -> (removed: bool)
    requires
        slab_entries(*old(slab)).contains_key(key),
    ensures
        removed,
        slab_entries(*final(slab)) == slab_entries(*old(slab)).remove(key),
{
    slab.slab.remove(key)
}

/// Takes the value under `key` out of the slab, if it holds one.
pub(crate) fn take_entry(slab: &mut TokenSlab, key: usize) -> (value: Option<u64>)
    ensures
        value == (if slab_entries(*old(slab)).contains_key(key) {
            Some(slab_entries(*old(slab))[key])
        } else {
            None::<u64>
        }),
        slab_entries(*final(slab)) == slab_entries(*old(slab)).remove(key),
{
    let value = slab_get(slab, key);
    if value.is_some() {
        slab_remove(slab, key);
    } else {
        assert(slab_entries(*slab).remove(key) =~= slab_entries(*slab));
    }
    value
}

/// Forgets the value under `key`, returning whether the slab held one.
pub(crate) fn withdraw_entry(slab: &mut TokenSlab, key: usize) -> (removed: bool)
    ensures
        removed == slab_entries(*old(slab)).contains_key(key),
        slab_entries(*final(slab)) == slab_entries(*old(slab)).remove(key),
{
    take_entry(slab, key).is_some()
}

} // verus!
