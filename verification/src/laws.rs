//! Laws of the store capability, stated over the contents map that every
//! store operation's contract speaks of.

use vstd::prelude::*;

verus! {

/// Round trip: writing a value under a key and then reading that key gives
/// the value back, whatever the store held before. `put_raw` leaves
/// `contents` as the insertion and `get_raw` returns what `contents` holds,
/// so this holds of a bare in-memory store and through the cache decorator
/// alike.
pub proof fn lemma_put_then_get(m: Map<Seq<char>, Seq<u8>>, k: Seq<char>, v: Seq<u8>)
    ensures
        m.insert(k, v).contains_key(k),
        m.insert(k, v)[k] == v,
{
}

/// Remove idempotence: removing an absent key leaves the contents exactly as
/// they were, and the key stays absent, so repeating the removal keeps
/// returning false and changes nothing.
pub proof fn lemma_remove_absent(m: Map<Seq<char>, Seq<u8>>, k: Seq<char>)
    requires
        !m.contains_key(k),
    ensures
        m.remove(k) == m,
        !m.remove(k).contains_key(k),
{
    assert(m.remove(k) =~= m);
}

} // verus!
