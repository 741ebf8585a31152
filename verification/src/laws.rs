use vstd::prelude::*;
use crate::store::{Entry, decay, decay_entry, has_key, is_expired, last_index_of, lookup,
    lemma_last_index_of_props, sweep};

verus! {

/// A lookup succeeds exactly on the keys the store holds: `lookup` returns
/// an entry if and only if some entry has the key.
pub proof fn lemma_lookup_some_iff_has_key(s: Seq<Entry>, k: Seq<char>)
    ensures
        lookup(s, k) is Some <==> has_key(s, k),
{
    lemma_last_index_of_props(s, k);
}

/// Setting an entry and immediately looking its key up observes exactly that
/// entry: the fresh entry sits at the highest index, so it wins the
/// highest-index-wins tie-break whatever the store held before.
pub proof fn lemma_set_then_get(s: Seq<Entry>, e: Entry)
    ensures
        lookup(s.push(e), e.key@) == Some(e),
{
    assert(s.push(e).last() == e);
    assert(last_index_of(s.push(e), e.key@) == s.len());
}

/// Deleting a key that no entry holds finds nothing: the store is then
/// reported `KeyNotFound` and, by `delete`'s contract, left unchanged.
pub proof fn lemma_delete_absent_key(s: Seq<Entry>, k: Seq<char>)
    requires
        !has_key(s, k),
    ensures
        lookup(s, k) is None,
{
    lemma_last_index_of_props(s, k);
}

/// A sweep keeps every entry that is not expired: the entry at any such
/// index is still present afterwards.
pub proof fn lemma_sweep_keeps(s: Seq<Entry>, i: int)
    requires
        0 <= i < s.len(),
        !is_expired(s[i]),
    ensures
        sweep(s).contains(s[i]),
    decreases s.len(),
{
    if i == s.len() - 1 {
        assert(sweep(s) == sweep(s.drop_last()).push(s.last()));
        assert(sweep(s)[sweep(s).len() - 1] == s[i]);
    } else {
        assert(s.drop_last()[i] == s[i]);
        lemma_sweep_keeps(s.drop_last(), i);
        let t = sweep(s.drop_last());
        let j = choose|j: int| 0 <= j < t.len() && t[j] == s[i];
        if is_expired(s.last()) {
            assert(sweep(s) == t);
        } else {
            assert(sweep(s) == t.push(s.last()));
            assert(sweep(s)[j] == s[i]);
        }
    }
}

/// An entry without a time-to-live survives any advance of the clock: the
/// decay leaves it untouched and the sweeper never removes it. Since it is
/// still present unchanged, with no time-to-live, the same holds after every
/// later `wait`, however many there are.
pub proof fn lemma_immortal_never_swept(s: Seq<Entry>, secs: u64, e: Entry)
    requires
        s.contains(e),
        e.ttl is None,
    ensures
        decay(s, secs).contains(e),
        sweep(decay(s, secs)).contains(e),
{
    let i = choose|i: int| 0 <= i < s.len() && s[i] == e;
    assert(decay(s, secs)[i] == decay_entry(s[i], secs));
    assert(decay_entry(e, secs) == e);
    lemma_sweep_keeps(decay(s, secs), i);
}

/// Nothing expired is left after a sweep.
pub proof fn lemma_sweep_leaves_no_expired(s: Seq<Entry>)
    ensures
        forall|j: int| 0 <= j < sweep(s).len() ==> !is_expired(#[trigger] sweep(s)[j]),
    decreases s.len(),
{
    if s.len() > 0 {
        lemma_sweep_leaves_no_expired(s.drop_last());
        let t = sweep(s.drop_last());
        if !is_expired(s.last()) {
            assert(sweep(s) == t.push(s.last()));
            assert(forall|j: int| 0 <= j < t.len() ==> t.push(s.last())[j] == t[j]);
            assert(t.push(s.last())[t.len() as int] == s.last());
        }
    }
}

/// Sweeping a store with no expired entry changes nothing.
pub proof fn lemma_sweep_of_unexpired(s: Seq<Entry>)
    requires
        forall|j: int| 0 <= j < s.len() ==> !is_expired(#[trigger] s[j]),
    ensures
        sweep(s) == s,
    decreases s.len(),
{
    if s.len() == 0 {
        assert(sweep(s) =~= s);
    } else {
        assert(forall|j: int| 0 <= j < s.len() - 1 ==> s.drop_last()[j] == s[j]);
        lemma_sweep_of_unexpired(s.drop_last());
        assert(sweep(s) == s.drop_last().push(s.last()));
        assert(s.drop_last().push(s.last()) =~= s);
    }
}

/// The sweeper is idempotent: with no `wait` or `set` in between, a second
/// sweep is a no-op.
pub proof fn lemma_sweep_idempotent(s: Seq<Entry>)
    ensures
        sweep(sweep(s)) == sweep(s),
{
    lemma_sweep_leaves_no_expired(s);
    lemma_sweep_of_unexpired(sweep(s));
}

} // verus!
