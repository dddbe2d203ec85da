//! Guarantees that hold across operations, each stated over the bucket
//! model and proved once for every reachable state.

use vstd::prelude::*;

use crate::errors::Error;
use crate::errors::IoKind;
use crate::model::BucketState;

verus! {

/// Every operation keeps the bucket invariant: no name is ever both a
/// file and a sub-namespace.
pub proof fn lemma_inv_preserved(
    m: BucketState,
    key: Seq<char>,
    value: Seq<u8>,
    sub: Seq<char>,
    n: usize,
)
    requires
        m.inv(),
    ensures
        m.with_max(n).inv(),
        m.put_state(key, value).inv(),
        m.remove_state(key).inv(),
        m.clear_state().inv(),
        m.put_within_state(key, value, sub).inv(),
        m.remove_within_state(key, sub).inv(),
        m.clear_within_state(sub).inv(),
{
}

/// Round trip: when a store succeeds, a load of the same key returns
/// exactly the stored bytes.
pub proof fn lemma_put_then_get(m: BucketState, key: Seq<char>, value: Seq<u8>)
    requires
        m.inv(),
        m.put_result(key) is Ok,
    ensures
        m.put_state(key, value).get_result(key) == Ok::<Seq<u8>, Error>(value),
{
}

/// A probe finds a key right after a successful store of it.
pub proof fn lemma_exists_after_put(m: BucketState, key: Seq<char>, value: Seq<u8>)
    requires
        m.inv(),
        m.put_result(key) is Ok,
    ensures
        m.put_state(key, value).exists_result(key),
{
}

/// A probe misses a key right after a successful removal of it.
pub proof fn lemma_gone_after_remove(m: BucketState, key: Seq<char>)
    requires
        m.inv(),
        m.remove_result(key) is Ok,
    ensures
        !m.remove_state(key).exists_result(key),
{
}

/// With a name cap of `n` set, a longer key is stored under its first `n`
/// characters: the listing gains the cut name, and the full key names no
/// entry where it named none before.
pub proof fn lemma_truncated_listing(m: BucketState, key: Seq<char>, value: Seq<u8>, n: usize)
    requires
        m.inv(),
        m.max_name == Some(n),
        n < key.len(),
        m.put_result(key) is Ok,
        !m.entry_names().contains(key),
    ensures
        m.put_state(key, value).entry_names().contains(key.take(n as int)),
        !m.put_state(key, value).entry_names().contains(key),
{
    assert(key.take(n as int).len() == n);
}

/// Listing completeness, one store at a time: a successful store adds
/// exactly the stored name to the listed entries — no duplicate appears
/// and nothing else changes.
pub proof fn lemma_names_after_put(m: BucketState, key: Seq<char>, value: Seq<u8>)
    requires
        m.inv(),
        m.put_result(key) is Ok,
    ensures
        m.put_state(key, value).entry_names() == m.entry_names().insert(m.maxified(key)),
{
    assert(m.put_state(key, value).entry_names() =~= m.entry_names().insert(m.maxified(key)));
}

/// Sub-namespace isolation: bytes stored one level down come back from a
/// scoped load, while an un-scoped load of the same key still misses at
/// top level wherever it missed before.
pub proof fn lemma_within_isolation(
    m: BucketState,
    key: Seq<char>,
    value: Seq<u8>,
    sub: Seq<char>,
)
    requires
        m.inv(),
        m.put_within_result(key, sub) is Ok,
        !m.files.contains_key(m.maxified(key)),
        !m.subs.contains_key(m.maxified(key)),
        m.maxified(key) != sub,
    ensures
        m.put_within_state(key, value, sub).get_within_result(key, sub) == Ok::<
            Seq<u8>,
            Error,
        >(value),
        m.put_within_state(key, value, sub).get_result(key) == Err::<Seq<u8>, Error>(
            Error::Io(IoKind::NotFound),
        ),
{
}

/// After a clear, the bucket directory and everything in it are gone:
/// nothing is listed or found at either level, every load misses, and a
/// second clear itself fails for want of the directory.
pub proof fn lemma_clear_all_gone(m: BucketState, key: Seq<char>, sub: Seq<char>)
    requires
        m.inv(),
        m.clear_result() is Ok,
    ensures
        !m.clear_state().present,
        m.clear_state().entry_names() == Set::<Seq<char>>::empty(),
        !m.clear_state().list_ok(),
        !m.clear_state().exists_result(key),
        m.clear_state().get_result(key) == Err::<Seq<u8>, Error>(Error::Io(IoKind::NotFound)),
        !m.clear_state().exists_within_result(key, sub),
        !m.clear_state().list_within_ok(sub),
        m.clear_state().clear_result() == Err::<(), Error>(Error::Io(IoKind::NotFound)),
{
    assert(m.clear_state().entry_names() =~= Set::<Seq<char>>::empty());
}

} // verus!
