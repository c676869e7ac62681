//! The opaque token codec.
//!
//! A delivery token crosses the engine boundary as an untyped handle: a
//! correlation identifier. `encode` consumes the token, stores it under a
//! fresh identifier and hands the identifier out; `decode` looks the
//! identifier up, removes the entry and reconstructs the token. Because an
//! entry is removed the moment it is decoded, a handle decodes at most
//! once: the second decode of the same handle finds nothing. Identifiers
//! are never reused, so a stale handle can never alias a live token.

use vstd::prelude::*;

verus! {

struct RegistryEntry<T> {
    id: u64,
    token: T,
}

/// A correlation registry: the codec's store of encoded, not-yet-decoded
/// tokens. Its view is the map from live handles to their tokens.
pub struct TokenRegistry<T> {
    entries: Vec<RegistryEntry<T>>,
    next: u64,
    map: Ghost<Map<u64, T>>,
}

impl<T> TokenRegistry<T> {
    /// The map from live (encoded, not yet decoded) handles to tokens.
    pub closed spec fn view(self) -> Map<u64, T> {
        self.map@
    }

    /// The next handle to be issued; every handle ever issued is below it.
    pub closed spec fn spec_next(self) -> u64 {
        self.next
    }

    /// Whether the registry can still issue a fresh handle.
    pub open spec fn handles_available(self) -> bool {
        self.spec_next() < u64::MAX
    }

    /// Well-formedness: entries carry distinct handles, all below `next`,
    /// and the ghost map mirrors the entries exactly.
    pub closed spec fn wf(self) -> bool {
        &&& forall|i: int, j: int|
            0 <= i < j < self.entries@.len() ==> self.entries@[i].id != self.entries@[j].id
        &&& forall|i: int|
            0 <= i < self.entries@.len() ==> self.entries@[i].id < self.next
        &&& forall|i: int|
            0 <= i < self.entries@.len() ==> {
                &&& self.map@.contains_key(#[trigger] self.entries@[i].id)
                &&& self.map@[self.entries@[i].id] == self.entries@[i].token
            }
        &&& forall|k: u64|
            self.map@.contains_key(k) ==> exists|i: int|
                0 <= i < self.entries@.len() && (#[trigger] self.entries@[i].id) == k
    }

    /// Creates an empty registry: no live handle, handles issued from zero.
    pub fn new() -> (r: Self)
        ensures
            r.wf(),
            r@ == Map::<u64, T>::empty(),
            r.spec_next() == 0,
    {
        TokenRegistry { entries: Vec::new(), next: 0, map: Ghost(Map::empty()) }
    }

    /// Encodes a token: stores it under a fresh handle and returns the
    /// handle. The handle was not live before the call, and afterwards the
    /// registry holds exactly the old entries plus this one.
    pub fn encode(&mut self, token: T) -> (id: u64)
        requires
            old(self).wf(),
            old(self).handles_available(),
        ensures
            final(self).wf(),
            id == old(self).spec_next(),
            !old(self)@.contains_key(id),
            final(self)@ == old(self)@.insert(id, token),
            final(self).spec_next() == old(self).spec_next() + 1,
    {
        let id = self.next;
        proof {
            if self.map@.contains_key(id) {
                let i = choose|i: int|
                    0 <= i < self.entries@.len() && (#[trigger] self.entries@[i].id) == id;
                assert(self.entries@[i].id < self.next);
            }
        }
        self.entries.push(RegistryEntry { id, token });
        self.next = self.next + 1;
        proof {
            self.map@ = self.map@.insert(id, self.entries@.last().token);
        }
        assert forall|k: u64| self.map@.contains_key(k) implies exists|i: int|
            0 <= i < self.entries@.len() && (#[trigger] self.entries@[i].id) == k by {
            if k == id {
                assert(self.entries@[self.entries@.len() - 1].id == k);
            } else {
                let i = choose|i: int|
                    0 <= i < old(self).entries@.len() && (#[trigger] old(self).entries@[i].id)
                        == k;
                assert(self.entries@[i].id == k);
            }
        }
        id
    }

    /// Decodes a handle: if it is live, removes its entry and returns the
    /// original token; a handle that is not live (never issued, or already
    /// decoded) yields nothing and leaves the registry unchanged. Decoding
    /// therefore succeeds at most once per encoded handle.
    pub fn decode(&mut self, id: u64) -> (t: Option<T>)
        requires
            old(self).wf(),
        ensures
            final(self).wf(),
            final(self).spec_next() == old(self).spec_next(),
            old(self)@.contains_key(id) ==> {
                &&& t == Some(old(self)@[id])
                &&& final(self)@ == old(self)@.remove(id)
            },
            !old(self)@.contains_key(id) ==> {
                &&& t is None
                &&& final(self)@ == old(self)@
                &&& *final(self) == *old(self)
            },
    {
        let n = self.entries.len();
        let mut i: usize = 0;
        while i < n
            invariant
                *self == *old(self),
                self.wf(),
                n == self.entries@.len(),
                i <= n,
                forall|j: int| 0 <= j < i ==> self.entries@[j].id != id,
            decreases n - i,
        {
            if self.entries[i].id == id {
                let entry = self.entries.remove(i);
                proof {
                    self.map@ = self.map@.remove(id);
                }
                proof {
                    let pre = *old(self);
                    assert(pre.map@.contains_key(id) && pre.map@[id] == entry.token) by {
                        assert(pre.entries@[i as int].id == id);
                    }
                    assert(self.entries@ == pre.entries@.remove(i as int));
                    assert forall|k: u64| self.map@.contains_key(k) implies exists|m: int|
                        0 <= m < self.entries@.len() && (#[trigger] self.entries@[m].id) == k by {
                        let j = choose|j: int|
                            0 <= j < pre.entries@.len() && (#[trigger] pre.entries@[j].id) == k;
                        if j < i {
                            assert(self.entries@[j].id == k);
                        } else {
                            assert(pre.entries@[j].id != id);
                            assert(self.entries@[j - 1].id == k);
                        }
                    }
                }
                return Some(entry.token);
            }
            i = i + 1;
        }
        proof {
            if self.map@.contains_key(id) {
                let j = choose|j: int|
                    0 <= j < self.entries@.len() && (#[trigger] self.entries@[j].id) == id;
                assert(self.entries@[j].id != id);
            }
        }
        None
    }

    /// Reports whether the registry can still issue a fresh handle; false
    /// only once the whole handle space has been spent.
    pub fn can_encode(&self) -> (b: bool)
        ensures
            b == self.handles_available(),
    {
        self.next < u64::MAX
    }
}

/// Law: the codec round-trips. Encoding a token and decoding the returned
/// handle on the resulting registry yields that very token and restores
/// the registry's live map; a second decode of the same handle then finds
/// nothing. This is stated over the contracts of `encode` and `decode`:
/// after `encode` the handle maps to the token, so the first `decode`
/// returns it and removes the entry, and the handle is no longer live.
pub proof fn lemma_codec_round_trip<T>(pre: Map<u64, T>, id: u64, token: T)
    requires
        !pre.contains_key(id),
    ensures
        pre.insert(id, token)[id] == token,
        pre.insert(id, token).remove(id) == pre,
{
    assert(pre.insert(id, token).remove(id) =~= pre);
}

} // verus!
