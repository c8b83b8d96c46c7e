use std::collections::HashMap;
use vstd::prelude::*;

use crate::error::EmbedderError;

verus! {

broadcast use vstd::std_specs::hash::group_hash_axioms;

/// The GPU objects behind one backing store: a framebuffer, its color texture
/// and its depth/stencil renderbuffer.
#[derive(Debug, Clone, Copy, PartialEq, Eq, Structural)]
pub struct BackingStore {
    pub framebuffer: u32,
    pub texture: u32,
    pub renderbuffer: u32,
}

/// Whether the engine's backing-store structure of `struct_size` bytes can hold
/// what this embedder writes, a structure of `expected` bytes.
pub open spec fn backing_store_abi(struct_size: usize, expected: usize) -> Result<(), EmbedderError> {
    if struct_size < expected {
        Err(EmbedderError::InvalidBackingStoreAbi)
    } else {
        Ok(())
    }
}

/// Checks the size of the structure the engine asks to have filled, before
/// any GPU object is allocated for it.
pub fn check_backing_store_abi(struct_size: usize, expected: usize) -> (r: Result<(), EmbedderError>)
    ensures
        r == backing_store_abi(struct_size, expected),
{
    if struct_size < expected {
        Err(EmbedderError::InvalidBackingStoreAbi)
    } else {
        Ok(())
    }
}

/// The backing stores that the engine holds, each under the token that was
/// handed to it when the store was created.
pub struct BackingStores {
    stores: HashMap<u64, BackingStore>,
    next_token: u64,
}

impl View for BackingStores {
    type V = Map<u64, BackingStore>;

    closed spec fn view(&self) -> Map<u64, BackingStore> {
        self.stores@
    }
}

impl BackingStores {
    /// The token that the next registered store receives.
    pub closed spec fn next_token(&self) -> u64 {
        self.next_token
    }

    /// Every live token was handed out before the next one.
    pub closed spec fn wf(&self) -> bool {
        &&& self.next_token > 0
        &&& forall|t: u64| #[trigger] self.stores@.contains_key(t) ==> 0 < t < self.next_token
    }

    pub fn new() -> (r: Self)
        ensures
            r.wf(),
            r@ == Map::<u64, BackingStore>::empty(),
            r.next_token() == 1,
    {
        BackingStores { stores: HashMap::new(), next_token: 1 }
    }

    /// A token handed out earlier is never live yet, and never handed out again.
    pub proof fn lemma_next_token_fresh(&self)
        requires
            self.wf(),
        ensures
            !self@.contains_key(self.next_token()),
            !self@.contains_key(0),
    {
    }

    /// Records the GPU objects of a new backing store and returns the token
    /// that identifies them to the engine; `None` once every token is used.
    pub fn register(&mut self, store: BackingStore) -> (r: Option<u64>)
        requires
            old(self).wf(),
        ensures
            final(self).wf(),
            old(self).next_token() == u64::MAX ==> r.is_none() && final(self)@ == old(self)@
                && final(self).next_token() == old(self).next_token(),
            old(self).next_token() < u64::MAX ==> r == Some(old(self).next_token())
                && final(self)@ == old(self)@.insert(old(self).next_token(), store)
                && final(self).next_token() == old(self).next_token() + 1,
    {
        if self.next_token == u64::MAX {
            return None;
        }
        let token = self.next_token;
        self.stores.insert(token, store);
        self.next_token = token + 1;
        assert forall|t: u64| #[trigger] self.stores@.contains_key(t) implies 0 < t
            < self.next_token by {
            if t != token {
                assert(old(self).stores@.contains_key(t));
            }
        }
        Some(token)
    }

    /// The store registered under `token`.
    pub fn get(&self, token: u64) -> (r: Option<BackingStore>)
        ensures
            r == (if self@.contains_key(token) {
                Some(self@[token])
            } else {
                None
            }),
    {
        match self.stores.get(&token) {
            Some(s) => Some(*s),
            None => None,
        }
    }

    /// Takes out the store registered under `token`, whose GPU objects the
    /// caller then deletes; an unknown token is an error and changes nothing.
    pub fn collect(&mut self, token: u64) -> (r: Result<BackingStore, EmbedderError>)
        requires
            old(self).wf(),
        ensures
            final(self).wf(),
            final(self).next_token() == old(self).next_token(),
            old(self)@.contains_key(token) ==> r == Ok::<BackingStore, EmbedderError>(
                old(self)@[token],
            ) && final(self)@ == old(self)@.remove(token),
            !old(self)@.contains_key(token) ==> r == Err::<BackingStore, EmbedderError>(
                EmbedderError::UnknownBackingStore,
            ) && final(self)@ == old(self)@,
    {
        match self.stores.remove(&token) {
            Some(s) => Ok(s),
            None => Err(EmbedderError::UnknownBackingStore),
        }
    }
}

/// Creating a backing store and collecting it straight away leaves no GPU
/// object registered that was not registered before: the collection hands back
/// exactly the objects that the creation recorded. A creation whose structure
/// is smaller than the one this embedder fills is refused by the size check,
/// which comes before any allocation.
pub proof fn lemma_create_collect_round_trip(
    b: BackingStores,
    store: BackingStore,
    struct_size: usize,
    expected: usize,
)
    requires
        b.wf(),
        b.next_token() < u64::MAX,
    ensures
        !b@.contains_key(b.next_token()),
        b@.insert(b.next_token(), store).contains_key(b.next_token()),
        b@.insert(b.next_token(), store)[b.next_token()] == store,
        b@.insert(b.next_token(), store).remove(b.next_token()) == b@,
        struct_size < expected ==> backing_store_abi(struct_size, expected) is Err,
{
    b.lemma_next_token_fresh();
    assert(b@.insert(b.next_token(), store).remove(b.next_token()) =~= b@);
}

} // verus!
