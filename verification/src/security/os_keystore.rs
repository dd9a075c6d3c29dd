use vstd::prelude::*;

use super::keystore::{KeyStore, KeyStoreError};
use crate::assoc::{delete_entry, entries_map, find, keys_unique, lemma_map_at, store_entry};
use crate::text::chars_of;

verus! {

/// A copy of a byte slice.
pub fn copy_bytes(src: &[u8]) -> (v: Vec<u8>)
    ensures
        v@ == src@,
{
    let mut v: Vec<u8> = Vec::new();
    let mut i: usize = 0;
    while i < src.len()
        invariant
            i <= src@.len(),
            v@ == src@.subrange(0, i as int),
        decreases src@.len() - i,
    {
        v.push(src[i]);
        i = i + 1;
        assert(v@ =~= src@.subrange(0, i as int));
    }
    assert(src@.subrange(0, i as int) =~= src@);
    v
}

/// Secrets kept in memory, one per agent id.
pub struct OsKeyStore {
    entries: Vec<(String, Vec<u8>)>,
}

impl OsKeyStore {
    /// The stored secrets by agent id.
    pub closed spec fn secrets(&self) -> Map<Seq<char>, Seq<u8>> {
        entries_map(self.entries@)
    }

    /// The entries never repeat an agent id.
    #[verifier::type_invariant]
    spec fn wf(&self) -> bool {
        keys_unique(self.entries@)
    }

    /// An empty store.
    pub fn new() -> (ks: OsKeyStore)
        ensures
            ks.secrets() == Map::<Seq<char>, Seq<u8>>::empty(),
    {
        let ks = OsKeyStore { entries: Vec::new() };
        assert(ks.secrets() =~= Map::<Seq<char>, Seq<u8>>::empty());
        ks
    }

    /// Stores `secret` for `agent_id`, replacing any earlier one.
    pub fn store(&mut self, agent_id: &str, secret: &[u8]) -> (r: Result<(), KeyStoreError>)
        ensures
            r is Ok,
            final(self).secrets() == old(self).secrets().insert(agent_id@, secret@),
    {
        proof { use_type_invariant(&*self); }
        let mut entries: Vec<(String, Vec<u8>)> = Vec::new();
        std::mem::swap(&mut entries, &mut self.entries);
        store_entry(&mut entries, agent_id, copy_bytes(secret));
        self.entries = entries;
        Ok(())
    }

    /// The secret stored for `agent_id`, or `NotFound`.
    pub fn load(&self, agent_id: &str) -> (r: Result<Vec<u8>, KeyStoreError>)
        ensures
            r is Ok <==> self.secrets().contains_key(agent_id@),
            r matches Ok(v) ==> v@ == self.secrets()[agent_id@],
            r matches Err(e) ==> e is NotFound,
    {
        proof { use_type_invariant(self); }
        let key = chars_of(agent_id);
        match find(&self.entries, &key) {
            Some(i) => {
                proof { lemma_map_at(self.entries@, i as int); }
                Ok(copy_bytes(self.entries[i].1.as_slice()))
            },
            None => Err(KeyStoreError::NotFound),
        }
    }

    /// Forgets the secret of `agent_id`, if any.
    pub fn delete(&mut self, agent_id: &str) -> (r: Result<(), KeyStoreError>)
        ensures
            r is Ok,
            final(self).secrets() == old(self).secrets().remove(agent_id@),
    {
        proof { use_type_invariant(&*self); }
        let mut entries: Vec<(String, Vec<u8>)> = Vec::new();
        std::mem::swap(&mut entries, &mut self.entries);
        delete_entry(&mut entries, agent_id);
        self.entries = entries;
        Ok(())
    }
}

impl KeyStore for OsKeyStore {
    /// Stores `secret` for `agent_id`, replacing any earlier one.
    fn store(&mut self, agent_id: &str, secret: &[u8]) -> (r: Result<(), KeyStoreError>)
        ensures
            r is Ok,
            final(self).secrets() == old(self).secrets().insert(agent_id@, secret@),
    {
        OsKeyStore::store(self, agent_id, secret)
    }

    /// The secret stored for `agent_id`, or `NotFound`.
    fn load(&self, agent_id: &str) -> (r: Result<Vec<u8>, KeyStoreError>)
        ensures
            r is Ok <==> self.secrets().contains_key(agent_id@),
            r matches Ok(v) ==> v@ == self.secrets()[agent_id@],
            r matches Err(e) ==> e is NotFound,
    {
        OsKeyStore::load(self, agent_id)
    }

    /// Forgets the secret of `agent_id`, if any.
    fn delete(&mut self, agent_id: &str) -> (r: Result<(), KeyStoreError>)
        ensures
            r is Ok,
            final(self).secrets() == old(self).secrets().remove(agent_id@),
    {
        OsKeyStore::delete(self, agent_id)
    }
}

/// Law: after storing a secret, loading the same id gives it back; after
/// deleting an id, loading it gives nothing; other ids are unaffected.
pub proof fn lemma_store_load_delete(
    m: Map<Seq<char>, Seq<u8>>,
    id: Seq<char>,
    other: Seq<char>,
    secret: Seq<u8>,
)
    requires
        id != other,
    ensures
        m.insert(id, secret).contains_key(id),
        m.insert(id, secret)[id] == secret,
        !m.remove(id).contains_key(id),
        m.insert(id, secret).contains_key(other) == m.contains_key(other),
        m.contains_key(other) ==> m.insert(id, secret)[other] == m[other],
        m.remove(id).contains_key(other) == m.contains_key(other),
{
}

} // verus!
