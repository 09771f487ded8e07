//! The key-identifier manager: a durable mapping from key triples to the
//! provider-native reference of each key.
//!
//! The manager keeps its records in a persisted image: every successful
//! insertion or removal is applied to that image before it returns, so the
//! image taken at any moment (`into_persisted`) reloads (`load`) to exactly
//! the mapping the manager served.
use parsec_interface::requests::{ProviderID, ResponseStatus};
use vstd::prelude::*;

verus! {

/// Decides whether two provider ids are the same routing target.
pub fn same_provider(a: ProviderID, b: ProviderID) -> (r: bool)
    ensures
        r == (a == b),
{
    match (a, b) {
        (ProviderID::CoreProvider, ProviderID::CoreProvider) => true,
        (ProviderID::MbedProvider, ProviderID::MbedProvider) => true,
        (ProviderID::Pkcs11Provider, ProviderID::Pkcs11Provider) => true,
        (ProviderID::TpmProvider, ProviderID::TpmProvider) => true,
        _ => false,
    }
}

/// Address of one managed key: the owning application, the provider that
/// holds the key, and the key's name inside the application's namespace.
#[derive(Debug)]
pub struct KeyTriple {
    pub app_name: String,
    pub provider_id: ProviderID,
    pub key_name: String,
}

impl View for KeyTriple {
    type V = (Seq<char>, ProviderID, Seq<char>);

    open spec fn view(&self) -> (Seq<char>, ProviderID, Seq<char>) {
        (self.app_name@, self.provider_id, self.key_name@)
    }
}

impl KeyTriple {
    pub fn new(app_name: String, provider_id: ProviderID, key_name: String) -> (r: KeyTriple)
        ensures
            r@ == (app_name@, provider_id, key_name@),
    {
        KeyTriple { app_name, provider_id, key_name }
    }

    /// Whether `self` and `other` address the same key.
    pub fn same_key(&self, other: &KeyTriple) -> (r: bool)
        ensures
            r == (self@ == other@),
    {
        same_provider(self.provider_id, other.provider_id) && self.app_name == other.app_name
            && self.key_name == other.key_name
    }
}

/// Provider-native reference of a key: a handle, an object id, or a key
/// blob when the engine keeps no reference of its own.
#[derive(Debug)]
pub struct KeyInfo {
    pub id: Vec<u8>,
}

impl View for KeyInfo {
    type V = Seq<u8>;

    open spec fn view(&self) -> Seq<u8> {
        self.id@
    }
}

/// What a key triple is to contracts: application, provider, key name.
pub type KeyId = (Seq<char>, ProviderID, Seq<char>);

/// A mapping from key triples to native references.
pub type KeyMap = Map<KeyId, Seq<u8>>;

/// Outcome of a lookup of `t` in `m`.
pub open spec fn get_result(m: KeyMap, t: KeyId) -> Option<Seq<u8>> {
    if m.contains_key(t) {
        Some(m[t])
    } else {
        None
    }
}

/// Outcome of inserting `t` with reference `v` into `m`: the status and the
/// mapping afterwards.
pub open spec fn insert_result(m: KeyMap, t: KeyId, v: Seq<u8>) -> (Result<(), ResponseStatus>, KeyMap) {
    if m.contains_key(t) {
        (Err(ResponseStatus::PsaErrorAlreadyExists), m)
    } else {
        (Ok(()), m.insert(t, v))
    }
}

/// Outcome of removing `t` from `m`: the removed reference or the status, and
/// the mapping afterwards.
pub open spec fn remove_result(m: KeyMap, t: KeyId) -> (Result<Seq<u8>, ResponseStatus>, KeyMap) {
    if m.contains_key(t) {
        (Ok(m[t]), m.remove(t))
    } else {
        (Err(ResponseStatus::PsaErrorDoesNotExist), m)
    }
}

/// One persisted record: a key triple and its native reference.
pub type KeyRecord = (KeyTriple, KeyInfo);

/// No two records of `s` address the same key.
pub open spec fn unique_keys(s: Seq<KeyRecord>) -> bool {
    forall|i: int, j: int|
        0 <= i < s.len() && 0 <= j < s.len() && i != j ==> (#[trigger] s[i]).0@ != (#[trigger] s[j]).0@
}

/// `m` is the mapping that the records `s` describe: every record's key maps
/// to its reference, and every key of `m` has a record.
pub open spec fn represents(
    s: Seq<KeyRecord>,
    m: KeyMap,
) -> bool {
    &&& forall|i: int|
        0 <= i < s.len() ==> #[trigger] m.contains_key(s[i].0@) && m[s[i].0@] == s[i].1@
    &&& forall|k| #[trigger] m.contains_key(k) ==> exists|i: int| 0 <= i < s.len() && s[i].0@ == k
}

/// Records determine the mapping they describe.
pub proof fn lemma_represents_unique(
    s: Seq<KeyRecord>,
    a: KeyMap,
    b: KeyMap,
)
    requires
        represents(s, a),
        represents(s, b),
    ensures
        a == b,
{
    assert forall|k| a.contains_key(k) implies b.contains_key(k) && a[k] == b[k] by {
        let i = choose|i: int| 0 <= i < s.len() && s[i].0@ == k;
        assert(b.contains_key(s[i].0@));
    }
    assert forall|k| b.contains_key(k) implies a.contains_key(k) by {
        let i = choose|i: int| 0 <= i < s.len() && s[i].0@ == k;
        assert(a.contains_key(s[i].0@));
    }
    assert(a =~= b);
}

/// Durable store of key triples. Its records are the persisted image;
/// `mapping` is the map they describe.
pub struct KeyIdManager {
    records: Vec<KeyRecord>,
    mapping: Ghost<KeyMap>,
}

impl View for KeyIdManager {
    type V = KeyMap;

    closed spec fn view(&self) -> KeyMap {
        self.mapping@
    }
}

impl KeyIdManager {
    /// The persisted image: what survives an abrupt restart.
    pub closed spec fn persisted(&self) -> Seq<KeyRecord> {
        self.records@
    }

    pub closed spec fn wf(&self) -> bool {
        unique_keys(self.records@) && represents(self.records@, self.mapping@)
    }

    /// The persisted image of a well-formed manager describes exactly the
    /// mapping the manager serves.
    pub proof fn lemma_persisted_represents(&self)
        requires
            self.wf(),
        ensures
            unique_keys(self.persisted()),
            represents(self.persisted(), self@),
    {
    }

    /// An empty store.
    pub fn new() -> (r: KeyIdManager)
        ensures
            r.wf(),
            r@ == Map::<(Seq<char>, ProviderID, Seq<char>), Seq<u8>>::empty(),
    {
        KeyIdManager { records: Vec::new(), mapping: Ghost(Map::empty()) }
    }

    fn find(&self, triple: &KeyTriple) -> (r: Option<usize>)
        requires
            self.wf(),
        ensures
            match r {
                Some(i) => i < self.records@.len() && self.records@[i as int].0@ == triple@,
                None => !self@.contains_key(triple@),
            },
    {
        let mut i: usize = 0;
        while i < self.records.len()
            invariant
                i <= self.records@.len(),
                forall|j: int| 0 <= j < i ==> self.records@[j].0@ != triple@,
            decreases self.records@.len() - i,
        {
            if self.records[i].0.same_key(triple) {
                return Some(i);
            }
            i = i + 1;
        }
        None
    }
    /// The reference recorded for `triple`, if any.
    pub fn get(&self, triple: &KeyTriple) -> (r: Option<&KeyInfo>)
        requires
            self.wf(),
        ensures
            r.is_some() == get_result(self@, triple@).is_some(),
            r.is_some() ==> r.unwrap()@ == get_result(self@, triple@).unwrap(),
    {
        match self.find(triple) {
            Some(i) => {
                proof {
                    assert(self.mapping@.contains_key(self.records@[i as int].0@));
                }
                Some(&self.records[i].1)
            },
            None => None,
        }
    }

    /// Whether a reference is recorded for `triple`.
    pub fn contains(&self, triple: &KeyTriple) -> (r: bool)
        requires
            self.wf(),
        ensures
            r == self@.contains_key(triple@),
    {
        self.find(triple).is_some()
    }

    /// Records `info` for `triple`, which must not be recorded yet. The new
    /// record is part of the persisted image when this returns `Ok`.
    pub fn insert(&mut self, triple: KeyTriple, info: KeyInfo) -> (r: Result<(), ResponseStatus>)
        requires
            old(self).wf(),
        ensures
            final(self).wf(),
            (r, final(self)@) == insert_result(old(self)@, triple@, info@),
            r is Err ==> *final(self) == *old(self),
    {
        if self.find(&triple).is_some() {
            return Err(ResponseStatus::PsaErrorAlreadyExists);
        }
        let ghost k = triple@;
        let ghost v = info@;
        let ghost old_records = self.records@;
        self.records.push((triple, info));
        self.mapping = Ghost(self.mapping@.insert(k, v));
        proof {
            let s = self.records@;
            assert forall|i: int| 0 <= i < old_records.len() implies s[i].0@ != k by {
                assert(self.mapping@.contains_key(old_records[i].0@));
            }
            assert forall|i: int|
                0 <= i < s.len() implies #[trigger] self.mapping@.contains_key(s[i].0@)
                && self.mapping@[s[i].0@] == s[i].1@ by {
                if i < old_records.len() {
                    assert(s[i] == old_records[i]);
                }
            }
            assert forall|kk| #[trigger] self.mapping@.contains_key(kk) implies exists|i: int|
                0 <= i < s.len() && s[i].0@ == kk by {
                if kk == k {
                    assert(s[s.len() - 1].0@ == k);
                } else {
                    let i = choose|i: int| 0 <= i < old_records.len() && old_records[i].0@ == kk;
                    assert(s[i] == old_records[i]);
                }
            }
        }
        Ok(())
    }

    /// Removes the record of `triple` and hands back its reference. The
    /// record is gone from the persisted image when this returns `Ok`.
    pub fn remove(&mut self, triple: &KeyTriple) -> (r: Result<KeyInfo, ResponseStatus>)
        requires
            old(self).wf(),
        ensures
            final(self).wf(),
            final(self)@ == remove_result(old(self)@, triple@).1,
            match r {
                Ok(info) => remove_result(old(self)@, triple@).0 == Ok::<Seq<u8>, ResponseStatus>(info@),
                Err(e) => remove_result(old(self)@, triple@).0 == Err::<Seq<u8>, ResponseStatus>(e)
                    && *final(self) == *old(self),
            },
    {
        let idx = match self.find(triple) {
            Some(i) => i,
            None => {
                return Err(ResponseStatus::PsaErrorDoesNotExist);
            },
        };
        let ghost k = triple@;
        let ghost old_records = self.records@;
        let ghost old_mapping = self.mapping@;
        let record = self.records.remove(idx);
        self.mapping = Ghost(self.mapping@.remove(k));
        proof {
            let s = self.records@;
            let d = idx as int;
            assert(old_mapping.contains_key(old_records[d].0@));
            assert forall|i: int| 0 <= i < s.len() implies (i < d ==> s[i] == old_records[i]) && (d
                <= i ==> s[i] == old_records[i + 1]) by {}
            assert forall|i: int, j: int|
                0 <= i < s.len() && 0 <= j < s.len() && i != j implies (#[trigger] s[i]).0@
                != (#[trigger] s[j]).0@ by {
                let oi = if i < d { i } else { i + 1 };
                let oj = if j < d { j } else { j + 1 };
                assert(old_records[oi] == s[i]);
                assert(old_records[oj] == s[j]);
            }
            assert forall|i: int|
                0 <= i < s.len() implies #[trigger] self.mapping@.contains_key(s[i].0@)
                && self.mapping@[s[i].0@] == s[i].1@ by {
                let oi = if i < d { i } else { i + 1 };
                assert(old_records[oi] == s[i]);
                assert(old_records[oi].0@ != old_records[d].0@);
                assert(old_mapping.contains_key(old_records[oi].0@));
            }
            assert forall|kk| #[trigger] self.mapping@.contains_key(kk) implies exists|i: int|
                0 <= i < s.len() && s[i].0@ == kk by {
                assert(old_mapping.contains_key(kk));
                let oi = choose|i: int| 0 <= i < old_records.len() && old_records[i].0@ == kk;
                if oi < d {
                    assert(s[oi] == old_records[oi]);
                } else {
                    assert(oi != d);
                    assert(s[oi - 1] == old_records[oi]);
                }
            }
        }
        Ok(record.1)
    }

    /// Hands over the persisted image, as an abrupt restart leaves it.
    pub fn into_persisted(self) -> (r: Vec<KeyRecord>)
        ensures
            r@ == self.persisted(),
    {
        self.records
    }

    /// Rebuilds a manager from a persisted image. An image in which two
    /// records address the same key is corrupt and refused.
    pub fn load(records: Vec<KeyRecord>) -> (r: Result<KeyIdManager, ResponseStatus>)
        ensures
            r is Ok <==> unique_keys(records@),
            r is Err ==> r == Err::<KeyIdManager, ResponseStatus>(ResponseStatus::PsaErrorGenericError),
            r matches Ok(m) ==> m.wf() && m.persisted() == records@ && represents(records@, m@),
    {
        let ghost mut mapping = Map::<(Seq<char>, ProviderID, Seq<char>), Seq<u8>>::empty();
        let mut i: usize = 0;
        while i < records.len()
            invariant
                i <= records@.len(),
                unique_keys(records@.take(i as int)),
                represents(records@.take(i as int), mapping),
            decreases records@.len() - i,
        {
            let mut j: usize = 0;
            while j < i
                invariant
                    i < records@.len(),
                    j <= i,
                    forall|jj: int| 0 <= jj < j ==> records@[jj].0@ != records@[i as int].0@,
                decreases i - j,
            {
                if records[j].0.same_key(&records[i].0) {
                    proof {
                        assert(!unique_keys(records@)) by {
                            assert(records@[j as int].0@ == records@[i as int].0@);
                        }
                    }
                    return Err(ResponseStatus::PsaErrorGenericError);
                }
                j = j + 1;
            }
            let ghost prev = records@.take(i as int);
            let ghost next = records@.take(i + 1);
            proof {
                let k = records@[i as int].0@;
                assert forall|a: int| 0 <= a < prev.len() implies prev[a].0@ != k by {
                    assert(prev[a] == records@[a]);
                }
                mapping = mapping.insert(k, records@[i as int].1@);
                assert(next == prev.push(records@[i as int]));
                assert forall|a: int| 0 <= a < next.len() implies #[trigger] mapping.contains_key(
                    next[a].0@,
                ) && mapping[next[a].0@] == next[a].1@ by {
                    if a < prev.len() {
                        assert(next[a] == prev[a]);
                    }
                }
                assert forall|kk| #[trigger] mapping.contains_key(kk) implies exists|a: int|
                    0 <= a < next.len() && next[a].0@ == kk by {
                    if kk == k {
                        assert(next[next.len() - 1].0@ == k);
                    } else {
                        let a = choose|a: int| 0 <= a < prev.len() && prev[a].0@ == kk;
                        assert(next[a] == prev[a]);
                    }
                }
            }
            i = i + 1;
        }
        proof {
            assert(records@.take(records@.len() as int) == records@);
        }
        Ok(KeyIdManager { records, mapping: Ghost(mapping) })
    }
}


/// Inserting a key that is not recorded succeeds, the key then reads back
/// with the inserted reference, and a second insertion of it is refused with
/// `PsaErrorAlreadyExists`.
pub proof fn lemma_insert_fresh(m: KeyMap, t: KeyId, info: Seq<u8>, info2: Seq<u8>)
    requires
        !m.contains_key(t),
    ensures
        insert_result(m, t, info).0 is Ok,
        get_result(insert_result(m, t, info).1, t) == Some(info),
        insert_result(insert_result(m, t, info).1, t, info2).0 == Err::<(), ResponseStatus>(
            ResponseStatus::PsaErrorAlreadyExists,
        ),
{
}

/// A key that is not recorded reads back as absent, and removing it is
/// refused with `PsaErrorDoesNotExist`.
pub proof fn lemma_absent_key(m: KeyMap, t: KeyId)
    requires
        !m.contains_key(t),
    ensures
        get_result(m, t) is None,
        remove_result(m, t).0 == Err::<Seq<u8>, ResponseStatus>(ResponseStatus::PsaErrorDoesNotExist),
{
}

/// After a key is removed it reads back as absent, and removing it again is
/// refused with `PsaErrorDoesNotExist`.
pub proof fn lemma_removed_key(m: KeyMap, t: KeyId)
    ensures
        get_result(remove_result(m, t).1, t) is None,
        remove_result(remove_result(m, t).1, t).0 == Err::<Seq<u8>, ResponseStatus>(
            ResponseStatus::PsaErrorDoesNotExist,
        ),
{
}

/// A removed key can be inserted again, and then reads back with the new
/// reference.
pub proof fn lemma_remove_then_insert(m: KeyMap, t: KeyId, info2: Seq<u8>)
    requires
        m.contains_key(t),
    ensures
        remove_result(m, t).0 is Ok,
        insert_result(remove_result(m, t).1, t, info2).0 is Ok,
        get_result(insert_result(remove_result(m, t).1, t, info2).1, t) == Some(info2),
{
}

/// Reloading the persisted image of a well-formed manager reproduces
/// exactly the mapping it served; in particular a key whose insertion
/// succeeded reads back after the restart with the inserted reference.
pub proof fn lemma_restart_after_insert(
    before: KeyMap,
    mgr: KeyIdManager,
    t: KeyId,
    info: Seq<u8>,
    reloaded: KeyMap,
)
    requires
        mgr.wf(),
        insert_result(before, t, info) == (Ok::<(), ResponseStatus>(()), mgr@),
        represents(mgr.persisted(), reloaded),
    ensures
        reloaded == mgr@,
        get_result(reloaded, t) == Some(info),
{
    mgr.lemma_persisted_represents();
    lemma_represents_unique(mgr.persisted(), reloaded, mgr@);
}

} // verus!
