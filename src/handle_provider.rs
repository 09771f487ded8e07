//! A backend adapter whose engine addresses keys by numeric handles. Each
//! key it creates gets a fresh handle, recorded in its key-identifier
//! manager under the key's triple; the operations that need the engine's key
//! material keep the interface's unsupported default.
use crate::core_provider::copy_info;
use crate::key_id_manager::{KeyIdManager, KeyInfo, KeyMap, KeyTriple};
use crate::provide::{ApplicationName, Provide};
use parsec_interface::operations::{
    OpCreateKey, OpDestroyKey, OpListOpcodes, ProviderInfo, ResultCreateKey, ResultDestroyKey,
    ResultListOpcodes,
};
use parsec_interface::requests::{Opcode, ProviderID, ResponseStatus};
use vstd::prelude::*;
use vstd::std_specs::hash::{builds_valid_hashers, obeys_key_model};

verus! {

/// The `n` low bytes of `h`, least significant first.
pub open spec fn le_bytes(h: nat, n: nat) -> Seq<u8>
    decreases n,
{
    if n == 0 {
        Seq::empty()
    } else {
        seq![(h % 256) as u8] + le_bytes(h / 256, (n - 1) as nat)
    }
}

/// The native reference recorded for handle `h`: its eight bytes,
/// least significant first.
pub open spec fn handle_ref(h: u64) -> Seq<u8> {
    le_bytes(h as nat, 8)
}

fn encode_handle(h: u64) -> (r: Vec<u8>)
    ensures
        r@ == handle_ref(h),
{
    let mut out: Vec<u8> = Vec::new();
    let mut v: u64 = h;
    let mut i: usize = 0;
    while i < 8
        invariant
            i <= 8,
            out@ + le_bytes(v as nat, (8 - i) as nat) == le_bytes(h as nat, 8),
        decreases 8 - i,
    {
        let ghost prev = out@;
        out.push((v % 256) as u8);
        proof {
            assert(le_bytes(v as nat, (8 - i) as nat) == seq![(v % 256) as u8] + le_bytes(
                (v / 256) as nat,
                (8 - i - 1) as nat,
            ));
            assert(out@ == prev + seq![(v % 256) as u8]);
            assert(prev + (seq![(v % 256) as u8] + le_bytes((v / 256) as nat, (8 - i - 1) as nat))
                == out@ + le_bytes((v / 256) as nat, (8 - i - 1) as nat));
        }
        v = v / 256;
        i = i + 1;
    }
    proof {
        assert(out@ + le_bytes(v as nat, 0) == out@);
    }
    out
}

/// Backend that records one fresh handle per created key.
pub struct HandleProvider {
    id: ProviderID,
    info: ProviderInfo,
    key_ids: KeyIdManager,
    next_handle: u64,
}

impl HandleProvider {
    /// The routing id this backend files its keys under.
    pub closed spec fn provider_id(&self) -> ProviderID {
        self.id
    }

    /// The keys this backend has recorded.
    pub closed spec fn keys(&self) -> KeyMap {
        self.key_ids@
    }

    /// The handle the next created key receives.
    pub closed spec fn next_handle(&self) -> u64 {
        self.next_handle
    }

    /// A backend answering to `id`, described by `info`, that files its
    /// keys in `key_ids`.
    pub fn new(id: ProviderID, info: ProviderInfo, key_ids: KeyIdManager) -> (r: HandleProvider)
        requires
            key_ids.wf(),
        ensures
            r.valid(),
            r.provider_id() == id,
            r.info() == info,
            r.keys() == key_ids@,
            r.next_handle() == 0,
    {
        HandleProvider { id, info, key_ids, next_handle: 0 }
    }

    /// Hands over the key-identifier manager, as a restart leaves it.
    pub fn into_key_ids(self) -> (r: KeyIdManager)
        ensures
            r@ == self.keys(),
            self.valid() ==> r.wf(),
    {
        self.key_ids
    }
}

impl Provide for HandleProvider {
    closed spec fn info(&self) -> ProviderInfo {
        self.info
    }

    closed spec fn valid(&self) -> bool {
        self.key_ids.wf()
    }

    fn describe(&self) -> (r: ProviderInfo) {
        copy_info(&self.info)
    }

    /// The key operations this backend implements.
    fn list_opcodes(&self, _op: OpListOpcodes) -> (r: Result<ResultListOpcodes, ResponseStatus>)
        ensures
            r is Ok,
            obeys_key_model::<Opcode>() && builds_valid_hashers::<std::hash::RandomState>()
                ==> r->Ok_0.opcodes@ == set![Opcode::CreateKey, Opcode::DestroyKey],
    {
        let ops = vec![Opcode::CreateKey, Opcode::DestroyKey];
        let opcodes = crate::core_provider::opcode_set(&ops);
        proof {
            if obeys_key_model::<Opcode>() && builds_valid_hashers::<std::hash::RandomState>() {
                assert(ops@.to_set() =~= set![Opcode::CreateKey, Opcode::DestroyKey]) by {
                    assert(ops@[0] == Opcode::CreateKey);
                    assert(ops@[1] == Opcode::DestroyKey);
                }
            }
        }
        Ok(ResultListOpcodes { opcodes })
    }

    /// Records the next handle under (`app_name`, this backend's id, the key
    /// name). An existing key is refused with `PsaErrorAlreadyExists`; once
    /// the handles are used up, creation fails with `PsaErrorGenericError`.
    fn create_key(&mut self, app_name: ApplicationName, op: OpCreateKey) -> (r: Result<
        ResultCreateKey,
        ResponseStatus,
    >)
        ensures
            old(self).keys().contains_key((app_name@, old(self).provider_id(), op.key_name@)) ==> r
                == Err::<ResultCreateKey, ResponseStatus>(ResponseStatus::PsaErrorAlreadyExists),
            !old(self).keys().contains_key((app_name@, old(self).provider_id(), op.key_name@))
                && old(self).next_handle() == u64::MAX ==> r == Err::<ResultCreateKey, ResponseStatus>(
                ResponseStatus::PsaErrorGenericError,
            ),
            r is Err ==> *final(self) == *old(self),
            r is Ok <==> !old(self).keys().contains_key(
                (app_name@, old(self).provider_id(), op.key_name@),
            ) && old(self).next_handle() < u64::MAX,
            r is Ok ==> final(self).keys() == old(self).keys().insert(
                (app_name@, old(self).provider_id(), op.key_name@),
                handle_ref(old(self).next_handle()),
            ) && final(self).next_handle() == old(self).next_handle() + 1,
            final(self).provider_id() == old(self).provider_id(),
    {
        let triple = KeyTriple::new(app_name.get_name().clone(), self.id, op.key_name);
        if self.key_ids.contains(&triple) {
            return Err(ResponseStatus::PsaErrorAlreadyExists);
        }
        if self.next_handle == u64::MAX {
            return Err(ResponseStatus::PsaErrorGenericError);
        }
        let info = KeyInfo { id: encode_handle(self.next_handle) };
        let inserted = self.key_ids.insert(triple, info);
        match inserted {
            Ok(()) => {
                self.next_handle = self.next_handle + 1;
                Ok(ResultCreateKey)
            },
            Err(e) => Err(e),
        }
    }

    /// Removes the record of (`app_name`, this backend's id, the key name);
    /// a key that is not recorded is refused with `PsaErrorDoesNotExist`.
    fn destroy_key(&mut self, app_name: ApplicationName, op: OpDestroyKey) -> (r: Result<
        ResultDestroyKey,
        ResponseStatus,
    >)
        ensures
            r is Ok <==> old(self).keys().contains_key(
                (app_name@, old(self).provider_id(), op.key_name@),
            ),
            r is Err ==> r == Err::<ResultDestroyKey, ResponseStatus>(
                ResponseStatus::PsaErrorDoesNotExist,
            ) && *final(self) == *old(self),
            r is Ok ==> final(self).keys() == old(self).keys().remove(
                (app_name@, old(self).provider_id(), op.key_name@),
            ),
            final(self).provider_id() == old(self).provider_id(),
            final(self).next_handle() == old(self).next_handle(),
    {
        let triple = KeyTriple::new(app_name.get_name().clone(), self.id, op.key_name);
        match self.key_ids.remove(&triple) {
            Ok(_) => Ok(ResultDestroyKey),
            Err(e) => Err(e),
        }
    }
}

} // verus!
