//! The core provider: describes the whole service and routes each key
//! operation to the backend that the request addresses.
use crate::key_id_manager::same_provider;
use crate::provide::{ApplicationName, Provide};
use parsec_interface::operations::{
    OpAsymSign, OpAsymVerify, OpCreateKey, OpDestroyKey, OpExportPublicKey, OpImportKey,
    OpListOpcodes, OpListProviders, OpPing, ProviderInfo, ResultAsymSign, ResultAsymVerify,
    ResultCreateKey, ResultDestroyKey, ResultExportPublicKey, ResultImportKey, ResultListOpcodes,
    ResultListProviders, ResultPing,
};
use parsec_interface::requests::{Opcode, ProviderID, ResponseStatus};
use std::collections::HashSet;
use vstd::prelude::*;
use vstd::std_specs::hash::{builds_valid_hashers, obeys_key_model};

verus! {

/// Major version of the wire protocol that the service speaks.
pub const SUPPORTED_VERSION_MAJ: u8 = 1;

/// Minor version of the wire protocol that the service speaks.
pub const SUPPORTED_VERSION_MIN: u8 = 0;

/// Relies on the derived `Clone` of `parsec_interface::operations::ProviderInfo`,
/// which clones every field: the copy equals its source.
#[verifier::external_body]
pub(crate) fn copy_info(info: &ProviderInfo) -> (r: ProviderInfo)
    ensures
        r == *info,
{
    info.clone()
}

/// A routing table is usable when no provider id repeats and none is the
/// core provider's own id.
pub open spec fn valid_table<B>(s: Seq<(ProviderID, B)>) -> bool {
    &&& forall|i: int, j: int|
        0 <= i < s.len() && 0 <= j < s.len() && i != j ==> (#[trigger] s[i]).0 != (#[trigger] s[j]).0
    &&& forall|i: int| 0 <= i < s.len() ==> (#[trigger] s[i]).0 != ProviderID::CoreProvider
}

/// `id` is the routing key of one entry of `s`.
pub open spec fn configured<B>(s: Seq<(ProviderID, B)>, id: ProviderID) -> bool {
    exists|i: int| 0 <= i < s.len() && (#[trigger] s[i]).0 == id
}

proof fn lemma_remove_insert<T>(s: Seq<T>, i: int, x: T)
    requires
        0 <= i < s.len(),
    ensures
        s.remove(i).insert(i, x) == s.update(i, x),
{
    assert(s.remove(i).insert(i, x) =~= s.update(i, x));
}

/// Meta-provider over an ordered, fixed set of backends.
pub struct CoreProvider<B: Provide> {
    info: ProviderInfo,
    backends: Vec<(ProviderID, B)>,
}

impl<B: Provide> CoreProvider<B> {
    /// The backends in configuration order, each with its routing key.
    pub closed spec fn backends(&self) -> Seq<(ProviderID, B)> {
        self.backends@
    }

    /// The description of the core provider itself.
    pub closed spec fn core_info(&self) -> ProviderInfo {
        self.info
    }

    pub open spec fn wf(&self) -> bool {
        &&& valid_table(self.backends())
        &&& forall|i: int| 0 <= i < self.backends().len() ==> (#[trigger] self.backends()[i]).1.valid()
    }

    /// Builds the core provider from its own description and the configured
    /// backends. A repeated provider id, or a backend that claims the core
    /// provider's id, is refused with `PsaErrorInvalidArgument`.
    pub fn new(info: ProviderInfo, backends: Vec<(ProviderID, B)>) -> (r: Result<
        CoreProvider<B>,
        ResponseStatus,
    >)
        requires
            forall|i: int| 0 <= i < backends@.len() ==> (#[trigger] backends@[i]).1.valid(),
        ensures
            r is Ok <==> valid_table(backends@),
            r is Err ==> r->Err_0 == ResponseStatus::PsaErrorInvalidArgument,
            r matches Ok(c) ==> c.wf() && c.backends() == backends@ && c.core_info() == info,
    {
        let mut i: usize = 0;
        while i < backends.len()
            invariant
                i <= backends@.len(),
                valid_table(backends@.take(i as int)),
            decreases backends@.len() - i,
        {
            if same_provider(backends[i].0, ProviderID::CoreProvider) {
                return Err(ResponseStatus::PsaErrorInvalidArgument);
            }
            let mut j: usize = 0;
            while j < i
                invariant
                    i < backends@.len(),
                    j <= i,
                    forall|jj: int| 0 <= jj < j ==> backends@[jj].0 != backends@[i as int].0,
                decreases i - j,
            {
                if same_provider(backends[j].0, backends[i].0) {
                    proof {
                        assert(backends@[j as int].0 == backends@[i as int].0);
                    }
                    return Err(ResponseStatus::PsaErrorInvalidArgument);
                }
                j = j + 1;
            }
            proof {
                let prev = backends@.take(i as int);
                let next = backends@.take(i + 1);
                assert forall|a: int| 0 <= a < next.len() implies next[a] == backends@[a] by {}
                assert forall|a: int| 0 <= a < prev.len() implies prev[a] == backends@[a] by {}
            }
            i = i + 1;
        }
        proof {
            assert(backends@.take(backends@.len() as int) == backends@);
        }
        Ok(CoreProvider { info, backends })
    }

    /// Index of the backend configured under `id`, if any.
    fn find_backend(&self, id: ProviderID) -> (r: Option<usize>)
        ensures
            match r {
                Some(i) => i < self.backends().len() && self.backends()[i as int].0 == id,
                None => !configured(self.backends(), id),
            },
    {
        let mut i: usize = 0;
        while i < self.backends.len()
            invariant
                i <= self.backends@.len(),
                forall|j: int| 0 <= j < i ==> self.backends@[j].0 != id,
            decreases self.backends@.len() - i,
        {
            if same_provider(self.backends[i].0, id) {
                return Some(i);
            }
            i = i + 1;
        }
        None
    }

    /// Resolves the routing key of a key operation: the index of the
    /// addressed backend, `PsaErrorNotSupported` for the core provider's own
    /// id, and `PsaErrorInvalidArgument` for an id that is not configured.
    pub fn route(&self, provider: ProviderID) -> (r: Result<usize, ResponseStatus>)
        ensures
            provider == ProviderID::CoreProvider ==> r == Err::<usize, ResponseStatus>(
                ResponseStatus::PsaErrorNotSupported,
            ),
            provider != ProviderID::CoreProvider && !configured(self.backends(), provider) ==> r
                == Err::<usize, ResponseStatus>(ResponseStatus::PsaErrorInvalidArgument),
            r matches Ok(i) ==> i < self.backends().len() && self.backends()[i as int].0 == provider,
            provider != ProviderID::CoreProvider && configured(self.backends(), provider) ==> r is Ok,
    {
        if same_provider(provider, ProviderID::CoreProvider) {
            return Err(ResponseStatus::PsaErrorNotSupported);
        }
        match self.find_backend(provider) {
            Some(i) => Ok(i),
            None => Err(ResponseStatus::PsaErrorInvalidArgument),
        }
    }

    fn take_backend(&mut self, i: usize) -> (r: (ProviderID, B))
        requires
            i < old(self).backends().len(),
        ensures
            r == old(self).backends()[i as int],
            final(self).backends() == old(self).backends().remove(i as int),
            final(self).core_info() == old(self).core_info(),
    {
        self.backends.remove(i)
    }

    fn put_backend(&mut self, i: usize, entry: (ProviderID, B))
        requires
            i <= old(self).backends().len(),
        ensures
            final(self).backends() == old(self).backends().insert(i as int, entry),
            final(self).core_info() == old(self).core_info(),
    {
        self.backends.insert(i, entry);
    }

    /// Forwards a CreateKey operation to the backend configured under `provider`
    /// and returns its outcome as it came.
    pub fn route_create_key(&mut self, provider: ProviderID, app_name: ApplicationName, op: OpCreateKey) -> (r:
        Result<ResultCreateKey, ResponseStatus>)
        requires
            old(self).wf(),
        ensures
            final(self).wf(),
            routed_to(old(self), final(self), provider),
            route_error(old(self).backends(), provider) matches Some(e) ==> r
                == Err::<ResultCreateKey, ResponseStatus>(e) && *final(self) == *old(self),
    {
        let i = match self.route(provider) {
            Ok(i) => i,
            Err(ResponseStatus::PsaErrorNotSupported) => {
                return Provide::create_key(self, app_name, op);
            },
            Err(e) => {
                return Err(e);
            },
        };
        let ghost before = *self;
        let mut entry = self.take_backend(i);
        let r = entry.1.create_key(app_name, op);
        let ghost e = entry;
        self.put_backend(i, entry);
        proof {
            lemma_remove_insert(before.backends(), i as int, e);
        }
        r
    }

    /// Forwards a ImportKey operation to the backend configured under `provider`
    /// and returns its outcome as it came.
    pub fn route_import_key(&mut self, provider: ProviderID, app_name: ApplicationName, op: OpImportKey) -> (r:
        Result<ResultImportKey, ResponseStatus>)
        requires
            old(self).wf(),
        ensures
            final(self).wf(),
            routed_to(old(self), final(self), provider),
            route_error(old(self).backends(), provider) matches Some(e) ==> r
                == Err::<ResultImportKey, ResponseStatus>(e) && *final(self) == *old(self),
    {
        let i = match self.route(provider) {
            Ok(i) => i,
            Err(ResponseStatus::PsaErrorNotSupported) => {
                return Provide::import_key(self, app_name, op);
            },
            Err(e) => {
                return Err(e);
            },
        };
        let ghost before = *self;
        let mut entry = self.take_backend(i);
        let r = entry.1.import_key(app_name, op);
        let ghost e = entry;
        self.put_backend(i, entry);
        proof {
            lemma_remove_insert(before.backends(), i as int, e);
        }
        r
    }

    /// Forwards a ExportPublicKey operation to the backend configured under `provider`
    /// and returns its outcome as it came.
    pub fn route_export_public_key(&mut self, provider: ProviderID, app_name: ApplicationName, op: OpExportPublicKey) -> (r:
        Result<ResultExportPublicKey, ResponseStatus>)
        requires
            old(self).wf(),
        ensures
            final(self).wf(),
            routed_to(old(self), final(self), provider),
            route_error(old(self).backends(), provider) matches Some(e) ==> r
                == Err::<ResultExportPublicKey, ResponseStatus>(e) && *final(self) == *old(self),
    {
        let i = match self.route(provider) {
            Ok(i) => i,
            Err(ResponseStatus::PsaErrorNotSupported) => {
                return Provide::export_public_key(self, app_name, op);
            },
            Err(e) => {
                return Err(e);
            },
        };
        let ghost before = *self;
        let mut entry = self.take_backend(i);
        let r = entry.1.export_public_key(app_name, op);
        let ghost e = entry;
        self.put_backend(i, entry);
        proof {
            lemma_remove_insert(before.backends(), i as int, e);
        }
        r
    }

    /// Forwards a DestroyKey operation to the backend configured under `provider`
    /// and returns its outcome as it came.
    pub fn route_destroy_key(&mut self, provider: ProviderID, app_name: ApplicationName, op: OpDestroyKey) -> (r:
        Result<ResultDestroyKey, ResponseStatus>)
        requires
            old(self).wf(),
        ensures
            final(self).wf(),
            routed_to(old(self), final(self), provider),
            route_error(old(self).backends(), provider) matches Some(e) ==> r
                == Err::<ResultDestroyKey, ResponseStatus>(e) && *final(self) == *old(self),
    {
        let i = match self.route(provider) {
            Ok(i) => i,
            Err(ResponseStatus::PsaErrorNotSupported) => {
                return Provide::destroy_key(self, app_name, op);
            },
            Err(e) => {
                return Err(e);
            },
        };
        let ghost before = *self;
        let mut entry = self.take_backend(i);
        let r = entry.1.destroy_key(app_name, op);
        let ghost e = entry;
        self.put_backend(i, entry);
        proof {
            lemma_remove_insert(before.backends(), i as int, e);
        }
        r
    }

    /// Forwards a AsymSign operation to the backend configured under `provider`
    /// and returns its outcome as it came.
    pub fn route_asym_sign(&mut self, provider: ProviderID, app_name: ApplicationName, op: OpAsymSign) -> (r:
        Result<ResultAsymSign, ResponseStatus>)
        requires
            old(self).wf(),
        ensures
            final(self).wf(),
            routed_to(old(self), final(self), provider),
            route_error(old(self).backends(), provider) matches Some(e) ==> r
                == Err::<ResultAsymSign, ResponseStatus>(e) && *final(self) == *old(self),
    {
        let i = match self.route(provider) {
            Ok(i) => i,
            Err(ResponseStatus::PsaErrorNotSupported) => {
                return Provide::asym_sign(self, app_name, op);
            },
            Err(e) => {
                return Err(e);
            },
        };
        let ghost before = *self;
        let mut entry = self.take_backend(i);
        let r = entry.1.asym_sign(app_name, op);
        let ghost e = entry;
        self.put_backend(i, entry);
        proof {
            lemma_remove_insert(before.backends(), i as int, e);
        }
        r
    }

    /// Forwards a AsymVerify operation to the backend configured under `provider`
    /// and returns its outcome as it came.
    pub fn route_asym_verify(&mut self, provider: ProviderID, app_name: ApplicationName, op: OpAsymVerify) -> (r:
        Result<ResultAsymVerify, ResponseStatus>)
        requires
            old(self).wf(),
        ensures
            final(self).wf(),
            routed_to(old(self), final(self), provider),
            route_error(old(self).backends(), provider) matches Some(e) ==> r
                == Err::<ResultAsymVerify, ResponseStatus>(e) && *final(self) == *old(self),
    {
        let i = match self.route(provider) {
            Ok(i) => i,
            Err(ResponseStatus::PsaErrorNotSupported) => {
                return Provide::asym_verify(self, app_name, op);
            },
            Err(e) => {
                return Err(e);
            },
        };
        let ghost before = *self;
        let mut entry = self.take_backend(i);
        let r = entry.1.asym_verify(app_name, op);
        let ghost e = entry;
        self.put_backend(i, entry);
        proof {
            lemma_remove_insert(before.backends(), i as int, e);
        }
        r
    }

    /// Lists the opcodes of the provider configured under `provider`: the
    /// core provider answers for its own id, and an id that is not
    /// configured is refused with `PsaErrorInvalidArgument`.
    pub fn route_list_opcodes(&self, provider: ProviderID, op: OpListOpcodes) -> (r: Result<
        ResultListOpcodes,
        ResponseStatus,
    >)
        ensures
            provider != ProviderID::CoreProvider && !configured(self.backends(), provider) ==> r
                == Err::<ResultListOpcodes, ResponseStatus>(ResponseStatus::PsaErrorInvalidArgument),
            provider == ProviderID::CoreProvider ==> r is Ok,
    {
        match self.route(provider) {
            Ok(i) => self.backends[i].1.list_opcodes(op),
            Err(ResponseStatus::PsaErrorNotSupported) => Provide::list_opcodes(self, op),
            Err(e) => Err(e),
        }
    }
}

/// The routing effect of one key operation addressed to `provider`: the
/// table keeps its shape, its ids and the core description, every backend
/// keeps its description, and no backend but the one configured under
/// `provider` changes.
pub open spec fn routed_to<B: Provide>(
    before: &CoreProvider<B>,
    after: &CoreProvider<B>,
    provider: ProviderID,
) -> bool {
    &&& after.core_info() == before.core_info()
    &&& after.backends().len() == before.backends().len()
    &&& forall|i: int|
        0 <= i < before.backends().len() ==> (#[trigger] after.backends()[i]).0
            == before.backends()[i].0 && after.backends()[i].1.info()
            == before.backends()[i].1.info()
    &&& forall|i: int|
        0 <= i < before.backends().len() && before.backends()[i].0 != provider
            ==> #[trigger] after.backends()[i] == before.backends()[i]
}

/// The status with which routing refuses `provider` before any backend is
/// reached, if it does: the core provider's own id is reserved, and an id
/// that is not configured is an invalid argument.
pub open spec fn route_error<B>(s: Seq<(ProviderID, B)>, provider: ProviderID) -> Option<
    ResponseStatus,
> {
    if provider == ProviderID::CoreProvider {
        Some(ResponseStatus::PsaErrorNotSupported)
    } else if !configured(s, provider) {
        Some(ResponseStatus::PsaErrorInvalidArgument)
    } else {
        None
    }
}

/// The set of the opcodes in `ops`.
pub(crate) fn opcode_set(ops: &Vec<Opcode>) -> (r: HashSet<Opcode>)
    ensures
        obeys_key_model::<Opcode>() && builds_valid_hashers::<std::hash::RandomState>() ==> r@
            == ops@.to_set(),
{
    let mut set: HashSet<Opcode> = HashSet::new();
    let mut i: usize = 0;
    while i < ops.len()
        invariant
            i <= ops@.len(),
            obeys_key_model::<Opcode>() && builds_valid_hashers::<std::hash::RandomState>() ==> set@
                == ops@.take(i as int).to_set(),
        decreases ops@.len() - i,
    {
        set.insert(ops[i]);
        proof {
            assert(ops@.take(i + 1) == ops@.take(i as int).push(ops@[i as int]));
            ops@.take(i as int).lemma_push_to_set_commute(ops@[i as int]);
        }
        i = i + 1;
    }
    proof {
        assert(ops@.take(ops@.len() as int) == ops@);
    }
    set
}

impl<B: Provide> Provide for CoreProvider<B> {
    closed spec fn info(&self) -> ProviderInfo {
        self.info
    }

    open spec fn valid(&self) -> bool {
        self.wf()
    }

    fn describe(&self) -> (r: ProviderInfo) {
        copy_info(&self.info)
    }

    /// The core provider's description followed by each backend's, in
    /// configuration order.
    fn list_providers(&self, _op: OpListProviders) -> (r: Result<ResultListProviders, ResponseStatus>)
        ensures
            r is Ok,
            r->Ok_0.providers@.len() == self.backends().len() + 1,
            r->Ok_0.providers@[0] == self.core_info(),
            forall|i: int|
                0 <= i < self.backends().len() ==> r->Ok_0.providers@[i + 1]
                    == (#[trigger] self.backends()[i]).1.info(),
    {
        let mut providers: Vec<ProviderInfo> = Vec::new();
        providers.push(copy_info(&self.info));
        let mut i: usize = 0;
        while i < self.backends.len()
            invariant
                i <= self.backends@.len(),
                providers@.len() == i + 1,
                providers@[0] == self.info,
                forall|j: int| 0 <= j < i ==> providers@[j + 1] == (#[trigger] self.backends@[j]).1.info(),
            decreases self.backends@.len() - i,
        {
            providers.push(self.backends[i].1.describe());
            i = i + 1;
        }
        Ok(ResultListProviders { providers })
    }

    /// The operations that the core provider answers itself.
    fn list_opcodes(&self, _op: OpListOpcodes) -> (r: Result<ResultListOpcodes, ResponseStatus>)
        ensures
            r is Ok,
            obeys_key_model::<Opcode>() && builds_valid_hashers::<std::hash::RandomState>() ==> r->Ok_0.opcodes@
                == set![Opcode::Ping, Opcode::ListProviders, Opcode::ListOpcodes],
    {
        let ops = vec![Opcode::Ping, Opcode::ListProviders, Opcode::ListOpcodes];
        let opcodes = opcode_set(&ops);
        proof {
            if obeys_key_model::<Opcode>() && builds_valid_hashers::<std::hash::RandomState>() {
                assert(ops@.to_set() =~= set![Opcode::Ping, Opcode::ListProviders, Opcode::ListOpcodes]) by {
                    assert(ops@[0] == Opcode::Ping);
                    assert(ops@[1] == Opcode::ListProviders);
                    assert(ops@[2] == Opcode::ListOpcodes);
                }
            }
        }
        Ok(ResultListOpcodes { opcodes })
    }

    /// Never fails: answers with the supported protocol version.
    fn ping(&self, _op: OpPing) -> (r: Result<ResultPing, ResponseStatus>)
        ensures
            r is Ok,
            r->Ok_0.supp_version_maj == SUPPORTED_VERSION_MAJ,
            r->Ok_0.supp_version_min == SUPPORTED_VERSION_MIN,
    {
        Ok(ResultPing { supp_version_maj: SUPPORTED_VERSION_MAJ, supp_version_min: SUPPORTED_VERSION_MIN })
    }
}

} // verus!
