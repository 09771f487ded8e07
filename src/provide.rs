//! The capability interface that every provider implements.
use parsec_interface::operations::{
    OpAsymSign, OpAsymVerify, OpCreateKey, OpDestroyKey, OpExportPublicKey, OpImportKey,
    OpListOpcodes, OpListProviders, OpPing, ProviderInfo, ResultAsymSign, ResultAsymVerify,
    ResultCreateKey, ResultDestroyKey, ResultExportPublicKey, ResultImportKey, ResultListOpcodes,
    ResultListProviders, ResultPing,
};
use parsec_interface::requests::ResponseStatus;
use vstd::prelude::*;

verus! {

/// Authenticated identity of a client application; the namespace of its keys.
#[derive(Debug)]
pub struct ApplicationName {
    name: String,
}

impl View for ApplicationName {
    type V = Seq<char>;

    closed spec fn view(&self) -> Seq<char> {
        self.name@
    }
}

impl ApplicationName {
    pub fn new(name: String) -> (r: ApplicationName)
        ensures
            r@ == name@,
    {
        ApplicationName { name }
    }

    pub fn get_name(&self) -> (r: &String)
        ensures
            r@ == self@,
    {
        &self.name
    }
}

/// Interface that a provider implements to be linked into the service.
///
/// Every key operation has a default that refuses it with
/// `PsaErrorNotSupported` and leaves the provider untouched, so a backend
/// overrides only the operations it implements.
pub trait Provide: Sized {
    /// The description this provider gives of itself.
    spec fn info(&self) -> ProviderInfo;

    /// The provider's own consistency condition, kept by every operation.
    spec fn valid(&self) -> bool;

    /// A description of this provider, gathered by the core provider.
    fn describe(&self) -> (r: ProviderInfo)
        ensures
            r == self.info(),
    ;

    /// Lists the providers running in the service.
    fn list_providers(&self, _op: OpListProviders) -> (r: Result<ResultListProviders, ResponseStatus>)
        default_ensures
            r is Err && r->Err_0 == ResponseStatus::PsaErrorNotSupported,
    {
        Err(ResponseStatus::PsaErrorNotSupported)
    }

    /// Lists the opcodes this provider accepts.
    fn list_opcodes(&self, op: OpListOpcodes) -> (r: Result<ResultListOpcodes, ResponseStatus>);

    /// Answers with the protocol version.
    fn ping(&self, _op: OpPing) -> (r: Result<ResultPing, ResponseStatus>)
        default_ensures
            r is Err && r->Err_0 == ResponseStatus::PsaErrorNotSupported,
    {
        Err(ResponseStatus::PsaErrorNotSupported)
    }

    /// Creates a key named in `op` for `app_name`.
    fn create_key(&mut self, _app_name: ApplicationName, _op: OpCreateKey) -> (r: Result<
        ResultCreateKey,
        ResponseStatus,
    >)
        requires
            old(self).valid(),
        ensures
            final(self).valid(),
            final(self).info() == old(self).info(),
        default_ensures
            r is Err && r->Err_0 == ResponseStatus::PsaErrorNotSupported,
            *final(self) == *old(self),
    {
        Err(ResponseStatus::PsaErrorNotSupported)
    }

    /// Imports the key material in `op` for `app_name`.
    fn import_key(&mut self, _app_name: ApplicationName, _op: OpImportKey) -> (r: Result<
        ResultImportKey,
        ResponseStatus,
    >)
        requires
            old(self).valid(),
        ensures
            final(self).valid(),
            final(self).info() == old(self).info(),
        default_ensures
            r is Err && r->Err_0 == ResponseStatus::PsaErrorNotSupported,
            *final(self) == *old(self),
    {
        Err(ResponseStatus::PsaErrorNotSupported)
    }

    /// Exports the public part of a key of `app_name`.
    fn export_public_key(&mut self, _app_name: ApplicationName, _op: OpExportPublicKey) -> (r:
        Result<ResultExportPublicKey, ResponseStatus>)
        requires
            old(self).valid(),
        ensures
            final(self).valid(),
            final(self).info() == old(self).info(),
        default_ensures
            r is Err && r->Err_0 == ResponseStatus::PsaErrorNotSupported,
            *final(self) == *old(self),
    {
        Err(ResponseStatus::PsaErrorNotSupported)
    }

    /// Destroys a key of `app_name`.
    fn destroy_key(&mut self, _app_name: ApplicationName, _op: OpDestroyKey) -> (r: Result<
        ResultDestroyKey,
        ResponseStatus,
    >)
        requires
            old(self).valid(),
        ensures
            final(self).valid(),
            final(self).info() == old(self).info(),
        default_ensures
            r is Err && r->Err_0 == ResponseStatus::PsaErrorNotSupported,
            *final(self) == *old(self),
    {
        Err(ResponseStatus::PsaErrorNotSupported)
    }

    /// Signs the digest in `op`, as given: the provider does not hash it.
    fn asym_sign(&mut self, _app_name: ApplicationName, _op: OpAsymSign) -> (r: Result<
        ResultAsymSign,
        ResponseStatus,
    >)
        requires
            old(self).valid(),
        ensures
            final(self).valid(),
            final(self).info() == old(self).info(),
        default_ensures
            r is Err && r->Err_0 == ResponseStatus::PsaErrorNotSupported,
            *final(self) == *old(self),
    {
        Err(ResponseStatus::PsaErrorNotSupported)
    }

    /// Verifies a signature over the digest in `op`.
    fn asym_verify(&mut self, _app_name: ApplicationName, _op: OpAsymVerify) -> (r: Result<
        ResultAsymVerify,
        ResponseStatus,
    >)
        requires
            old(self).valid(),
        ensures
            final(self).valid(),
            final(self).info() == old(self).info(),
        default_ensures
            r is Err && r->Err_0 == ResponseStatus::PsaErrorNotSupported,
            *final(self) == *old(self),
    {
        Err(ResponseStatus::PsaErrorNotSupported)
    }
}

} // verus!
