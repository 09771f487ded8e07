//! Configuration-time selection of backends.
use parsec_interface::requests::ProviderID;
use vstd::prelude::*;

verus! {

/// Kind of backend named by a configuration entry.
#[derive(Copy, Clone, Debug, PartialEq, Eq, Structural)]
pub enum ProviderType {
    MbedProvider,
    Pkcs11Provider,
    TpmProvider,
}

/// The routing identity that a configured backend of type `t` answers to.
pub open spec fn provider_id_of(t: ProviderType) -> ProviderID {
    match t {
        ProviderType::MbedProvider => ProviderID::MbedProvider,
        ProviderType::Pkcs11Provider => ProviderID::Pkcs11Provider,
        ProviderType::TpmProvider => ProviderID::TpmProvider,
    }
}

impl ProviderType {
    /// The provider id that requests use to address a backend of this type.
    pub fn to_provider_id(self) -> (r: ProviderID)
        ensures
            r == provider_id_of(self),
    {
        match self {
            ProviderType::MbedProvider => ProviderID::MbedProvider,
            ProviderType::Pkcs11Provider => ProviderID::Pkcs11Provider,
            ProviderType::TpmProvider => ProviderID::TpmProvider,
        }
    }
}

/// One backend entry of the service configuration, as resolved by the
/// configuration loader.
#[derive(Debug)]
pub struct ProviderConfig {
    pub provider_type: ProviderType,
    pub key_id_manager: String,
    pub library_path: Option<String>,
    pub slot_number: Option<usize>,
    pub user_pin: Option<String>,
    pub tcti: Option<String>,
}

} // verus!
