use parsec_core::core_provider::CoreProvider;
use parsec_core::handle_provider::HandleProvider;
use parsec_core::key_id_manager::KeyIdManager;
use parsec_core::provide::{ApplicationName, Provide};
use parsec_core::providers::ProviderType;
use parsec_interface::operations::key_attributes::{
    Algorithm, HashAlgorithm, KeyAttributes, KeyType, SignAlgorithm,
};
use parsec_interface::operations::{
    OpAsymSign, OpAsymVerify, OpCreateKey, OpDestroyKey, OpExportPublicKey, OpImportKey,
    OpListOpcodes, OpListProviders, OpPing, ProviderInfo,
};
use parsec_interface::requests::{Opcode, ProviderID, ResponseStatus};
use uuid::Uuid;

fn info(id: ProviderID, description: &str, n: u8) -> ProviderInfo {
    ProviderInfo {
        uuid: Uuid::from_bytes([n; 16]),
        description: description.to_string(),
        vendor: "Test".to_string(),
        version_maj: 0,
        version_min: 1,
        version_rev: 0,
        id,
    }
}

fn backend(id: ProviderID, description: &str, n: u8) -> (ProviderID, HandleProvider) {
    (id, HandleProvider::new(id, info(id, description, n), KeyIdManager::new()))
}

fn two_backends() -> CoreProvider<HandleProvider> {
    CoreProvider::new(
        info(ProviderID::CoreProvider, "core", 0),
        vec![
            backend(ProviderID::MbedProvider, "software", 1),
            backend(ProviderID::Pkcs11Provider, "pkcs11", 2),
        ],
    )
    .ok()
    .expect("distinct ids")
}

fn app(name: &str) -> ApplicationName {
    ApplicationName::new(name.to_string())
}

fn attributes() -> KeyAttributes {
    KeyAttributes {
        key_type: KeyType::RsaKeypair,
        ecc_curve: None,
        algorithm: Algorithm::sign(SignAlgorithm::RsaPkcs1v15Sign, Some(HashAlgorithm::Sha256)),
        key_size: 1024,
        permit_export: false,
        permit_encrypt: false,
        permit_decrypt: false,
        permit_sign: true,
        permit_verify: true,
        permit_derive: false,
    }
}

fn create(name: &str) -> OpCreateKey {
    OpCreateKey { key_name: name.to_string(), key_attributes: attributes() }
}

fn destroy(name: &str) -> OpDestroyKey {
    OpDestroyKey { key_name: name.to_string() }
}

fn sign(name: &str) -> OpAsymSign {
    OpAsymSign { key_name: name.to_string(), hash: vec![0xAB; 32] }
}

fn verify(name: &str) -> OpAsymVerify {
    OpAsymVerify { key_name: name.to_string(), hash: vec![0xAB; 32], signature: vec![1, 2, 3] }
}

fn export(name: &str) -> OpExportPublicKey {
    OpExportPublicKey { key_name: name.to_string() }
}

fn import(name: &str) -> OpImportKey {
    OpImportKey { key_name: name.to_string(), key_attributes: attributes(), key_data: vec![5; 16] }
}

#[test]
fn provider_type_maps_to_provider_id() {
    assert_eq!(ProviderType::MbedProvider.to_provider_id(), ProviderID::MbedProvider);
    assert_eq!(ProviderType::Pkcs11Provider.to_provider_id(), ProviderID::Pkcs11Provider);
    assert_eq!(ProviderType::TpmProvider.to_provider_id(), ProviderID::TpmProvider);
}

#[test]
fn list_providers_in_configuration_order() {
    let core = CoreProvider::new(
        info(ProviderID::CoreProvider, "core", 0),
        vec![
            backend(ProviderID::TpmProvider, "tpm", 3),
            backend(ProviderID::MbedProvider, "software", 1),
            backend(ProviderID::Pkcs11Provider, "pkcs11", 2),
        ],
    )
    .ok()
    .expect("distinct ids");
    let listed = core.list_providers(OpListProviders).unwrap().providers;
    let ids: Vec<ProviderID> = listed.iter().map(|p| p.id).collect();
    assert_eq!(
        ids,
        vec![
            ProviderID::CoreProvider,
            ProviderID::TpmProvider,
            ProviderID::MbedProvider,
            ProviderID::Pkcs11Provider
        ]
    );
    assert_eq!(listed[0].description, "core");
    assert_eq!(listed[1].description, "tpm");
    assert_eq!(listed[3].uuid, Uuid::from_bytes([2; 16]));
}

#[test]
fn list_providers_with_no_backend_lists_core_only() {
    let core: CoreProvider<HandleProvider> =
        CoreProvider::new(info(ProviderID::CoreProvider, "core", 0), Vec::new())
            .ok()
            .expect("empty table");
    let listed = core.list_providers(OpListProviders).unwrap().providers;
    assert_eq!(listed.len(), 1);
    assert_eq!(listed[0].id, ProviderID::CoreProvider);
}

#[test]
fn duplicate_provider_id_fails_construction() {
    let r = CoreProvider::new(
        info(ProviderID::CoreProvider, "core", 0),
        vec![
            backend(ProviderID::MbedProvider, "software", 1),
            backend(ProviderID::Pkcs11Provider, "pkcs11", 2),
            backend(ProviderID::MbedProvider, "software again", 4),
        ],
    );
    assert_eq!(r.err(), Some(ResponseStatus::PsaErrorInvalidArgument));
}

#[test]
fn backend_claiming_core_id_fails_construction() {
    let r = CoreProvider::new(
        info(ProviderID::CoreProvider, "core", 0),
        vec![backend(ProviderID::CoreProvider, "impostor", 5)],
    );
    assert_eq!(r.err(), Some(ResponseStatus::PsaErrorInvalidArgument));
}

#[test]
fn ping_answers_version() {
    let core = two_backends();
    let r = core.ping(OpPing).unwrap();
    assert_eq!((r.supp_version_maj, r.supp_version_min), (1, 0));
}

#[test]
fn list_opcodes_routes_by_id() {
    let core = two_backends();
    let own = core.route_list_opcodes(ProviderID::CoreProvider, OpListOpcodes).unwrap().opcodes;
    assert_eq!(own.len(), 3);
    assert!(own.contains(&Opcode::Ping));
    assert!(own.contains(&Opcode::ListProviders));
    assert!(own.contains(&Opcode::ListOpcodes));
    let mbed = core.route_list_opcodes(ProviderID::MbedProvider, OpListOpcodes).unwrap().opcodes;
    assert_eq!(mbed.len(), 2);
    assert!(mbed.contains(&Opcode::CreateKey));
    assert!(mbed.contains(&Opcode::DestroyKey));
    assert_eq!(
        core.route_list_opcodes(ProviderID::TpmProvider, OpListOpcodes).unwrap_err(),
        ResponseStatus::PsaErrorInvalidArgument
    );
}

#[test]
fn key_operation_reaches_only_addressed_backend() {
    let mut core = two_backends();
    assert!(core.route_create_key(ProviderID::MbedProvider, app("A"), create("k")).is_ok());
    assert_eq!(
        core.route_destroy_key(ProviderID::Pkcs11Provider, app("A"), destroy("k")).unwrap_err(),
        ResponseStatus::PsaErrorDoesNotExist
    );
    assert!(core.route_create_key(ProviderID::Pkcs11Provider, app("A"), create("k")).is_ok());
    assert!(core.route_destroy_key(ProviderID::MbedProvider, app("A"), destroy("k")).is_ok());
    assert!(core.route_destroy_key(ProviderID::Pkcs11Provider, app("A"), destroy("k")).is_ok());
}

#[test]
fn unconfigured_provider_is_invalid_argument() {
    let mut core = two_backends();
    let id = ProviderID::TpmProvider;
    let bad = ResponseStatus::PsaErrorInvalidArgument;
    assert_eq!(core.route_create_key(id, app("A"), create("k")).unwrap_err(), bad);
    assert_eq!(core.route_import_key(id, app("A"), import("k")).unwrap_err(), bad);
    assert_eq!(core.route_export_public_key(id, app("A"), export("k")).unwrap_err(), bad);
    assert_eq!(core.route_destroy_key(id, app("A"), destroy("k")).unwrap_err(), bad);
    assert_eq!(core.route_asym_sign(id, app("A"), sign("k")).unwrap_err(), bad);
    assert_eq!(core.route_asym_verify(id, app("A"), verify("k")).unwrap_err(), bad);
    // no backend was reached: the key name is still free on both
    assert!(core.route_create_key(ProviderID::MbedProvider, app("A"), create("k")).is_ok());
    assert!(core.route_create_key(ProviderID::Pkcs11Provider, app("A"), create("k")).is_ok());
}

#[test]
fn core_id_is_reserved_for_key_operations() {
    let mut core = two_backends();
    let id = ProviderID::CoreProvider;
    let ns = ResponseStatus::PsaErrorNotSupported;
    assert_eq!(core.route_create_key(id, app("A"), create("k")).unwrap_err(), ns);
    assert_eq!(core.route_import_key(id, app("A"), import("k")).unwrap_err(), ns);
    assert_eq!(core.route_export_public_key(id, app("A"), export("k")).unwrap_err(), ns);
    assert_eq!(core.route_destroy_key(id, app("A"), destroy("k")).unwrap_err(), ns);
    assert_eq!(core.route_asym_sign(id, app("A"), sign("k")).unwrap_err(), ns);
    assert_eq!(core.route_asym_verify(id, app("A"), verify("k")).unwrap_err(), ns);
}

#[test]
fn unimplemented_operations_are_not_supported_and_keep_keys() {
    let mut core = two_backends();
    let id = ProviderID::MbedProvider;
    let ns = ResponseStatus::PsaErrorNotSupported;
    core.route_create_key(id, app("A"), create("k")).unwrap();
    assert_eq!(core.route_asym_sign(id, app("A"), sign("k")).unwrap_err(), ns);
    assert_eq!(core.route_asym_verify(id, app("A"), verify("k")).unwrap_err(), ns);
    assert_eq!(core.route_export_public_key(id, app("A"), export("k")).unwrap_err(), ns);
    assert_eq!(core.route_import_key(id, app("A"), import("other")).unwrap_err(), ns);
    // the recorded key is untouched, and no key was recorded by the import
    assert_eq!(
        core.route_create_key(id, app("A"), create("k")).unwrap_err(),
        ResponseStatus::PsaErrorAlreadyExists
    );
    assert!(core.route_create_key(id, app("A"), create("other")).is_ok());
}

#[test]
fn software_and_pkcs11_scenario() {
    let mut core = two_backends();
    let software = ProviderID::MbedProvider;
    assert!(core.route_create_key(software, app("A"), create("k")).is_ok());
    assert_eq!(
        core.route_create_key(software, app("A"), create("k")).unwrap_err(),
        ResponseStatus::PsaErrorAlreadyExists
    );
    let unconfigured = ProviderID::TpmProvider;
    assert_eq!(
        core.route_asym_sign(unconfigured, app("A"), sign("k")).unwrap_err(),
        ResponseStatus::PsaErrorInvalidArgument
    );
    assert_eq!(
        core.route_create_key(unconfigured, app("A"), create("k")).unwrap_err(),
        ResponseStatus::PsaErrorInvalidArgument
    );
}

#[test]
fn backend_records_handles_in_its_key_store() {
    let (_, mut b) = backend(ProviderID::MbedProvider, "software", 1);
    b.create_key(app("A"), create("first")).unwrap();
    b.create_key(app("A"), create("second")).unwrap();
    let keys = b.into_key_ids();
    let t = parsec_core::key_id_manager::KeyTriple::new(
        "A".to_string(),
        ProviderID::MbedProvider,
        "second".to_string(),
    );
    assert_eq!(keys.get(&t).unwrap().id, vec![1, 0, 0, 0, 0, 0, 0, 0]);
}

#[test]
fn describe_returns_configured_info() {
    let (_, b) = backend(ProviderID::Pkcs11Provider, "pkcs11", 42);
    let d = b.describe();
    assert_eq!(d.id, ProviderID::Pkcs11Provider);
    assert_eq!(d.description, "pkcs11");
    assert_eq!(d.uuid, Uuid::from_bytes([42; 16]));
}

#[test]
fn application_name_round_trips() {
    assert_eq!(app("client").get_name(), "client");
}
