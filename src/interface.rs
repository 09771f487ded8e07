//! Declarations of the wire types of `parsec_interface` that the library
//! handles. The request and result types are plain structs and are declared
//! with their fields; `KeyAttributes` and `ProviderInfo` are carried through
//! unopened.
use vstd::prelude::*;

verus! {

#[verifier::external_type_specification]
pub struct ExProviderID(parsec_interface::requests::ProviderID);

#[verifier::external_type_specification]
pub struct ExResponseStatus(parsec_interface::requests::ResponseStatus);

#[verifier::external_type_specification]
pub struct ExOpcode(parsec_interface::requests::Opcode);

#[verifier::external_type_specification]
#[verifier::external_body]
pub struct ExKeyAttributes(parsec_interface::operations::key_attributes::KeyAttributes);

#[verifier::external_type_specification]
#[verifier::external_body]
pub struct ExProviderInfo(parsec_interface::operations::ProviderInfo);

#[verifier::external_type_specification]
pub struct ExOpListProviders(parsec_interface::operations::OpListProviders);

#[verifier::external_type_specification]
pub struct ExResultListProviders(parsec_interface::operations::ResultListProviders);

#[verifier::external_type_specification]
pub struct ExOpListOpcodes(parsec_interface::operations::OpListOpcodes);

#[verifier::external_type_specification]
pub struct ExResultListOpcodes(parsec_interface::operations::ResultListOpcodes);

#[verifier::external_type_specification]
pub struct ExOpPing(parsec_interface::operations::OpPing);

#[verifier::external_type_specification]
pub struct ExResultPing(parsec_interface::operations::ResultPing);

#[verifier::external_type_specification]
pub struct ExOpCreateKey(parsec_interface::operations::OpCreateKey);

#[verifier::external_type_specification]
pub struct ExResultCreateKey(parsec_interface::operations::ResultCreateKey);

#[verifier::external_type_specification]
pub struct ExOpImportKey(parsec_interface::operations::OpImportKey);

#[verifier::external_type_specification]
pub struct ExResultImportKey(parsec_interface::operations::ResultImportKey);

#[verifier::external_type_specification]
pub struct ExOpExportPublicKey(parsec_interface::operations::OpExportPublicKey);

#[verifier::external_type_specification]
pub struct ExResultExportPublicKey(parsec_interface::operations::ResultExportPublicKey);

#[verifier::external_type_specification]
pub struct ExOpDestroyKey(parsec_interface::operations::OpDestroyKey);

#[verifier::external_type_specification]
pub struct ExResultDestroyKey(parsec_interface::operations::ResultDestroyKey);

#[verifier::external_type_specification]
pub struct ExOpAsymSign(parsec_interface::operations::OpAsymSign);

#[verifier::external_type_specification]
pub struct ExResultAsymSign(parsec_interface::operations::ResultAsymSign);

#[verifier::external_type_specification]
pub struct ExOpAsymVerify(parsec_interface::operations::OpAsymVerify);

#[verifier::external_type_specification]
pub struct ExResultAsymVerify(parsec_interface::operations::ResultAsymVerify);

} // verus!
