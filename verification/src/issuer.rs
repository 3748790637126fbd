//! Issuers with their keys loaded.

use pasetors::keys::{AsymmetricPublicKey, SymmetricKey};
use pasetors::version4::V4;
use vstd::prelude::*;

use crate::config::{
    key_fault, spelled_bytes, valid_key, ClaimMappingConfig, IssuerConfig, KeyMaterialConfig,
};
use crate::error::CompileError;
use crate::paseto::{error_text, load_local_key, load_public_key, local_key_bytes, public_key_bytes};

verus! {

broadcast use vstd::string::group_string_axioms;

/// A loaded key. Its kind selects the PASETO purpose.
pub enum CompiledKey {
    /// For signed tokens.
    Public(AsymmetricPublicKey<V4>),
    /// For encrypted tokens.
    Local(SymmetricKey<V4>),
}

/// An issuer with its key loaded.
pub struct CompiledIssuer {
    pub issuer: String,
    pub audiences: Vec<String>,
    pub key: CompiledKey,
    pub claim_mappings: ClaimMappingConfig,
}

/// Whether a loaded key is the one that key material spells, for the same purpose.
pub open spec fn holds_key(key: CompiledKey, material: KeyMaterialConfig) -> bool {
    match key {
        CompiledKey::Public(key) => material is PublicHex && spelled_bytes(material) == Some(
            public_key_bytes(key),
        ),
        CompiledKey::Local(key) => material is LocalHex && spelled_bytes(material) == Some(
            local_key_bytes(key),
        ),
    }
}

/// Whether a loaded issuer is the one of a profile.
pub open spec fn loaded_from(ci: CompiledIssuer, profile: IssuerConfig) -> bool {
    &&& ci.issuer == profile.issuer
    &&& ci.audiences == profile.audiences
    &&& ci.claim_mappings == profile.claim_mappings
    &&& holds_key(ci.key, profile.key)
}

/// Loads the key of an issuer profile.
pub fn compile_issuer(ic: IssuerConfig) -> (r: Result<CompiledIssuer, CompileError>)
    ensures
        r is Ok <==> valid_key(ic.key),
        r matches Ok(ci) ==> loaded_from(ci, ic),
        r matches Err(error) ==> (error matches CompileError::Key { error } && key_fault(
            ic.key,
            error,
        )),
{
    let bytes = match ic.key.key_bytes() {
        Ok(bytes) => bytes,
        Err(error) => {
            return Err(CompileError::Key { error });
        },
    };
    let key = match &ic.key {
        KeyMaterialConfig::PublicHex { .. } => match load_public_key(bytes.as_slice()) {
            Ok(key) => CompiledKey::Public(key),
            Err(e) => {
                return Err(CompileError::Public { cause: error_text(&e) });
            },
        },
        KeyMaterialConfig::LocalHex { .. } => match load_local_key(bytes.as_slice()) {
            Ok(key) => CompiledKey::Local(key),
            Err(e) => {
                return Err(CompileError::Local { cause: error_text(&e) });
            },
        },
    };
    Ok(
        CompiledIssuer {
            issuer: ic.issuer,
            audiences: ic.audiences,
            key,
            claim_mappings: ic.claim_mappings,
        },
    )
}

}
