//! Resolves the identity of a caller from a PASETO v4 token.
//!
//! A token is taken out of the headers of a request and verified with the keys of the
//! issuers that an operator configures: a `v4.public` token with an Ed25519 public key, a
//! `v4.local` token with a symmetric key. Its claims are then mapped to an identity.
//!
//! [`config`] says what a configuration must be like, and [`plugin`] loads one and resolves
//! requests. [`laws`] states what holds of the whole, and the modules named after a part,
//! such as [`text_laws`], what the results of calls into that part satisfy.
pub mod claim_laws;
pub mod claims;
pub mod config;
pub mod config_laws;
pub mod error;
pub mod header;
pub mod header_laws;
pub mod identity;
pub mod issuer;
pub mod json;
pub mod laws;
pub mod paseto;
pub mod plugin;
pub mod resolve_laws;
pub mod string_map;
pub mod text;
pub mod text_laws;
pub mod verify;

pub use config::{
    ClaimMappingConfig, IssuerConfig, KeyMaterialConfig, PasetoConfig, ResolutionConfig,
    TokenSourceConfig,
};
pub use plugin::PasetoIdentityPlugin;
