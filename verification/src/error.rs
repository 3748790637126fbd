//! Why a configuration is refused.

use vstd::prelude::*;
use vstd::string::*;

use crate::text::{decimal, join3, numeral};

verus! {

/// Why a text is not hexadecimal. The text is looked at as its bytes in UTF-8.
#[derive(Debug, Clone, Copy, PartialEq, Eq, Structural)]
pub enum HexError {
    /// The byte at that place, given as the character of that number, is no digit.
    InvalidHexCharacter { c: char, index: usize },
    /// The number of bytes is odd.
    OddLength,
    /// The number of bytes does not fit what is read.
    InvalidStringLength,
}

/// Why key material is refused.
#[derive(Debug, Clone, Copy, PartialEq, Eq, Structural)]
pub enum KeyError {
    /// The text is not hexadecimal.
    NotHex { cause: HexError },
    /// The text is hexadecimal, but not of a v4 key.
    Length { got: usize },
}

impl KeyError {
    /// The text of [`KeyError::message`].
    pub open spec fn text(self) -> Seq<char> {
        match self {
            KeyError::NotHex { cause: _ } => "key hex is not valid hex"@,
            KeyError::Length { got } => "key must decode to 32 bytes, got "@ + decimal(got as nat),
        }
    }

    /// What is wrong, for an operator. Where the text is not hexadecimal, the cause says
    /// more.
    pub fn message(&self) -> (r: String)
        ensures
            r@ == self.text(),
    {
        match self {
            KeyError::NotHex { cause: _ } => "key hex is not valid hex".to_owned(),
            KeyError::Length { got } => {
                let mut r = "key must decode to 32 bytes, got ".to_owned();
                r.append(numeral(*got).as_str());
                r
            },
        }
    }
}

/// Why an issuer profile is refused.
#[derive(Debug, Clone, Copy, PartialEq, Eq, Structural)]
pub enum IssuerError {
    /// The issuer is blank.
    EmptyIssuer,
    /// No audience is listed, and not every audience is allowed.
    NoAudience,
    /// The key material is refused.
    Key { error: KeyError },
}

impl IssuerError {
    /// The text of [`IssuerError::message`].
    pub open spec fn text(self) -> Seq<char> {
        match self {
            IssuerError::EmptyIssuer => "issuer must not be empty"@,
            IssuerError::NoAudience =>
                "audiences is empty — refusing to skip audience validation (a token minted for another service would be accepted). Set `audiences`, or opt in with `allow_any_audience: true`"@,
            IssuerError::Key { error } => error.text(),
        }
    }

    /// What is wrong, for an operator.
    pub fn message(&self) -> (r: String)
        ensures
            r@ == self.text(),
    {
        match self {
            IssuerError::EmptyIssuer => "issuer must not be empty".to_owned(),
            IssuerError::NoAudience =>
                "audiences is empty — refusing to skip audience validation (a token minted for another service would be accepted). Set `audiences`, or opt in with `allow_any_audience: true`".to_owned(),
            IssuerError::Key { error } => error.message(),
        }
    }
}

/// Why the key of an issuer is not loaded.
#[derive(Debug)]
pub enum CompileError {
    /// The key material is refused.
    Key { error: KeyError },
    /// The bytes are not taken for a key that signatures are verified with.
    Public { cause: String },
    /// The bytes are not taken for a key that tokens are decrypted with.
    Local { cause: String },
}

impl CompileError {
    /// The text of [`CompileError::message`].
    pub open spec fn text(self) -> Seq<char> {
        match self {
            CompileError::Key { error } => error.text(),
            CompileError::Public { cause } => "invalid v4.public key: "@ + cause@,
            CompileError::Local { cause } => "invalid v4.local key: "@ + cause@,
        }
    }

    /// What is wrong, for an operator.
    pub fn message(&self) -> (r: String)
        ensures
            r@ == self.text(),
    {
        match self {
            CompileError::Key { error } => error.message(),
            CompileError::Public { cause } => {
                let mut r = "invalid v4.public key: ".to_owned();
                r.append(cause.as_str());
                r
            },
            CompileError::Local { cause } => {
                let mut r = "invalid v4.local key: ".to_owned();
                r.append(cause.as_str());
                r
            },
        }
    }
}

/// Why a configuration is refused.
#[derive(Debug)]
pub enum ConfigError {
    /// No issuer is configured.
    NoIssuers,
    /// The issuer profile at that place is refused.
    Issuer { index: usize, error: IssuerError },
    /// An issuer occurs a second time.
    DuplicateIssuer { issuer: String },
    /// The trust level is none of those that exist.
    TrustLevel { got: String },
}

impl ConfigError {
    /// The text of [`ConfigError::message`].
    pub open spec fn text(self) -> Seq<char> {
        match self {
            ConfigError::NoIssuers => "identity.paseto: `issuers` must be non-empty"@,
            ConfigError::Issuer { index, error: _ } => "identity.paseto: issuers["@ + decimal(
                index as nat,
            ) + "]"@,
            ConfigError::DuplicateIssuer { issuer } => "identity.paseto: duplicate issuer '"@
                + issuer@ + "'"@,
            ConfigError::TrustLevel { got } =>
                "resolution.trust_level must be `verified` or `header_asserted`, got '"@ + got@
                + "'"@,
        }
    }

    /// What is wrong, for an operator. Where an issuer profile is at fault, its own
    /// error says more.
    pub fn message(&self) -> (r: String)
        ensures
            r@ == self.text(),
    {
        match self {
            ConfigError::NoIssuers => "identity.paseto: `issuers` must be non-empty".to_owned(),
            ConfigError::Issuer { index, error: _ } => join3(
                "identity.paseto: issuers[",
                numeral(*index).as_str(),
                "]",
            ),
            ConfigError::DuplicateIssuer { issuer } => join3(
                "identity.paseto: duplicate issuer '",
                issuer.as_str(),
                "'",
            ),
            ConfigError::TrustLevel { got } => join3(
                "resolution.trust_level must be `verified` or `header_asserted`, got '",
                got.as_str(),
                "'",
            ),
        }
    }
}

/// Why the resolver is not loaded.
#[derive(Debug)]
pub enum LoadError {
    /// The configuration is refused.
    Config { config: ConfigError },
    /// The key of an issuer is not loaded.
    Compile { compile: CompileError },
}

impl LoadError {
    /// The text of [`LoadError::message`].
    pub open spec fn text(self) -> Seq<char> {
        match self {
            LoadError::Config { config } => config.text(),
            LoadError::Compile { compile } => compile.text(),
        }
    }

    /// What is wrong, for an operator.
    pub fn message(&self) -> (r: String)
        ensures
            r@ == self.text(),
    {
        match self {
            LoadError::Config { config } => config.message(),
            LoadError::Compile { compile } => compile.message(),
        }
    }
}

}
