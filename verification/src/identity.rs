//! What a resolution comes to: an identity, no token, or a token that is refused.

use vstd::prelude::*;

use crate::string_map::StringMap;

verus! {

/// The identity of a caller.
#[derive(Debug)]
pub struct PluginIdentity {
    pub kind: String,
    pub trust_level: String,
    pub subject_id: Option<String>,
    pub auth_provider: Option<String>,
    pub issuer: Option<String>,
    pub roles: Vec<String>,
    pub groups: Vec<String>,
    pub scopes: Vec<String>,
    pub attributes: StringMap,
}

/// What an identity holds.
#[verifier::ext_equal]
pub ghost struct Identity {
    pub kind: Seq<char>,
    pub trust_level: Seq<char>,
    pub subject_id: Option<Seq<char>>,
    pub auth_provider: Option<Seq<char>>,
    pub issuer: Option<Seq<char>>,
    pub roles: Seq<Seq<char>>,
    pub groups: Seq<Seq<char>>,
    pub scopes: Seq<Seq<char>>,
    pub attributes: Map<Seq<char>, Seq<char>>,
}

/// The characters of a string that may be absent.
pub open spec fn owned_text(s: Option<String>) -> Option<Seq<char>> {
    match s {
        Some(s) => Some(s@),
        None => None,
    }
}

impl View for PluginIdentity {
    type V = Identity;

    open spec fn view(&self) -> Identity {
        Identity {
            kind: self.kind@,
            trust_level: self.trust_level@,
            subject_id: owned_text(self.subject_id),
            auth_provider: owned_text(self.auth_provider),
            issuer: owned_text(self.issuer),
            roles: self.roles.deep_view(),
            groups: self.groups.deep_view(),
            scopes: self.scopes.deep_view(),
            attributes: self.attributes@,
        }
    }
}

/// The result of resolving the identity of a caller.
#[derive(Debug)]
pub enum IdentityResolution {
    /// The token was accepted.
    Resolved { identity: PluginIdentity },
    /// There was no token.
    NoToken,
    /// The token was refused.
    Invalid { reason: String },
}

/// What a resolution comes to.
#[verifier::ext_equal]
pub ghost enum Outcome {
    Resolved { identity: Identity },
    NoToken,
    Invalid { reason: Seq<char> },
}

impl View for IdentityResolution {
    type V = Outcome;

    open spec fn view(&self) -> Outcome {
        match *self {
            IdentityResolution::Resolved { identity } => Outcome::Resolved { identity: identity@ },
            IdentityResolution::NoToken => Outcome::NoToken,
            IdentityResolution::Invalid { reason } => Outcome::Invalid { reason: reason@ },
        }
    }
}

/// The word under which an outcome is counted.
pub open spec fn outcome_label(outcome: Outcome) -> Seq<char> {
    match outcome {
        Outcome::Resolved { .. } => "resolved"@,
        Outcome::NoToken => "none"@,
        Outcome::Invalid { .. } => "invalid"@,
    }
}

impl IdentityResolution {
    /// The word under which the outcome is counted.
    pub fn label(&self) -> (r: &'static str)
        ensures
            r@ == outcome_label(self@),
    {
        match self {
            IdentityResolution::Resolved { .. } => "resolved",
            IdentityResolution::NoToken => "none",
            IdentityResolution::Invalid { .. } => "invalid",
        }
    }
}

}
