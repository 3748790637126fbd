//! The identity resolver: a configuration loaded once, and requests resolved with it.

use vstd::prelude::*;

use crate::config::{
    config_fault, sound_at, valid_config, PasetoConfig, ResolutionConfig, TokenSourceConfig,
};
use crate::error::LoadError;
use crate::header::{can_extract_token, extract_token, readable, token_in};
use crate::identity::{IdentityResolution, Outcome};
use crate::issuer::{compile_issuer, loaded_from, CompiledIssuer};
use crate::paseto::{agreeing_clock, Clock};
use crate::verify::{verdict, verify_against_issuer};

verus! {

broadcast use {vstd::string::group_string_axioms, vstd::seq_lib::group_seq_properties};

/// What a resolver works with.
pub struct Inner {
    pub token_source: TokenSourceConfig,
    pub issuers: Vec<CompiledIssuer>,
    pub resolution: ResolutionConfig,
}

/// Whether a resolver works with what a configuration says.
pub open spec fn loaded(inner: Inner, config: PasetoConfig) -> bool {
    &&& inner.token_source == config.token_source
    &&& inner.resolution == config.resolution
    &&& inner.issuers@.len() == config.issuers@.len()
    &&& forall|i: int|
        0 <= i < inner.issuers@.len() ==> loaded_from(
            #[trigger] inner.issuers@[i],
            config.issuers@[i],
        )
}

/// What attempts are seen to have come to.
pub open spec fn outcomes(attempts: Seq<IdentityResolution>) -> Seq<Outcome> {
    attempts.map_values(|attempt: IdentityResolution| attempt@)
}

/// What several attempts come to: the first that succeeded, or else the last.
pub open spec fn settled(attempts: Seq<Outcome>) -> Outcome
    decreases attempts.len(),
{
    if attempts.len() == 0 {
        Outcome::Invalid { reason: "no configured issuer accepted the token"@ }
    } else if attempts[0] is Resolved || attempts.len() == 1 {
        attempts[0]
    } else {
        settled(attempts.drop_first())
    }
}

/// Several attempts come to the first that succeeded, and where none did, to the last.
pub proof fn law_first_success_wins(attempts: Seq<Outcome>, i: int)
    requires
        0 <= i < attempts.len(),
        forall|j: int| 0 <= j < i ==> !((#[trigger] attempts[j]) is Resolved),
        attempts[i] is Resolved || i == attempts.len() - 1,
    ensures
        settled(attempts) == attempts[i],
    decreases attempts.len(),
{
    if i > 0 {
        let rest = attempts.drop_first();
        assert forall|j: int| 0 <= j < i - 1 implies !((#[trigger] rest[j]) is Resolved) by {
            assert(rest[j] == attempts[j + 1]);
        }
        assert(rest[i - 1] == attempts[i]);
        law_first_success_wins(rest, i - 1);
    }
}

/// What a token comes to with each of the issuers, given what the clock says each time.
pub open spec fn verdicts(inner: Inner, token: Seq<char>, clocks: Seq<Clock>) -> Seq<Outcome> {
    Seq::new(
        inner.issuers@.len(),
        |i: int| verdict(inner.issuers@[i], token, clocks[i], inner.resolution),
    )
}

/// What a request comes to, given what the clock says with each of the issuers. One that
/// stands behind the first that accepts the token does not count.
pub open spec fn outcome_at(
    inner: Inner,
    headers: Seq<(String, String)>,
    clocks: Seq<Clock>,
) -> Outcome {
    match token_in(inner.token_source, headers) {
        Some(token) => settled(verdicts(inner, token, clocks)),
        None => Outcome::NoToken,
    }
}

/// Whether a request can come to an outcome: it does so with some readings of the clock.
pub open spec fn resolves_to(
    inner: Inner,
    headers: Seq<(String, String)>,
    outcome: Outcome,
) -> bool {
    exists|clocks: Seq<Clock>|
        clocks.len() == inner.issuers@.len() && outcome == #[trigger] outcome_at(
            inner,
            headers,
            clocks,
        )
}

/// Whether the attempt at `i` is the first that succeeded, or the last where none did.
pub open spec fn decisive(attempts: Seq<IdentityResolution>, i: int) -> bool {
    &&& 0 <= i < attempts.len()
    &&& attempts[i] is Resolved || i == attempts.len() - 1
    &&& forall|j: int| 0 <= j < i ==> !((#[trigger] attempts[j]) is Resolved)
}

/// Whether an attempt to resolve a token with an issuer came to that.
pub open spec fn attempted(
    ci: CompiledIssuer,
    token: Seq<char>,
    resolution: ResolutionConfig,
    r: IdentityResolution,
) -> bool {
    exists|text: &str|
        text@ == token && #[trigger] call_ensures(
            verify_against_issuer,
            (&ci, text, &resolution),
            r,
        )
}

/// Whether those are the attempts to resolve a token with one issuer after the other: all
/// of them are tried, or those up to the first that accepts the token.
pub open spec fn attempts_made(
    inner: Inner,
    token: Seq<char>,
    attempts: Seq<IdentityResolution>,
) -> bool {
    &&& attempts.len() <= inner.issuers@.len()
    &&& forall|i: int|
        0 <= i < attempts.len() ==> attempted(
            inner.issuers@[i],
            token,
            inner.resolution,
            #[trigger] attempts[i],
        )
    &&& attempts.len() == inner.issuers@.len() || (attempts.len() > 0 && attempts.last() is Resolved)
}

/// Whether a request comes to what the attempts with its token came to.
pub open spec fn resolved_by_attempts(
    inner: Inner,
    headers: Seq<(String, String)>,
    r: IdentityResolution,
) -> bool {
    match token_in(inner.token_source, headers) {
        Some(token) => exists|attempts: Seq<IdentityResolution>| #[trigger]
            attempts_made(inner, token, attempts) && (if attempts.len() == 0 {
                r@ == settled(Seq::empty())
            } else {
                exists|i: int| #[trigger] decisive(attempts, i) && r == attempts[i]
            }),
        None => r is NoToken,
    }
}

/// Says what several attempts come to.
pub fn settle(attempts: Vec<IdentityResolution>) -> (r: IdentityResolution)
    ensures
        r@ == settled(outcomes(attempts@)),
        attempts@.len() > 0 ==> exists|i: int| #[trigger]
            decisive(attempts@, i) && r == attempts@[i],
{
    let mut list = attempts;
    let ghost all = outcomes(attempts@);
    let mut i: usize = 0;
    assert(all.skip(0) == all);
    while i < list.len()
        invariant
            i <= list.len(),
            all == outcomes(attempts@),
            list@ == attempts@,
            forall|j: int| 0 <= j < i ==> !((#[trigger] attempts@[j]) is Resolved),
            i < list.len() || list.len() == 0,
            settled(all.skip(i as int)) == settled(all),
        decreases list.len() - i,
    {
        let ghost rest = all.skip(i as int);
        assert(rest[0] == list@[i as int]@);
        assert(rest.drop_first() == all.skip(i + 1));
        let resolved = match &list[i] {
            IdentityResolution::Resolved { .. } => true,
            _ => false,
        };
        if resolved || i + 1 == list.len() {
            assert(decisive(attempts@, i as int));
            return list.remove(i);
        }
        i += 1;
    }
    IdentityResolution::Invalid { reason: "no configured issuer accepted the token".to_owned() }
}

/// Resolves a request: takes the token out of its headers, and tries one issuer after
/// the other until one accepts it.
pub fn resolve(inner: &Inner, headers: &[(String, String)]) -> (r: IdentityResolution)
    requires
        readable(inner.token_source, headers@),
    ensures
        resolves_to(*inner, headers@, r@),
        resolved_by_attempts(*inner, headers@, r),
{
    let token = match extract_token(&inner.token_source, headers) {
        Some(token) => token,
        None => {
            assert(outcome_at(
                *inner,
                headers@,
                Seq::new(inner.issuers@.len(), |i: int| agreeing_clock()),
            ) is NoToken);
            return IdentityResolution::NoToken;
        },
    };
    let mut attempts: Vec<IdentityResolution> = Vec::new();
    let ghost mut clocks: Seq<Clock> = Seq::empty();
    let mut found = false;
    let mut i: usize = 0;
    while i < inner.issuers.len() && !found
        invariant
            i <= inner.issuers.len(),
            clocks.len() == i,
            attempts@.len() == i,
            forall|j: int|
                0 <= j < i ==> (#[trigger] attempts@[j])@ == verdict(
                    inner.issuers@[j],
                    token@,
                    clocks[j],
                    inner.resolution,
                ),
            forall|j: int| 0 <= j < i - 1 ==> !((#[trigger] attempts@[j])@ is Resolved),
            forall|j: int|
                0 <= j < i ==> attempted(
                    inner.issuers@[j],
                    token@,
                    inner.resolution,
                    #[trigger] attempts@[j],
                ),
            i == 0 ==> !found,
            i > 0 ==> found == (attempts@[i - 1]@ is Resolved),
        decreases inner.issuers.len() - i,
    {
        let text = token.as_str();
        let attempt = verify_against_issuer(&inner.issuers[i], text, &inner.resolution);
        assert(attempted(inner.issuers@[i as int], token@, inner.resolution, attempt)) by {
            assert(call_ensures(
                verify_against_issuer,
                (&inner.issuers@[i as int], text, &inner.resolution),
                attempt,
            ));
        }
        proof {
            clocks = clocks.push(
                choose|clock: Clock|
                    attempt@ == #[trigger] verdict(
                        inner.issuers@[i as int],
                        token@,
                        clock,
                        inner.resolution,
                    ),
            );
        }
        found = match &attempt {
            IdentityResolution::Resolved { .. } => true,
            _ => false,
        };
        attempts.push(attempt);
        i += 1;
    }
    proof {
        let padded = Seq::new(
            inner.issuers@.len(),
            |j: int|
                if j < i {
                    clocks[j]
                } else {
                    agreeing_clock()
                },
        );
        let all = verdicts(*inner, token@, padded);
        let seen = outcomes(attempts@);
        assert forall|j: int| 0 <= j < i implies seen[j] == all[j] by {
            assert(attempts@[j]@ == verdict(
                inner.issuers@[j],
                token@,
                clocks[j],
                inner.resolution,
            ));
        }
        if i > 0 {
            law_first_success_wins(seen, i - 1);
            law_first_success_wins(all, i - 1);
        } else {
            assert(all == seen);
        }
        assert(outcome_at(*inner, headers@, padded) == settled(seen));
        assert(attempts_made(*inner, token@, attempts@));
        if i == 0 {
            assert(seen == Seq::<Outcome>::empty());
        }
    }
    settle(attempts)
}

/// Resolves the identity of callers from the PASETO tokens that they present.
pub struct PasetoIdentityPlugin {
    pub inner: Inner,
}

impl PasetoIdentityPlugin {
    /// Loads a configuration. One that is not in order is refused.
    pub fn from_config(config: PasetoConfig) -> (r: Result<Self, LoadError>)
        ensures
            r is Ok <==> valid_config(config),
            r matches Ok(plugin) ==> loaded(plugin.inner, config),
            r matches Err(error) ==> (error matches LoadError::Config { config: fault }
                && config_fault(config, fault)),
    {
        if let Err(fault) = config.validate() {
            return Err(LoadError::Config { config: fault });
        }
        let ghost profiles = config.issuers@;
        let mut issuers: Vec<CompiledIssuer> = Vec::new();
        for profile in it: config.issuers
            invariant
                it.seq() == profiles,
                issuers@.len() == it.index(),
                forall|i: int| 0 <= i < profiles.len() ==> #[trigger] sound_at(profiles, i),
                forall|i: int|
                    0 <= i < issuers@.len() ==> loaded_from(#[trigger] issuers@[i], profiles[i]),
        {
            assert(sound_at(profiles, it.index() as int));
            match compile_issuer(profile) {
                Ok(ci) => {
                    issuers.push(ci);
                },
                Err(compile) => {
                    return Err(LoadError::Compile { compile });
                },
            }
        }
        Ok(
            PasetoIdentityPlugin {
                inner: Inner {
                    token_source: config.token_source,
                    issuers,
                    resolution: config.resolution,
                },
            },
        )
    }

    /// Tells whether [`PasetoIdentityPlugin::resolve_identity`] can be called.
    pub fn can_resolve(&self, headers: &[(String, String)]) -> (r: bool)
        ensures
            r == readable(self.inner.token_source, headers@),
    {
        can_extract_token(&self.inner.token_source, headers)
    }

    /// Resolves the identity of the caller of a request.
    pub fn resolve_identity(&self, headers: &[(String, String)]) -> (r: IdentityResolution)
        requires
            readable(self.inner.token_source, headers@),
        ensures
            resolves_to(self.inner, headers@, r@),
            call_ensures(resolve, (&self.inner, headers), r),
    {
        resolve(&self.inner, headers)
    }

    /// Resolves the identity of the caller of a request, where that can be done.
    pub fn try_resolve_identity(&self, headers: &[(String, String)]) -> (r: Option<
        IdentityResolution,
    >)
        ensures
            r is Some <==> readable(self.inner.token_source, headers@),
            r matches Some(resolution) ==> resolves_to(self.inner, headers@, resolution@),
            r matches Some(resolution) ==> call_ensures(
                resolve,
                (&self.inner, headers),
                resolution,
            ),
    {
        if self.can_resolve(headers) {
            Some(self.resolve_identity(headers))
        } else {
            None
        }
    }
}

}
