//! What the claims of a token say about the caller.

use vstd::prelude::*;

use crate::config::{ClaimMappingConfig, ResolutionConfig};
use crate::identity::{Identity, IdentityResolution, Outcome, PluginIdentity};
use crate::issuer::CompiledIssuer;
use crate::json::{at_path, resolve_json_path, Json, JsonTree};
use crate::string_map::StringMap;
use crate::text::{blank, is_blank, join3, split_words, words};

verus! {

broadcast use {vstd::string::group_string_axioms, vstd::seq_lib::group_seq_properties};

/// The text at a dotted path: nothing where there is no value, or one of another kind.
pub open spec fn text_at(claims: JsonTree, path: Seq<char>) -> Option<Seq<char>> {
    match at_path(claims, path) {
        Some(JsonTree::Text(s)) => Some(s),
        _ => None,
    }
}

/// The texts among the items of an array, in order.
pub open spec fn texts_among(items: Seq<JsonTree>) -> Seq<Seq<char>>
    decreases items.len(),
{
    if items.len() == 0 {
        seq![]
    } else {
        match items.last() {
            JsonTree::Text(s) => texts_among(items.drop_last()).push(s),
            _ => texts_among(items.drop_last()),
        }
    }
}

/// The list that a value stands for: the texts of an array, the words of a text, and
/// nothing for any other value or none.
pub open spec fn listed(value: Option<JsonTree>) -> Seq<Seq<char>> {
    match value {
        Some(JsonTree::Array(items)) => texts_among(items),
        Some(JsonTree::Text(s)) => words(s),
        _ => seq![],
    }
}

/// The lists at the given paths, one after the other.
pub open spec fn lists_at(claims: JsonTree, paths: Seq<Seq<char>>) -> Seq<Seq<char>>
    decreases paths.len(),
{
    if paths.len() == 0 {
        seq![]
    } else {
        lists_at(claims, paths.drop_last()) + listed(at_path(claims, paths.last()))
    }
}

/// The attributes that the mappings, from path to attribute, give. A path without a
/// text gives none; of two texts for one attribute the later one counts.
pub open spec fn attributes_from(
    claims: JsonTree,
    mappings: Seq<(Seq<char>, Seq<char>)>,
) -> Map<Seq<char>, Seq<char>>
    decreases mappings.len(),
{
    if mappings.len() == 0 {
        Map::empty()
    } else {
        let before = attributes_from(claims, mappings.drop_last());
        match text_at(claims, mappings.last().0) {
            Some(value) => before.insert(mappings.last().1, value),
            None => before,
        }
    }
}

/// What verified claims come to, for the issuer that they were verified for.
pub open spec fn mapped(
    ci: CompiledIssuer,
    claims: JsonTree,
    resolution: ResolutionConfig,
) -> Outcome {
    let mappings = ci.claim_mappings;
    match text_at(claims, mappings.subject_claim@) {
        Some(subject) if !blank(subject) => Outcome::Resolved {
            identity: Identity {
                kind: resolution.trust_level@,
                trust_level: resolution.trust_level@,
                subject_id: Some(subject),
                auth_provider: Some(resolution.auth_provider_label@),
                issuer: Some(ci.issuer@),
                roles: lists_at(claims, mappings.role_claim_paths.deep_view()),
                groups: lists_at(claims, mappings.group_claim_paths.deep_view()),
                scopes: lists_at(claims, mappings.scope_claim_paths.deep_view()),
                attributes: attributes_from(claims, mappings.attribute_claim_mappings.ordered()),
            },
        },
        _ => Outcome::Invalid {
            reason: "missing or empty '"@ + mappings.subject_claim@ + "' (subject) claim"@,
        },
    }
}

/// The text at a dotted path.
pub fn extract_string_claim(claims: &Json, path: &str) -> (r: Option<String>)
    ensures
        match r {
            Some(s) => text_at(claims@, path@) == Some(s@),
            None => text_at(claims@, path@) is None,
        },
{
    match resolve_json_path(claims, path) {
        Some(value) => match value.as_str() {
            Some(s) => Some(s.to_owned()),
            None => None,
        },
        None => None,
    }
}

/// Appends what a value lists.
fn push_listed(value: &Json, result: &mut Vec<String>)
    ensures
        final(result).deep_view() == old(result).deep_view() + listed(Some(value@)),
{
    let ghost before = result.deep_view();
    match value {
        Json::Array(items) => {
            let ghost trees = value@->Array_0;
            let mut i: usize = 0;
            assert(trees.take(0) == Seq::<JsonTree>::empty());
            assert(before + texts_among(trees.take(0)) == before);
            while i < items.len()
                invariant
                    i <= items.len(),
                    trees.len() == items.len(),
                    forall|j: int| 0 <= j < items.len() ==> #[trigger] trees[j] == items@[j]@,
                    result.deep_view() == before + texts_among(trees.take(i as int)),
                decreases items.len() - i,
            {
                let ghost seen = trees.take(i + 1);
                assert(seen.drop_last() == trees.take(i as int));
                assert(seen.last() == trees[i as int]);
                let ghost so_far = result.deep_view();
                if let Some(s) = items[i].as_str() {
                    result.push(s.to_owned());
                    assert(result.deep_view() == so_far.push(s@));
                    assert(result.deep_view() == before + texts_among(seen));
                }
                i += 1;
            }
            assert(trees.take(i as int) == trees);
        },
        Json::Text(s) => {
            let mut parts = split_words(s.as_str());
            let ghost found = parts.deep_view();
            let ghost so_far = result@;
            let ghost tail = parts@;
            result.append(&mut parts);
            assert(result@ == so_far + tail);
            assert(result.deep_view() == before + found);
        },
        _ => {
            assert(before + seq![] == before);
        },
    }
}

/// The lists at the given paths, one after the other.
pub fn extract_string_list_claims(claims: &Json, paths: &[String]) -> (r: Vec<String>)
    ensures
        r.deep_view() == lists_at(claims@, paths.deep_view()),
{
    let ghost names = paths.deep_view();
    let mut result: Vec<String> = Vec::new();
    let mut i: usize = 0;
    assert(names.take(0) == Seq::<Seq<char>>::empty());
    assert(result.deep_view() == Seq::<Seq<char>>::empty());
    while i < paths.len()
        invariant
            i <= paths@.len(),
            names == paths.deep_view(),
            result.deep_view() == lists_at(claims@, names.take(i as int)),
        decreases paths@.len() - i,
    {
        let ghost seen = names.take(i + 1);
        assert(seen.drop_last() == names.take(i as int));
        assert(seen.last() == paths@[i as int]@);
        let ghost so_far = result.deep_view();
        match resolve_json_path(claims, paths[i].as_str()) {
            Some(value) => {
                push_listed(value, &mut result);
            },
            None => {
                assert(so_far + seq![] == so_far);
            },
        }
        i += 1;
    }
    assert(names.take(i as int) == names);
    result
}

/// The attributes that the mappings give.
pub fn extract_attributes(claims: &Json, mappings: &StringMap) -> (r: StringMap)
    ensures
        r@ == attributes_from(claims@, mappings.ordered()),
{
    let ghost pairs = mappings.ordered();
    let mut attributes = StringMap::new();
    let mut i: usize = 0;
    assert(pairs.take(0) == Seq::<(Seq<char>, Seq<char>)>::empty());
    while i < mappings.len()
        invariant
            i <= pairs.len(),
            pairs == mappings.ordered(),
            attributes@ == attributes_from(claims@, pairs.take(i as int)),
        decreases pairs.len() - i,
    {
        let ghost seen = pairs.take(i + 1);
        assert(seen.drop_last() == pairs.take(i as int));
        assert(seen.last() == pairs[i as int]);
        let (claim, attribute) = mappings.entry(i);
        if let Some(value) = extract_string_claim(claims, claim.as_str()) {
            attributes.insert(attribute.clone(), value);
        }
        i += 1;
    }
    assert(pairs.take(i as int) == pairs);
    attributes
}

/// The identity that verified claims give, unless they name no subject.
pub fn map_claims(
    ci: &CompiledIssuer,
    claims: &Json,
    resolution: &ResolutionConfig,
) -> (r: IdentityResolution)
    ensures
        r@ == mapped(*ci, claims@, *resolution),
{
    let mappings = &ci.claim_mappings;
    let subject = match extract_string_claim(claims, mappings.subject_claim.as_str()) {
        Some(s) => s,
        None => {
            return IdentityResolution::Invalid { reason: no_subject(mappings) };
        },
    };
    if is_blank(subject.as_str()) {
        return IdentityResolution::Invalid { reason: no_subject(mappings) };
    }
    let attributes = extract_attributes(claims, &mappings.attribute_claim_mappings);
    let roles = extract_string_list_claims(claims, mappings.role_claim_paths.as_slice());
    let groups = extract_string_list_claims(claims, mappings.group_claim_paths.as_slice());
    let scopes = extract_string_list_claims(claims, mappings.scope_claim_paths.as_slice());
    let identity = PluginIdentity {
        kind: resolution.trust_level.clone(),
        trust_level: resolution.trust_level.clone(),
        subject_id: Some(subject),
        auth_provider: Some(resolution.auth_provider_label.clone()),
        issuer: Some(ci.issuer.clone()),
        roles,
        groups,
        scopes,
        attributes,
    };
    IdentityResolution::Resolved { identity }
}

fn no_subject(mappings: &ClaimMappingConfig) -> (r: String)
    ensures
        r@ == "missing or empty '"@ + mappings.subject_claim@ + "' (subject) claim"@,
{
    join3("missing or empty '", mappings.subject_claim.as_str(), "' (subject) claim")
}

}
