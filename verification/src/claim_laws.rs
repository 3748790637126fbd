//! What the results of calls on JSON values and claims satisfy, said of the results and
//! the arguments.

use vstd::prelude::*;

use crate::claims::{
    attributes_from, extract_attributes, extract_string_claim, extract_string_list_claims, listed,
    lists_at, map_claims, mapped, texts_among,
};
use crate::config::{ClaimMappingConfig, ResolutionConfig};
use crate::identity::{IdentityResolution, PluginIdentity};
use crate::issuer::CompiledIssuer;
use crate::json::{
    at_path, lookup, member, member_trees, resolve_json_path, Json, JsonTree,
};
use crate::laws::{last_to, law_last_mapping_wins, law_path_goes_on, law_plain_path};
use crate::string_map::StringMap;
use crate::text::{is_white_space, words};
use crate::text_laws::{are_runs, are_words, lemma_word_runs};

verus! {

broadcast use {vstd::string::group_string_axioms, vstd::seq_lib::group_seq_properties};

// --- JSON --------------------------------------------------------------------

/// Whether the member at `i` is the last of that name.
pub open spec fn last_named(members: Seq<(String, Json)>, name: Seq<char>, i: int) -> bool {
    &&& 0 <= i < members.len()
    &&& members[i].0@ == name
    &&& forall|j: int| i < j < members.len() ==> (#[trigger] members[j]).0@ != name
}

proof fn lemma_member_trees(members: Seq<(String, Json)>, name: Seq<char>)
    ensures
        lookup(member_trees(members), name) is Some <==> exists|i: int| #[trigger]
            last_named(members, name, i),
        forall|i: int| #[trigger]
            last_named(members, name, i) ==> lookup(member_trees(members), name) == Some(
                members[i].1@,
            ),
    decreases members.len(),
{
    if members.len() > 0 {
        let n = members.len() - 1;
        let before = members.drop_last();
        lemma_member_trees(before, name);
        if members[n].0@ == name {
            assert(last_named(members, name, n));
            assert forall|i: int| #[trigger] last_named(members, name, i) implies i == n by {
                if i < n {
                    assert(members[n].0@ != name);
                }
            }
        } else {
            assert forall|i: int| #[trigger] last_named(before, name, i) implies last_named(
                members,
                name,
                i,
            ) by {
                assert forall|j: int| i < j < members.len() implies (#[trigger] members[j]).0@
                    != name by {
                    if j < n {
                        assert(before[j] == members[j]);
                    }
                }
            }
            assert forall|i: int| #[trigger] last_named(members, name, i) implies last_named(
                before,
                name,
                i,
            ) by {
                assert forall|j: int| i < j < before.len() implies (#[trigger] before[j]).0@
                    != name by {
                    assert(before[j] == members[j]);
                }
            }
        }
    }
}

/// What the values of each kind hold: texts and truth values as they are, arrays item by
/// item, and objects by name, the last member of a name counting.
pub proof fn law_json_view(json: Json)
    ensures
        json is Null ==> json@ == JsonTree::Null,
        json matches Json::Bool(b) ==> json@ == JsonTree::Bool(b),
        json is Number ==> json@ == JsonTree::Number,
        json matches Json::Text(s) ==> json@ == JsonTree::Text(s@),
        json matches Json::Array(items) ==> (json@ matches JsonTree::Array(trees) && trees.len()
            == items@.len() && forall|i: int|
            0 <= i < items@.len() ==> #[trigger] trees[i] == items@[i]@),
        json matches Json::Object(members) ==> (json@ matches JsonTree::Object(trees) && (forall|
            name: Seq<char>,
        | #[trigger]
            trees.dom().contains(name) <==> exists|i: int| #[trigger]
                last_named(members@, name, i)) && forall|name: Seq<char>, i: int| #[trigger]
            last_named(members@, name, i) ==> trees[name] == members@[i].1@),
{
    match json {
        Json::Object(members) => {
            assert forall|name: Seq<char>| #[trigger]
                member_trees(members@).dom().contains(name) <==> exists|i: int| #[trigger]
                last_named(members@, name, i) by {
                lemma_member_trees(members@, name);
            }
            assert forall|name: Seq<char>, i: int| #[trigger]
                last_named(members@, name, i) implies member_trees(members@)[name]
                == members@[i].1@ by {
                lemma_member_trees(members@, name);
            }
        },
        _ => {},
    }
}

/// Only an object has members, and a member is what the object holds under its name.
pub proof fn law_member(tree: JsonTree, name: Seq<char>)
    ensures
        tree matches JsonTree::Object(members) ==> member(tree, name) == (
        if members.dom().contains(name) {
            Some(members[name])
        } else {
            None
        }),
        !(tree is Object) ==> member(tree, name) is None,
{
}

/// The member of a name is found where the value is an object with a member of that name,
/// and the last one counts.
pub proof fn law_json_get(json: Json, key: &str, r: Option<&Json>)
    requires
        call_ensures(Json::get, (&json, key), r),
    ensures
        json matches Json::Object(members) ==> {
            &&& r is Some <==> exists|i: int| #[trigger] last_named(members@, key@, i)
            &&& forall|i: int| #[trigger]
                last_named(members@, key@, i) ==> (r matches Some(found) && found@
                    == members@[i].1@)
        },
        !(json is Object) ==> r is None,
{
    law_json_view(json);
    if let Json::Object(members) = json {
        lemma_member_trees(members@, key@);
    }
}

/// What is found at a path without a dot is the member of that name.
pub proof fn law_plain_path_found(value: Json, path: &str, r: Option<&Json>)
    requires
        call_ensures(resolve_json_path, (&value, path), r),
        !path@.contains('.'),
    ensures
        r matches Some(found) ==> (value@ matches JsonTree::Object(members)
            && members.dom().contains(path@) && members[path@] == found@),
        r is None ==> !(value@ matches JsonTree::Object(members) && members.dom().contains(path@)),
{
    law_plain_path(value@, path@);
}

/// What is found at a path that goes on after a dot is what is found at the second path in
/// what is found at the first, and there is nothing where nothing is found at the first.
pub proof fn law_longer_path_found(
    value: Json,
    first: &str,
    second: &str,
    whole: &str,
    at_first: Option<&Json>,
    at_whole: Option<&Json>,
)
    requires
        whole@ == first@ + seq!['.'] + second@,
        call_ensures(resolve_json_path, (&value, first), at_first),
        call_ensures(resolve_json_path, (&value, whole), at_whole),
    ensures
        at_first is None ==> at_whole is None,
        at_first matches Some(middle) ==> forall|at_second: Option<&Json>| #[trigger]
            call_ensures(resolve_json_path, (middle, second), at_second) ==> (at_second is Some
                <==> at_whole is Some) && (at_whole matches Some(found) ==> found@
                == at_second->0@),
{
    law_path_goes_on(value@, first@, second@);
}

// --- claims ------------------------------------------------------------------

/// A string claim is the text at its path, and there is none where no text is.
pub proof fn law_extract_string_claim(claims: Json, path: &str, r: Option<String>)
    requires
        call_ensures(extract_string_claim, (&claims, path), r),
    ensures
        r matches Some(s) ==> at_path(claims@, path@) == Some(JsonTree::Text(s@)),
        r is None ==> !(at_path(claims@, path@) matches Some(JsonTree::Text(_))),
{
}

/// Whether that is what a value lists: of an array its texts, in order; of a text its
/// words, in order; of any other value, or none, nothing.
pub open spec fn lists(value: Option<JsonTree>, part: Seq<Seq<char>>) -> bool {
    match value {
        Some(JsonTree::Array(items)) => part == items.filter(
            |item: JsonTree| item is Text,
        ).map_values(|item: JsonTree| item->Text_0),
        Some(JsonTree::Text(s)) => are_words(s, part),
        _ => part.len() == 0,
    }
}

/// Whether that is what the values at the given paths list, one path after the other.
pub open spec fn gathers(
    claims: JsonTree,
    paths: Seq<Seq<char>>,
    gathered: Seq<Seq<char>>,
) -> bool {
    exists|parts: Seq<Seq<Seq<char>>>|
        {
            &&& gathered == #[trigger] parts.flatten()
            &&& parts.len() == paths.len()
            &&& forall|i: int|
                0 <= i < paths.len() ==> lists(at_path(claims, paths[i]), #[trigger] parts[i])
        }
}

proof fn lemma_texts_among(items: Seq<JsonTree>)
    ensures
        texts_among(items) == items.filter(|item: JsonTree| item is Text).map_values(
            |item: JsonTree| item->Text_0,
        ),
    decreases items.len(),
{
    reveal(Seq::filter);
    let keep = |item: JsonTree| item is Text;
    let text = |item: JsonTree| item->Text_0;
    if items.len() > 0 {
        lemma_texts_among(items.drop_last());
        let before = items.drop_last().filter(keep);
        if items.last() is Text {
            assert(items.filter(keep) == before.push(items.last()));
            assert(before.push(items.last()).map_values(text) == before.map_values(text).push(
                items.last()->Text_0,
            ));
        }
    } else {
        assert(items.filter(keep).map_values(text) == Seq::<Seq<char>>::empty());
    }
}

proof fn lemma_listed(value: Option<JsonTree>)
    ensures
        lists(value, listed(value)),
{
    match value {
        Some(JsonTree::Array(items)) => {
            lemma_texts_among(items);
        },
        Some(JsonTree::Text(s)) => {
            let runs = lemma_word_runs(s);
            assert(are_runs(s, words(s), runs));
        },
        _ => {},
    }
}

proof fn lemma_gathers(claims: JsonTree, paths: Seq<Seq<char>>) -> (parts: Seq<Seq<Seq<char>>>)
    ensures
        lists_at(claims, paths) == parts.flatten(),
        parts.len() == paths.len(),
        forall|i: int|
            0 <= i < paths.len() ==> lists(at_path(claims, paths[i]), #[trigger] parts[i]),
        gathers(claims, paths, lists_at(claims, paths)),
    decreases paths.len(),
{
    if paths.len() == 0 {
        let parts = Seq::<Seq<Seq<char>>>::empty();
        assert(parts.flatten() == Seq::<Seq<char>>::empty());
        assert(lists_at(claims, paths) == parts.flatten());
        parts
    } else {
        let before = lemma_gathers(claims, paths.drop_last());
        let last = listed(at_path(claims, paths.last()));
        lemma_listed(at_path(claims, paths.last()));
        let parts = before.push(last);
        before.lemma_flatten_push(last);
        assert forall|i: int| 0 <= i < paths.len() implies lists(
            at_path(claims, paths[i]),
            #[trigger] parts[i],
        ) by {
            if i < before.len() {
                assert(parts[i] == before[i]);
                assert(paths.drop_last()[i] == paths[i]);
            }
        }
        assert(lists_at(claims, paths) == parts.flatten());
        parts
    }
}

/// The lists at the given paths are, path by path and in order, all the texts of an array
/// and all the words of a text.
pub proof fn law_extract_string_list_claims(claims: Json, paths: &[String], r: Vec<String>)
    requires
        call_ensures(extract_string_list_claims, (&claims, paths), r),
    ensures
        gathers(claims@, paths.deep_view(), r.deep_view()),
{
    lemma_gathers(claims@, paths.deep_view());
}

/// Whether the mapping at `i` gives an attribute its value: it is a mapping to the
/// attribute, the value is the text at its path, and no later mapping to the attribute
/// finds a text.
pub open spec fn gives(
    claims: JsonTree,
    mappings: Seq<(Seq<char>, Seq<char>)>,
    i: int,
    attribute: Seq<char>,
    value: Seq<char>,
) -> bool {
    &&& 0 <= i < mappings.len()
    &&& mappings[i].1 == attribute
    &&& at_path(claims, mappings[i].0) == Some(JsonTree::Text(value))
    &&& forall|j: int|
        i < j < mappings.len() && (#[trigger] mappings[j]).1 == attribute ==> !(at_path(
            claims,
            mappings[j].0,
        ) matches Some(JsonTree::Text(_)))
}

/// Whether an attribute has a value.
pub open spec fn has(
    attributes: Map<Seq<char>, Seq<char>>,
    attribute: Seq<char>,
    value: Seq<char>,
) -> bool {
    attributes.dom().contains(attribute) && attributes[attribute] == value
}

/// Whether attributes are what the mappings give, and nothing else.
pub open spec fn attributed(
    claims: JsonTree,
    mappings: Seq<(Seq<char>, Seq<char>)>,
    attributes: Map<Seq<char>, Seq<char>>,
) -> bool {
    forall|attribute: Seq<char>, value: Seq<char>| #[trigger]
        has(attributes, attribute, value) <==> exists|i: int| #[trigger]
            gives(claims, mappings, i, attribute, value)
}

proof fn lemma_attributed(claims: JsonTree, mappings: Seq<(Seq<char>, Seq<char>)>)
    ensures
        attributed(claims, mappings, attributes_from(claims, mappings)),
{
    let attributes = attributes_from(claims, mappings);
    assert forall|attribute: Seq<char>, value: Seq<char>| #[trigger]
        has(attributes, attribute, value) <==> exists|i: int| #[trigger]
        gives(claims, mappings, i, attribute, value) by {
        law_last_mapping_wins(claims, mappings, attribute, value);
        if has(attributes, attribute, value) {
            let i = choose|i: int| #[trigger] last_to(claims, mappings, attribute, value, i);
            assert(gives(claims, mappings, i, attribute, value));
        }
        if exists|i: int| #[trigger] gives(claims, mappings, i, attribute, value) {
            let i = choose|i: int| #[trigger] gives(claims, mappings, i, attribute, value);
            assert(last_to(claims, mappings, attribute, value, i));
        }
    }
}

/// The attributes that are extracted are those that the mappings give.
pub proof fn law_extract_attributes(claims: Json, mappings: StringMap, r: StringMap)
    requires
        call_ensures(extract_attributes, (&claims, &mappings), r),
    ensures
        attributed(claims@, mappings.ordered(), r@),
{
    lemma_attributed(claims@, mappings.ordered());
}

/// Whether a text holds something other than white space.
pub open spec fn says_something(s: Seq<char>) -> bool {
    exists|i: int| 0 <= i < s.len() && !is_white_space(#[trigger] s[i])
}

/// Whether an identity is the one that claims give under claim mappings: its subject is
/// the text at the subject's path, its lists are those at their paths, its attributes those
/// that the mappings give, and its labels those given for the issuer and the resolution.
pub open spec fn identifies(
    identity: PluginIdentity,
    claims: JsonTree,
    mappings: ClaimMappingConfig,
    issuer: Seq<char>,
    resolution: ResolutionConfig,
) -> bool {
    &&& identity.subject_id matches Some(subject) && says_something(subject@) && at_path(
        claims,
        mappings.subject_claim@,
    ) == Some(JsonTree::Text(subject@))
    &&& identity.kind@ == resolution.trust_level@
    &&& identity.trust_level@ == resolution.trust_level@
    &&& identity.auth_provider matches Some(label) && label@ == resolution.auth_provider_label@
    &&& identity.issuer matches Some(name) && name@ == issuer
    &&& gathers(claims, mappings.role_claim_paths.deep_view(), identity.roles.deep_view())
    &&& gathers(claims, mappings.group_claim_paths.deep_view(), identity.groups.deep_view())
    &&& gathers(claims, mappings.scope_claim_paths.deep_view(), identity.scopes.deep_view())
    &&& attributed(claims, mappings.attribute_claim_mappings.ordered(), identity.attributes@)
}

/// Whether a resolution is what claims come to for an issuer: an identity exactly where
/// there is a text with more than white space at the subject's path, and the one that they
/// give; else a reason that names the subject's claim.
pub open spec fn maps(
    ci: CompiledIssuer,
    claims: JsonTree,
    resolution: ResolutionConfig,
    r: IdentityResolution,
) -> bool {
    &&& r is Resolved <==> (at_path(claims, ci.claim_mappings.subject_claim@) matches Some(
        JsonTree::Text(subject),
    ) && says_something(subject))
    &&& r matches IdentityResolution::Resolved { identity } ==> identifies(
        identity,
        claims,
        ci.claim_mappings,
        ci.issuer@,
        resolution,
    )
    &&& !(r is Resolved) ==> (r matches IdentityResolution::Invalid { reason } && reason@
        == "missing or empty '"@ + ci.claim_mappings.subject_claim@ + "' (subject) claim"@)
}

pub proof fn lemma_mapped(
    ci: CompiledIssuer,
    claims: JsonTree,
    resolution: ResolutionConfig,
    r: IdentityResolution,
)
    requires
        r@ == mapped(ci, claims, resolution),
    ensures
        maps(ci, claims, resolution, r),
{
    let mappings = ci.claim_mappings;
    lemma_gathers(claims, mappings.role_claim_paths.deep_view());
    lemma_gathers(claims, mappings.group_claim_paths.deep_view());
    lemma_gathers(claims, mappings.scope_claim_paths.deep_view());
    lemma_attributed(claims, mappings.attribute_claim_mappings.ordered());
}

/// Mapping claims gives what they come to for the issuer.
pub proof fn law_map_claims(
    ci: CompiledIssuer,
    claims: Json,
    resolution: ResolutionConfig,
    r: IdentityResolution,
)
    requires
        call_ensures(map_claims, (&ci, &claims, &resolution), r),
    ensures
        maps(ci, claims@, resolution, r),
{
    lemma_mapped(ci, claims@, resolution, r);
}

}
