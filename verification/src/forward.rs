//! Filtering of request headers and GraphQL variables before they become
//! observable span attributes.
//!
//! Headers run through a forwarding policy and a fixed deny-list, then leave
//! as a JSON rendering of the surviving name/value groups. Variables keep
//! every key; only the values of forwarded variables are rendered, the rest
//! become empty strings, preserving arity.

use vstd::prelude::*;

use crate::json::{json_text, JsonValue};
use crate::text::{list_contains_str, spec_contains_str, str_eq};

verus! {

/// Which request headers may be forwarded to the usage reporter.
pub enum ForwardHeaders {
    /// Forward no header.
    Nothing,
    /// Forward every header but the deny-listed ones.
    Everything,
    /// Forward only the named headers.
    Only(Vec<String>),
    /// Forward all but the named headers (and the deny-listed ones).
    Except(Vec<String>),
}

/// Which GraphQL variable values may appear on the supergraph span.
pub enum ForwardValues {
    /// Render no value.
    Nothing,
    /// Render every value.
    Everything,
    /// Render only the values of the named variables.
    Only(Vec<String>),
    /// Render all values but those of the named variables.
    Except(Vec<String>),
}

/// Header names that never leave the process, whatever the policy says.
pub open spec fn spec_header_sensitive(name: Seq<char>) -> bool {
    name == "authorization"@ || name == "cookie"@ || name == "set-cookie"@
}

/// Whether the policy lets a header of this name through.
pub open spec fn spec_header_admitted(rules: ForwardHeaders, name: Seq<char>) -> bool {
    match rules {
        ForwardHeaders::Nothing => false,
        ForwardHeaders::Everything => true,
        ForwardHeaders::Only(only) => spec_contains_str(only.deep_view(), name),
        ForwardHeaders::Except(except) => !spec_contains_str(except.deep_view(), name),
    }
}

/// A header is kept when it is neither deny-listed nor refused by the policy.
pub open spec fn spec_header_kept(rules: ForwardHeaders, name: Seq<char>) -> bool {
    !spec_header_sensitive(name) && spec_header_admitted(rules, name)
}

/// The subsequence of headers that the policy keeps, in their given order.
pub open spec fn spec_kept_headers(
    headers: Seq<(String, String)>,
    rules: ForwardHeaders,
) -> Seq<(String, String)>
    decreases headers.len(),
{
    if headers.len() == 0 {
        Seq::empty()
    } else {
        let rest = spec_kept_headers(headers.drop_last(), rules);
        if spec_header_kept(rules, headers.last().0@) {
            rest.push(headers.last())
        } else {
            rest
        }
    }
}

/// Appends `value` to the group named `name`, or opens a new group at the
/// end when none exists yet.
pub open spec fn spec_group_insert(
    groups: Seq<(Seq<char>, Seq<Seq<char>>)>,
    name: Seq<char>,
    value: Seq<char>,
) -> Seq<(Seq<char>, Seq<Seq<char>>)>
    decreases groups.len(),
{
    if groups.len() == 0 {
        seq![(name, seq![value])]
    } else if groups[0].0 == name {
        seq![(name, groups[0].1.push(value))] + groups.drop_first()
    } else {
        seq![groups[0]] + spec_group_insert(groups.drop_first(), name, value)
    }
}

/// Groups header pairs by name: one group per distinct name, in order of
/// first occurrence, each holding its values in order.
pub open spec fn spec_group_headers(
    headers: Seq<(String, String)>,
) -> Seq<(Seq<char>, Seq<Seq<char>>)>
    decreases headers.len(),
{
    if headers.len() == 0 {
        Seq::empty()
    } else {
        spec_group_insert(
            spec_group_headers(headers.drop_last()),
            headers.last().0@,
            headers.last().1@,
        )
    }
}

/// The deny-listed headers never survive filtering, whatever the policy
/// says: no kept header carries a sensitive name.
pub proof fn law_sensitive_headers_never_kept(
    headers: Seq<(String, String)>,
    rules: ForwardHeaders,
)
    ensures
        forall|i: int| 0 <= i < spec_kept_headers(headers, rules).len()
            ==> !spec_header_sensitive(#[trigger] spec_kept_headers(headers, rules)[i].0@),
    decreases headers.len(),
{
    if headers.len() > 0 {
        law_sensitive_headers_never_kept(headers.drop_last(), rules);
        let rest = spec_kept_headers(headers.drop_last(), rules);
        assert forall|i: int| 0 <= i < spec_kept_headers(headers, rules).len() implies
            !spec_header_sensitive(#[trigger] spec_kept_headers(headers, rules)[i].0@) by {
            if spec_header_kept(rules, headers.last().0@) {
                assert(spec_kept_headers(headers, rules) == rest.push(headers.last()));
                if i < rest.len() {
                    assert(spec_kept_headers(headers, rules)[i] == rest[i]);
                } else {
                    assert(spec_kept_headers(headers, rules)[i] == headers.last());
                }
            } else {
                assert(spec_kept_headers(headers, rules) == rest);
            }
        }
    }
}

/// The JSON text that `serde_json` produces for a map from header name to
/// list of values, built from these groups. Keys appear sorted in the output;
/// the text is a function of the groups alone.
pub uninterp spec fn header_map_json(groups: Seq<(Seq<char>, Seq<Seq<char>>)>) -> Seq<char>;

/// Relies on `serde_json::to_string` over a `BTreeMap<String, Vec<String>>`:
/// the rendering is a deterministic function of the entries; building the
/// map from the entry list is the argument conversion.
#[verifier::external_body]
pub(crate) fn encode_header_groups(groups: &Vec<(String, Vec<String>)>) -> (r: String)
    ensures
        r@ == header_map_json(groups.deep_view()),
{
    let mut map = std::collections::BTreeMap::new();
    for (name, values) in groups.iter() {
        map.insert(name.clone(), values.clone());
    }
    serde_json::to_string(&map).unwrap_or_default()
}

/// The JSON text that `serde_json` produces for a map from string to string,
/// built from these entries. A function of the entries alone.
pub uninterp spec fn string_map_json(entries: Seq<(Seq<char>, Seq<char>)>) -> Seq<char>;

/// Relies on `serde_json::to_string` over a `BTreeMap<String, String>`: the
/// rendering is a deterministic function of the entries; building the map
/// from the entry list is the argument conversion.
#[verifier::external_body]
pub(crate) fn encode_string_map(entries: &Vec<(String, String)>) -> (r: String)
    ensures
        r@ == string_map_json(entries.deep_view()),
{
    let mut map = std::collections::BTreeMap::new();
    for (name, value) in entries.iter() {
        map.insert(name.clone(), value.clone());
    }
    serde_json::to_string(&map).unwrap_or_default()
}

/// The view of one in-progress header group.
pub open spec fn spec_group_entry(e: (String, Vec<String>)) -> (Seq<char>, Seq<Seq<char>>) {
    (e.0@, e.1@.map_values(|v: String| v@))
}

/// The view of the in-progress header groups.
pub open spec fn spec_groups_view(g: Seq<(String, Vec<String>)>) -> Seq<(Seq<char>, Seq<Seq<char>>)> {
    g.map_values(|e: (String, Vec<String>)| spec_group_entry(e))
}

/// Gives out one element of a vector for mutation in place.
fn vec_entry_mut<T>(v: &mut Vec<T>, i: usize) -> (element: &mut T)
    requires
        i < old(v).len(),
    ensures
        *element == old(v)@[i as int],
        final(v)@ == old(v)@.update(i as int, *final(element)),
{
    &mut v[i]
}

/// Filters headers by the policy and renders the surviving groups as the
/// JSON map text that the usage reporter sends along.
#[verifier::loop_isolation(false)]
pub fn filter_headers(headers: &Vec<(String, String)>, forward_rules: &ForwardHeaders) -> (r: String)
    ensures
        r@ == header_map_json(spec_group_headers(spec_kept_headers(headers@, *forward_rules))),
{
    let mut groups: Vec<(String, Vec<String>)> = Vec::new();
    let mut i: usize = 0;
    proof {
        assert(headers@.subrange(0, 0) =~= Seq::<(String, String)>::empty());
    }
    while i < headers.len()
        invariant
            i <= headers.len(),
            spec_groups_view(groups@) == spec_group_headers(
                spec_kept_headers(headers@.subrange(0, i as int), *forward_rules),
            ),
        decreases headers.len() - i,
    {
        let name = &headers[i].0;
        let value = &headers[i].1;
        let sensitive = str_eq(name.as_str(), "authorization")
            || str_eq(name.as_str(), "cookie")
            || str_eq(name.as_str(), "set-cookie");
        let admitted = match forward_rules {
            ForwardHeaders::Nothing => false,
            ForwardHeaders::Everything => true,
            ForwardHeaders::Only(only) => list_contains_str(only, name.as_str()),
            ForwardHeaders::Except(except) => !list_contains_str(except, name.as_str()),
        };
        proof {
            assert(headers@.subrange(0, i + 1).drop_last() =~= headers@.subrange(0, i as int));
            assert(headers@.subrange(0, i + 1).last() == headers@[i as int]);
        }
        let ghost kept_old = spec_kept_headers(headers@.subrange(0, i as int), *forward_rules);
        let ghost kept_new = spec_kept_headers(headers@.subrange(0, i + 1), *forward_rules);
        if !sensitive && admitted {
            proof {
                assert(spec_header_kept(*forward_rules, headers@[i as int].0@));
                assert(kept_new == kept_old.push(headers@[i as int]));
                assert(kept_new.drop_last() =~= kept_old);
                assert(kept_new.last() == headers@[i as int]);
                assert(spec_group_headers(kept_new) == spec_group_insert(
                    spec_group_headers(kept_old),
                    headers@[i as int].0@,
                    headers@[i as int].1@,
                ));
            }
            group_push(&mut groups, name, value);
        } else {
            proof {
                assert(!spec_header_kept(*forward_rules, headers@[i as int].0@));
                assert(kept_new == kept_old);
            }
        }
        i += 1;
    }
    proof {
        assert(headers@.subrange(0, headers@.len() as int) =~= headers@);
        assert forall|k: int| 0 <= k < groups@.len() implies groups.deep_view()[k]
            == spec_groups_view(groups@)[k] by {
            assert(groups.deep_view()[k].0 == groups@[k].0@);
            assert(groups.deep_view()[k].1 =~= spec_groups_view(groups@)[k].1);
        }
        assert(groups.deep_view() =~= spec_groups_view(groups@));
    }
    encode_header_groups(&groups)
}

/// Appends one header value to its group, exactly `spec_group_insert`.
#[verifier::loop_isolation(false)]
fn group_push(groups: &mut Vec<(String, Vec<String>)>, name: &String, value: &String)
    ensures
        spec_groups_view(final(groups)@) == spec_group_insert(
            spec_groups_view(old(groups)@),
            name@,
            value@,
        ),
{
    let ghost orig = groups@;
    let mut j: usize = 0;
    while j < groups.len()
        invariant
            j <= groups.len(),
            groups@ == orig,
            forall|k: int| 0 <= k < j ==> orig[k].0@ != name@,
        decreases groups.len() - j,
    {
        if str_eq(groups[j].0.as_str(), name.as_str()) {
            let entry = vec_entry_mut(groups, j);
            entry.1.push(value.clone());
            proof {
                lemma_group_insert_at(orig, j as int, name@, value@);
                let target = spec_groups_view(orig).update(
                    j as int,
                    (name@, spec_groups_view(orig)[j as int].1.push(value@)),
                );
                assert forall|k: int| 0 <= k < final(groups)@.len() implies
                    spec_groups_view(final(groups)@)[k] == target[k] by {
                    if k == j {
                        assert(final(groups)@[k].0@ == name@);
                        assert(spec_group_entry(final(groups)@[k]).1 =~= spec_groups_view(
                            orig,
                        )[k].1.push(value@)) by {
                            assert(final(groups)@[k].1@.len() == orig[k].1@.len() + 1);
                            assert(final(groups)@[k].1@.last()@ == value@);
                            assert(forall|m: int| 0 <= m < orig[k].1@.len()
                                ==> final(groups)@[k].1@[m] == orig[k].1@[m]);
                        }
                    } else {
                        assert(final(groups)@[k] == orig[k]);
                    }
                }
                assert(spec_groups_view(final(groups)@) =~= target);
            }
            return;
        }
        j += 1;
    }
    groups.push((name.clone(), vec![value.clone()]));
    proof {
        lemma_group_insert_missing(orig, name@, value@);
        let target = spec_groups_view(orig).push((name@, seq![value@]));
        assert forall|k: int| 0 <= k < final(groups)@.len() implies
            spec_groups_view(final(groups)@)[k] == target[k] by {
            if k == orig.len() {
                assert(final(groups)@[k].0@ == name@);
                assert(spec_group_entry(final(groups)@[k]).1 =~= seq![value@]) by {
                    assert(final(groups)@[k].1@.len() == 1);
                    assert(final(groups)@[k].1@[0]@ == value@);
                }
            } else {
                assert(final(groups)@[k] == orig[k]);
            }
        }
        assert(spec_groups_view(final(groups)@) =~= target);
    }
}

/// When the first `j` groups have other names and group `j` has this name,
/// inserting updates exactly group `j`.
proof fn lemma_group_insert_at(
    groups: Seq<(String, Vec<String>)>,
    j: int,
    name: Seq<char>,
    value: Seq<char>,
)
    requires
        0 <= j < groups.len(),
        forall|k: int| 0 <= k < j ==> groups[k].0@ != name,
        groups[j].0@ == name,
    ensures
        spec_group_insert(spec_groups_view(groups), name, value) == spec_groups_view(groups).update(
            j,
            (name, spec_groups_view(groups)[j].1.push(value)),
        ),
    decreases j,
{
    let gv = spec_groups_view(groups);
    if j == 0 {
        assert(gv[0].0 == name);
        assert(spec_group_insert(gv, name, value) == seq![(name, gv[0].1.push(value))]
            + gv.drop_first());
        assert(seq![(name, gv[0].1.push(value))] + gv.drop_first() =~= gv.update(
            0,
            (name, gv[0].1.push(value)),
        ));
    } else {
        let tail = groups.drop_first();
        lemma_group_insert_at(tail, j - 1, name, value);
        assert(spec_groups_view(tail) =~= gv.drop_first());
        assert(gv[0].0 == groups[0].0@);
        assert(gv[0].0 != name);
        assert(spec_group_insert(gv, name, value) == seq![gv[0]] + spec_group_insert(
            gv.drop_first(),
            name,
            value,
        ));
        assert(seq![gv[0]] + gv.drop_first().update(
            j - 1,
            (name, gv.drop_first()[j - 1].1.push(value)),
        ) =~= gv.update(j, (name, gv[j].1.push(value))));
    }
}

/// When no group has this name, inserting opens a new group at the end.
proof fn lemma_group_insert_missing(
    groups: Seq<(String, Vec<String>)>,
    name: Seq<char>,
    value: Seq<char>,
)
    requires
        forall|k: int| 0 <= k < groups.len() ==> groups[k].0@ != name,
    ensures
        spec_group_insert(spec_groups_view(groups), name, value) == spec_groups_view(groups).push(
            (name, seq![value]),
        ),
    decreases groups.len(),
{
    let gv = spec_groups_view(groups);
    if groups.len() == 0 {
        assert(spec_group_insert(gv, name, value) =~= gv.push((name, seq![value])));
    } else {
        let tail = groups.drop_first();
        lemma_group_insert_missing(tail, name, value);
        assert(spec_groups_view(tail) =~= gv.drop_first());
        assert(gv[0].0 == groups[0].0@);
        assert(gv[0].0 != name);
        assert(spec_group_insert(gv, name, value) == seq![gv[0]] + spec_group_insert(
            gv.drop_first(),
            name,
            value,
        ));
        assert(seq![gv[0]] + gv.drop_first().push((name, seq![value])) =~= gv.push(
            (name, seq![value]),
        ));
    }
}

// ---------------------------------------------------------------------------
// Variable filtering.
// ---------------------------------------------------------------------------

/// Whether the policy lets this variable's value through.
pub open spec fn spec_value_admitted(rules: ForwardValues, name: Seq<char>) -> bool {
    match rules {
        ForwardValues::Nothing => false,
        ForwardValues::Everything => true,
        ForwardValues::Only(only) => spec_contains_str(only.deep_view(), name),
        ForwardValues::Except(except) => !spec_contains_str(except.deep_view(), name),
    }
}

/// Every variable keeps its key; forwarded ones keep their rendered value,
/// the rest are blanked, so the arity of the operation stays observable.
pub open spec fn spec_filtered_variables(
    variables: Seq<(String, JsonValue)>,
    rules: ForwardValues,
) -> Seq<(Seq<char>, Seq<char>)> {
    variables.map_values(
        |entry: (String, JsonValue)|
            (
                entry.0@,
                if spec_value_admitted(rules, entry.0@) {
                    json_text(entry.1)
                } else {
                    Seq::<char>::empty()
                },
            ),
    )
}

/// Variable filtering never drops a key: the filtered view has exactly the
/// input's keys, in order, whatever the policy.
pub proof fn law_variable_filtering_keeps_keys(
    variables: Seq<(String, JsonValue)>,
    rules: ForwardValues,
)
    ensures
        spec_filtered_variables(variables, rules).len() == variables.len(),
        forall|i: int| 0 <= i < variables.len() ==> #[trigger] spec_filtered_variables(
            variables,
            rules,
        )[i].0 == variables[i].0@,
{
}

/// Renders the variable map for the supergraph span: all keys, forwarded
/// values rendered, the rest empty, as the JSON map text.
#[verifier::loop_isolation(false)]
pub fn filter_variables_values(
    variables: &Vec<(String, JsonValue)>,
    forward_rules: &ForwardValues,
) -> (r: String)
    ensures
        r@ == string_map_json(spec_filtered_variables(variables@, *forward_rules)),
{
    let mut entries: Vec<(String, String)> = Vec::new();
    let mut i: usize = 0;
    while i < variables.len()
        invariant
            i <= variables.len(),
            entries.deep_view() =~= spec_filtered_variables(variables@, *forward_rules).subrange(
                0,
                i as int,
            ),
        decreases variables.len() - i,
    {
        let name = &variables[i].0;
        let admitted = match forward_rules {
            ForwardValues::Nothing => false,
            ForwardValues::Everything => true,
            ForwardValues::Only(only) => list_contains_str(only, name.as_str()),
            ForwardValues::Except(except) => !list_contains_str(except, name.as_str()),
        };
        if admitted {
            let rendered = crate::json::json_to_string(&variables[i].1);
            entries.push((name.clone(), rendered));
        } else {
            entries.push((name.clone(), String::new()));
        }
        proof {
            assert(entries.deep_view() =~= spec_filtered_variables(
                variables@,
                *forward_rules,
            ).subrange(0, i + 1));
        }
        i += 1;
    }
    proof {
        assert(spec_filtered_variables(variables@, *forward_rules).subrange(
            0,
            variables@.len() as int,
        ) =~= spec_filtered_variables(variables@, *forward_rules));
    }
    encode_string_map(&entries)
}

} // verus!
