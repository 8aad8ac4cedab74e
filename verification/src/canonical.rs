//! RFC 8785 canonical JSON of actions and decisions, and the SHA-256 bindings
//! computed over it.
use vstd::prelude::*;
use vstd::string::StringExecFns;
use crate::external::{jcs_string, jcs_string_text, sha256_of_text, sha256_text};
use crate::text::{append_lower_hex, digest_prefix, is_digest_text, join, join_text, lemma_lower_hex_text, lower_hex_text, owned};
use crate::types::{Action, ApprovalError, Actor, Decision, Presentation, SpecAction, SpecActor, SpecDecision, SpecPresentation, Text};

verus! {

/// A JSON object written from its members (each `"key":value`), which come in
/// the canonical (sorted) key order.
pub open spec fn object_text(members: Seq<Text>) -> Text {
    seq!['{'] + join_text(members, seq![',']) + seq!['}']
}

/// An optional member: absent when the value is absent.
pub open spec fn optional_member(key: Text, value: Option<Text>) -> Seq<Text> {
    match value {
        Some(v) => seq![key + v],
        None => Seq::empty(),
    }
}

pub open spec fn optional_string(value: Option<Text>) -> Option<Text> {
    match value {
        Some(v) => Some(jcs_string_text(v)),
        None => None,
    }
}

/// The canonical items of a string array, before joining.
pub open spec fn string_items(items: Seq<Text>) -> Seq<Text>
    decreases items.len(),
{
    if items.len() == 0 {
        Seq::empty()
    } else {
        string_items(items.drop_last()).push(jcs_string_text(items.last()))
    }
}

pub open spec fn string_array_text(items: Seq<Text>) -> Text {
    seq!['['] + join_text(string_items(items), seq![',']) + seq![']']
}

pub open spec fn presentation_text(p: SpecPresentation) -> Text {
    object_text(
        optional_member("\"binding_hint\":"@, optional_string(p.binding_hint))
            + optional_member("\"details\":"@, optional_string(p.details))
            + (if p.redacted { seq!["\"redacted\":true"@] } else { Seq::empty() }),
    )
}

pub open spec fn optional_presentation(p: Option<SpecPresentation>) -> Option<Text> {
    match p {
        Some(p) => Some(presentation_text(p)),
        None => None,
    }
}

/// The RFC 8785 text of an action: members in key order, absent options and an
/// empty effect list left out.
pub open spec fn action_text(a: SpecAction) -> Text {
    object_text(
        seq!["\"arguments\":"@ + a.arguments]
            + (if a.effects.len() > 0 {
                seq!["\"effects\":"@ + string_array_text(a.effects)]
            } else {
                Seq::empty()
            })
            + seq!["\"kind\":"@ + jcs_string_text(a.kind), "\"name\":"@ + jcs_string_text(a.name)]
            + optional_member("\"presentation\":"@, optional_presentation(a.presentation))
            + optional_member("\"resource\":"@, optional_string(a.resource))
            + seq!["\"summary\":"@ + jcs_string_text(a.summary)]
            + optional_member("\"working_directory\":"@, optional_string(a.working_directory)),
    )
}

pub open spec fn actor_text(a: SpecActor) -> Text {
    object_text(
        optional_member("\"authenticated_by\":"@, optional_string(a.authenticated_by))
            + optional_member("\"display_name\":"@, optional_string(a.display_name))
            + seq!["\"id\":"@ + jcs_string_text(a.id), "\"type\":"@ + jcs_string_text(a.actor_type)],
    )
}

/// The RFC 8785 text of a decision.
pub open spec fn decision_text(d: SpecDecision) -> Text {
    object_text(
        seq![
            "\"action_digest\":"@ + jcs_string_text(d.action_digest),
            "\"actor\":"@ + actor_text(d.actor),
            "\"decided_at\":"@ + jcs_string_text(d.decided_at),
            "\"decision\":"@ + jcs_string_text(d.decision),
        ]
            + optional_member("\"extensions\":"@, d.extensions)
            + seq!["\"id\":"@ + jcs_string_text(d.id)]
            + optional_member("\"replacement_arguments\":"@, d.replacement_arguments)
            + seq![
            "\"request_id\":"@ + jcs_string_text(d.request_id),
            "\"scope\":"@ + jcs_string_text(d.scope),
        ],
    )
}

/// `sha256:` and the lowercase hexadecimal SHA-256 of the text's UTF-8 bytes.
pub open spec fn sha256_binding(t: Text) -> Text {
    "sha256:"@ + lower_hex_text(sha256_of_text(t))
}

/// The action digest of section 5: the SHA-256 binding of the canonical action.
pub open spec fn action_digest_text(a: SpecAction) -> Text {
    sha256_binding(action_text(a))
}

/// The fingerprint by which a replayed decision is recognised.
pub open spec fn decision_fingerprint(d: SpecDecision) -> Text {
    sha256_binding(decision_text(d))
}

fn push_text(items: &mut Vec<String>, item: String)
    ensures
        final(items).deep_view() == old(items).deep_view().push(item@),
{
    items.push(item);
    assert(items.deep_view() =~= old(items).deep_view().push(item@));
}

fn member(key: &str, value: &str) -> (r: String)
    ensures
        r@ == key@ + value@,
{
    let mut r = owned(key);
    r.append(value);
    r
}

fn object(members: &Vec<String>) -> (r: String)
    ensures
        r@ == object_text(members.deep_view()),
{
    let mut r = owned("{");
    let body = join(members, ",");
    r.append(body.as_str());
    r.append("}");
    proof {
        reveal_strlit("{");
        reveal_strlit(",");
        reveal_strlit("}");
        assert("{"@ =~= seq!['{']);
        assert(","@ =~= seq![',']);
        assert("}"@ =~= seq!['}']);
        assert(r@ =~= object_text(members.deep_view()));
    }
    r
}

fn push_optional_string(members: &mut Vec<String>, key: &str, value: &Option<String>)
    ensures
        final(members).deep_view() == old(members).deep_view() + optional_member(
            key@,
            optional_string(value.deep_view()),
        ),
{
    match value {
        Some(v) => {
            let q = jcs_string(v.as_str());
            push_text(members, member(key, q.as_str()));
            assert(old(members).deep_view() + optional_member(key@, optional_string(value.deep_view())) =~= old(members).deep_view().push(key@ + q@));
        },
        None => {
            assert(old(members).deep_view() + optional_member(key@, optional_string(value.deep_view())) =~= old(members).deep_view());
        },
    }
}

fn push_optional_text(members: &mut Vec<String>, key: &str, value: &Option<crate::types::JsonObject>)
    ensures
        final(members).deep_view() == old(members).deep_view() + optional_member(
            key@,
            value.deep_view(),
        ),
{
    match value {
        Some(v) => {
            push_text(members, member(key, v.canonical_json.as_str()));
            assert(old(members).deep_view() + optional_member(key@, value.deep_view()) =~= old(members).deep_view().push(key@ + v@));
        },
        None => {
            assert(old(members).deep_view() + optional_member(key@, value.deep_view()) =~= old(members).deep_view());
        },
    }
}

fn string_array(items: &Vec<String>) -> (r: String)
    ensures
        r@ == string_array_text(items.deep_view()),
{
    let mut quoted: Vec<String> = Vec::new();
    let mut i: usize = 0;
    while i < items.len()
        invariant
            i <= items@.len(),
            quoted.deep_view() == string_items(items.deep_view().take(i as int)),
        decreases items@.len() - i,
    {
        push_text(&mut quoted, jcs_string(items[i].as_str()));
        assert(items.deep_view().take(i + 1).drop_last() =~= items.deep_view().take(i as int));
        i = i + 1;
    }
    assert(items.deep_view().take(items@.len() as int) =~= items.deep_view());
    let mut r = owned("[");
    let body = join(&quoted, ",");
    r.append(body.as_str());
    r.append("]");
    proof {
        reveal_strlit("[");
        reveal_strlit(",");
        reveal_strlit("]");
        assert("["@ =~= seq!['[']);
        assert(","@ =~= seq![',']);
        assert("]"@ =~= seq![']']);
        assert(r@ =~= string_array_text(items.deep_view()));
    }
    r
}

fn presentation_json(p: &Presentation) -> (r: String)
    ensures
        r@ == presentation_text(p@),
{
    let mut members: Vec<String> = Vec::new();
    push_optional_string(&mut members, "\"binding_hint\":", &p.binding_hint);
    push_optional_string(&mut members, "\"details\":", &p.details);
    if p.redacted {
        push_text(&mut members, owned("\"redacted\":true"));
    }
    assert(members.deep_view() =~= optional_member("\"binding_hint\":"@, optional_string(p@.binding_hint))
        + optional_member("\"details\":"@, optional_string(p@.details))
        + (if p@.redacted { seq!["\"redacted\":true"@] } else { Seq::empty() }));
    object(&members)
}

/// The RFC 8785 canonical JSON text of an action.
pub fn canonical_action(a: &Action) -> (r: String)
    ensures
        r@ == action_text(a@),
{
    let mut members: Vec<String> = Vec::new();
    push_text(&mut members, member("\"arguments\":", a.arguments.canonical_json.as_str()));
    let ghost m0 = members.deep_view();
    if a.effects.len() > 0 {
        let arr = string_array(&a.effects);
        push_text(&mut members, member("\"effects\":", arr.as_str()));
    }
    let ghost m1 = members.deep_view();
    let kind = jcs_string(a.kind.as_str());
    push_text(&mut members, member("\"kind\":", kind.as_str()));
    let name = jcs_string(a.name.as_str());
    push_text(&mut members, member("\"name\":", name.as_str()));
    let ghost m2 = members.deep_view();
    match &a.presentation {
        Some(p) => {
            let pj = presentation_json(p);
            push_text(&mut members, member("\"presentation\":", pj.as_str()));
        },
        None => {},
    }
    let ghost m3 = members.deep_view();
    push_optional_string(&mut members, "\"resource\":", &a.resource);
    let ghost m4 = members.deep_view();
    let summary = jcs_string(a.summary.as_str());
    push_text(&mut members, member("\"summary\":", summary.as_str()));
    let ghost m5 = members.deep_view();
    push_optional_string(&mut members, "\"working_directory\":", &a.working_directory);
    proof {
        let av = a@;
        assert(m0 =~= seq!["\"arguments\":"@ + av.arguments]);
        assert(m1 =~= m0 + (if av.effects.len() > 0 {
            seq!["\"effects\":"@ + string_array_text(av.effects)]
        } else {
            Seq::empty()
        }));
        assert(m2 =~= m1 + seq!["\"kind\":"@ + jcs_string_text(av.kind), "\"name\":"@ + jcs_string_text(av.name)]);
        assert(m3 =~= m2 + optional_member("\"presentation\":"@, optional_presentation(av.presentation)));
        assert(m5 =~= m4 + seq!["\"summary\":"@ + jcs_string_text(av.summary)]);
        assert(members.deep_view() =~= seq!["\"arguments\":"@ + av.arguments]
            + (if av.effects.len() > 0 {
                seq!["\"effects\":"@ + string_array_text(av.effects)]
            } else {
                Seq::empty()
            })
            + seq!["\"kind\":"@ + jcs_string_text(av.kind), "\"name\":"@ + jcs_string_text(av.name)]
            + optional_member("\"presentation\":"@, optional_presentation(av.presentation))
            + optional_member("\"resource\":"@, optional_string(av.resource))
            + seq!["\"summary\":"@ + jcs_string_text(av.summary)]
            + optional_member("\"working_directory\":"@, optional_string(av.working_directory)));
    }
    object(&members)
}

fn actor_json(a: &Actor) -> (r: String)
    ensures
        r@ == actor_text(a@),
{
    let mut members: Vec<String> = Vec::new();
    push_optional_string(&mut members, "\"authenticated_by\":", &a.authenticated_by);
    push_optional_string(&mut members, "\"display_name\":", &a.display_name);
    let ghost m0 = members.deep_view();
    let id = jcs_string(a.id.as_str());
    push_text(&mut members, member("\"id\":", id.as_str()));
    let t = jcs_string(a.actor_type.as_str());
    push_text(&mut members, member("\"type\":", t.as_str()));
    assert(members.deep_view() =~= optional_member("\"authenticated_by\":"@, optional_string(a@.authenticated_by))
        + optional_member("\"display_name\":"@, optional_string(a@.display_name))
        + seq!["\"id\":"@ + jcs_string_text(a@.id), "\"type\":"@ + jcs_string_text(a@.actor_type)]);
    object(&members)
}

/// The RFC 8785 canonical JSON text of a decision.
pub fn canonical_decision(d: &Decision) -> (r: String)
    ensures
        r@ == decision_text(d@),
{
    let mut members: Vec<String> = Vec::new();
    let v = jcs_string(d.action_digest.as_str());
    push_text(&mut members, member("\"action_digest\":", v.as_str()));
    let v = actor_json(&d.actor);
    push_text(&mut members, member("\"actor\":", v.as_str()));
    let v = jcs_string(d.decided_at.as_str());
    push_text(&mut members, member("\"decided_at\":", v.as_str()));
    let v = jcs_string(d.decision.as_str());
    push_text(&mut members, member("\"decision\":", v.as_str()));
    let ghost m0 = members.deep_view();
    push_optional_text(&mut members, "\"extensions\":", &d.extensions);
    let ghost m1 = members.deep_view();
    let v = jcs_string(d.id.as_str());
    push_text(&mut members, member("\"id\":", v.as_str()));
    let ghost m2 = members.deep_view();
    push_optional_text(&mut members, "\"replacement_arguments\":", &d.replacement_arguments);
    let ghost m3 = members.deep_view();
    let v = jcs_string(d.request_id.as_str());
    push_text(&mut members, member("\"request_id\":", v.as_str()));
    let v = jcs_string(d.scope.as_str());
    push_text(&mut members, member("\"scope\":", v.as_str()));
    proof {
        let dv = d@;
        assert(m0 =~= seq![
            "\"action_digest\":"@ + jcs_string_text(dv.action_digest),
            "\"actor\":"@ + actor_text(dv.actor),
            "\"decided_at\":"@ + jcs_string_text(dv.decided_at),
            "\"decision\":"@ + jcs_string_text(dv.decision),
        ]);
        assert(m2 =~= m1 + seq!["\"id\":"@ + jcs_string_text(dv.id)]);
        assert(members.deep_view() =~= seq![
            "\"action_digest\":"@ + jcs_string_text(dv.action_digest),
            "\"actor\":"@ + actor_text(dv.actor),
            "\"decided_at\":"@ + jcs_string_text(dv.decided_at),
            "\"decision\":"@ + jcs_string_text(dv.decision),
        ]
            + optional_member("\"extensions\":"@, dv.extensions)
            + seq!["\"id\":"@ + jcs_string_text(dv.id)]
            + optional_member("\"replacement_arguments\":"@, dv.replacement_arguments)
            + seq![
            "\"request_id\":"@ + jcs_string_text(dv.request_id),
            "\"scope\":"@ + jcs_string_text(dv.scope),
        ]);
    }
    object(&members)
}

fn sha256_binding_of(text: &String) -> (r: String)
    ensures
        r@ == sha256_binding(text@),
        is_digest_text(r@),
{
    let mut r = owned("sha256:");
    let digest = sha256_text(text.as_str());
    append_lower_hex(&mut r, &digest);
    proof {
        lemma_sha256_binding_is_digest(text@);
    }
    r
}

/// Compute the RFC 8785 / SHA-256 binding for an action.
pub fn action_digest(action: &Action) -> (r: Result<String, ApprovalError>)
    ensures
        r matches Ok(d) && d@ == action_digest_text(action@) && is_digest_text(d@),
{
    let canonical = canonical_action(action);
    Ok(sha256_binding_of(&canonical))
}

/// The fingerprint of a decision (the SHA-256 binding of its canonical text).
pub fn decision_fingerprint_of(d: &Decision) -> (r: String)
    ensures
        r@ == decision_fingerprint(d@),
        is_digest_text(r@),
{
    let canonical = canonical_decision(d);
    sha256_binding_of(&canonical)
}

/// Every SHA-256 binding has the digest format of section 5 (`sha256:` and 64
/// lowercase hexadecimal digits).
pub proof fn lemma_sha256_binding_is_digest(t: Text)
    requires
        sha256_of_text(t).len() == 32,
    ensures
        is_digest_text(sha256_binding(t)),
{
    reveal_strlit("sha256:");
    let h = sha256_of_text(t);
    lemma_lower_hex_text(h);
    let b = sha256_binding(t);
    assert(b.subrange(0, 7) =~= digest_prefix());
    assert forall|i: int| 7 <= i < 71 implies crate::external::is_lower_hex_char(#[trigger] b[i]) by {
        assert(b[i] == lower_hex_text(h)[i - 7]);
    }
}

} // verus!
