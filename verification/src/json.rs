//! The JSON texts this client writes: the bodies of the two user-action
//! endpoints and the `data` part of an upload. Objects are written the way
//! `serde_json` writes a `Map`: compact, with the members in key order.

use vstd::prelude::*;

use crate::outside::{
    hex_encode, json_escape_char, json_escaped, json_string, sha256, spec_hex_lower, spec_json_string, spec_sha256,
};
use crate::signer::{AssertionView, CredentialAssertion};
use crate::text::{key_less, key_lt, law_key_order, lemma_key_total, spec_canonical_path, canonical_request_path};

verus! {

/// The body of `POST /auth/action/init`: the request's method, its canonical path,
/// its payload, and the server kind `Api`.
pub open spec fn spec_init_body(method: Seq<char>, path: Seq<char>, payload: Seq<char>) -> Seq<char> {
    "{\"userActionHttpMethod\":"@ + spec_json_string(method) + ",\"userActionHttpPath\":"@
        + spec_json_string(spec_canonical_path(path)) + ",\"userActionPayload\":"@
        + spec_json_string(payload) + ",\"userActionServerKind\":\"Api\"}"@
}

/// A character that a JSON string literal writes as it is.
pub open spec fn json_plain_char(c: char) -> bool {
    c != '"' && c != '\\' && (c as u32) >= 0x20
}

/// A text none of whose characters needs escaping is written between quotes as it is.
pub proof fn lemma_plain_json_string(s: Seq<char>)
    requires
        forall|i: int| 0 <= i < s.len() ==> json_plain_char(#[trigger] s[i]),
    ensures
        spec_json_string(s) == "\""@ + s + "\""@,
        json_escaped(s) == s,
    decreases s.len(),
{
    reveal_strlit("\"");
    if s.len() > 0 {
        let p = s.drop_last();
        assert forall|i: int| 0 <= i < p.len() implies json_plain_char(#[trigger] p[i]) by {
            assert(p[i] == s[i]);
        }
        lemma_plain_json_string(p);
        assert(json_plain_char(s[s.len() - 1]));
        assert(json_escape_char(s.last()) == seq![s.last()]);
        assert(s =~= p + seq![s.last()]);
    } else {
        assert(json_escaped(s) =~= s);
    }
    assert(spec_json_string(s) =~= "\""@ + s + "\""@);
}

/// The members of the body of `POST /auth/action/init`: the request's method, its
/// canonical path, its payload, and the server kind `Api`, each as a JSON string.
pub open spec fn init_members(method: Seq<char>, path: Seq<char>, payload: Seq<char>) -> Seq<(Seq<char>, Seq<char>)> {
    seq![
        ("userActionHttpMethod"@, spec_json_string(method)),
        ("userActionHttpPath"@, spec_json_string(spec_canonical_path(path))),
        ("userActionPayload"@, spec_json_string(payload)),
        ("userActionServerKind"@, spec_json_string("Api"@)),
    ]
}

/// The JSON object with the members of [`init_members`], in that order.
pub open spec fn init_object(method: Seq<char>, path: Seq<char>, payload: Seq<char>) -> Seq<char> {
    object_text(init_members(method, path, payload))
}

/// The body of `POST /auth/action/init` is the JSON object whose
/// `userActionHttpMethod` is the request's own method, whatever the method,
/// `userActionHttpPath` its canonical path, `userActionPayload` its payload, and
/// `userActionServerKind` `Api`; it starts with the method member.
#[verifier::spinoff_prover]
#[verifier::rlimit(50)]
pub proof fn law_init_body_members(method: Seq<char>, path: Seq<char>, payload: Seq<char>)
    ensures
        spec_init_body(method, path, payload) == init_object(method, path, payload),
        spec_init_body(method, path, payload).take(24 + spec_json_string(method).len() as int)
            == "{\"userActionHttpMethod\":"@ + spec_json_string(method),
{
    let k1 = "userActionHttpMethod"@;
    let k2 = "userActionHttpPath"@;
    let k3 = "userActionPayload"@;
    let k4 = "userActionServerKind"@;
    let api = "Api"@;
    reveal_strlit("userActionHttpMethod");
    reveal_strlit("userActionHttpPath");
    reveal_strlit("userActionPayload");
    reveal_strlit("userActionServerKind");
    reveal_strlit("Api");
    assert forall|i: int| 0 <= i < k1.len() implies json_plain_char(#[trigger] k1[i]) by {}
    assert forall|i: int| 0 <= i < k2.len() implies json_plain_char(#[trigger] k2[i]) by {}
    assert forall|i: int| 0 <= i < k3.len() implies json_plain_char(#[trigger] k3[i]) by {}
    assert forall|i: int| 0 <= i < k4.len() implies json_plain_char(#[trigger] k4[i]) by {}
    assert forall|i: int| 0 <= i < api.len() implies json_plain_char(#[trigger] api[i]) by {}
    lemma_plain_json_string(k1);
    lemma_plain_json_string(k2);
    lemma_plain_json_string(k3);
    lemma_plain_json_string(k4);
    lemma_plain_json_string(api);
    let m = init_members(method, path, payload);
    assert(m.drop_last().drop_last().drop_last() =~= seq![m[0]]);
    assert(m.drop_last().drop_last() =~= seq![m[0], m[1]]);
    assert(m.drop_last() =~= seq![m[0], m[1], m[2]]);
    let m1 = m.drop_last().drop_last().drop_last();
    let m2 = m.drop_last().drop_last();
    let m3 = m.drop_last();
    assert(m2.drop_last() == m1 && m2.last() == m[1]);
    assert(m3.drop_last() == m2 && m3.last() == m[2]);
    assert(members_text(m1) == member_text(m[0]));
    assert(members_text(m2) == members_text(m1) + ","@ + member_text(m[1]));
    assert(members_text(m3) == members_text(m2) + ","@ + member_text(m[2]));
    assert(members_text(m) == members_text(m3) + ","@ + member_text(m[3]));
    let t = members_text(m);
    assert(t == member_text(m[0]) + ","@ + member_text(m[1]) + ","@ + member_text(m[2]) + ","@ + member_text(m[3]));
    reveal_strlit("{");
    reveal_strlit("}");
    reveal_strlit(",");
    reveal_strlit(":");
    reveal_strlit("\"");
    reveal_strlit("{\"userActionHttpMethod\":");
    reveal_strlit(",\"userActionHttpPath\":");
    reveal_strlit(",\"userActionPayload\":");
    reveal_strlit(",\"userActionServerKind\":\"Api\"}");
    let jm = spec_json_string(method);
    let jp = spec_json_string(spec_canonical_path(path));
    let jl = spec_json_string(payload);
    let p1 = "{\"userActionHttpMethod\":"@;
    let p2 = ",\"userActionHttpPath\":"@;
    let p3 = ",\"userActionPayload\":"@;
    let p4 = ",\"userActionServerKind\":\"Api\"}"@;
    assert(p1 =~= "{"@ + ("\""@ + k1 + "\""@) + ":"@);
    assert(p2 =~= ","@ + ("\""@ + k2 + "\""@) + ":"@);
    assert(p3 =~= ","@ + ("\""@ + k3 + "\""@) + ":"@);
    assert(p4 =~= ","@ + ("\""@ + k4 + "\""@) + ":"@ + ("\""@ + api + "\""@) + "}"@);
    assert(spec_init_body(method, path, payload) == p1 + jm + p2 + jp + p3 + jl + p4);
    assert(init_object(method, path, payload) =~= p1 + jm + p2 + jp + p3 + jl + p4);
    assert(p1.len() == 24);
    assert((p1 + jm + p2 + jp + p3 + jl + p4).take(24 + jm.len() as int) =~= p1 + jm);
}

/// The body of `POST /auth/action`: the challenge identifier and the signed
/// assertion as its first factor.
pub open spec fn spec_complete_body(challenge_identifier: Seq<char>, a: AssertionView) -> Seq<char> {
    "{\"challengeIdentifier\":"@ + spec_json_string(challenge_identifier)
        + ",\"firstFactor\":{\"credentialAssertion\":{\"clientData\":"@ + spec_json_string(
        a.client_data,
    ) + ",\"credId\":"@ + spec_json_string(a.cred_id) + ",\"signature\":"@ + spec_json_string(
        a.signature,
    ) + "},\"kind\":"@ + spec_json_string(a.kind) + "}}"@
}

/// The text of an object with two members, in this order.
proof fn lemma_members_two(a: (Seq<char>, Seq<char>), b: (Seq<char>, Seq<char>))
    ensures
        members_text(seq![a, b]) == member_text(a) + ","@ + member_text(b),
{
    let s = seq![a, b];
    assert(s.drop_last() =~= seq![a]);
    assert(s.last() == b);
    assert(members_text(seq![a]) == member_text(seq![a][0]));
}

/// The text of an object with three members, in this order.
proof fn lemma_members_three(a: (Seq<char>, Seq<char>), b: (Seq<char>, Seq<char>), c: (Seq<char>, Seq<char>))
    ensures
        members_text(seq![a, b, c]) == member_text(a) + ","@ + member_text(b) + ","@ + member_text(c),
{
    let s = seq![a, b, c];
    assert(s.drop_last() =~= seq![a, b]);
    assert(s.last() == c);
    lemma_members_two(a, b);
}

/// The JSON object of a credential assertion.
pub open spec fn assertion_object(a: AssertionView) -> Seq<char> {
    object_text(
        seq![
            ("clientData"@, spec_json_string(a.client_data)),
            ("credId"@, spec_json_string(a.cred_id)),
            ("signature"@, spec_json_string(a.signature)),
        ],
    )
}

/// The JSON object of a first factor: the credential assertion and the kind.
pub open spec fn first_factor_object(a: AssertionView) -> Seq<char> {
    object_text(seq![("credentialAssertion"@, assertion_object(a)), ("kind"@, spec_json_string(a.kind))])
}

/// The JSON object submitted to `POST /auth/action`: the challenge identifier, and
/// as first factor the assertion's kind and its credential assertion (client data,
/// credential id, signature), each value a JSON string.
pub open spec fn complete_object(challenge_identifier: Seq<char>, a: AssertionView) -> Seq<char> {
    object_text(
        seq![
            ("challengeIdentifier"@, spec_json_string(challenge_identifier)),
            ("firstFactor"@, first_factor_object(a)),
        ],
    )
}

#[verifier::spinoff_prover]
#[verifier::rlimit(50)]
proof fn lemma_assertion_object(a: AssertionView)
    ensures
        assertion_object(a) == "{\"clientData\":"@ + spec_json_string(a.client_data) + ",\"credId\":"@
            + spec_json_string(a.cred_id) + ",\"signature\":"@ + spec_json_string(a.signature) + "}"@,
{
    let k4 = "clientData"@;
    let k5 = "credId"@;
    let k6 = "signature"@;
    reveal_strlit("clientData");
    reveal_strlit("credId");
    reveal_strlit("signature");
    assert forall|i: int| 0 <= i < k4.len() implies json_plain_char(#[trigger] k4[i]) by {}
    assert forall|i: int| 0 <= i < k5.len() implies json_plain_char(#[trigger] k5[i]) by {}
    assert forall|i: int| 0 <= i < k6.len() implies json_plain_char(#[trigger] k6[i]) by {}
    lemma_plain_json_string(k4);
    lemma_plain_json_string(k5);
    lemma_plain_json_string(k6);
    let jcd = spec_json_string(a.client_data);
    let jci = spec_json_string(a.cred_id);
    let jsg = spec_json_string(a.signature);
    lemma_members_three((k4, jcd), (k5, jci), (k6, jsg));
    reveal_strlit("{");
    reveal_strlit("}");
    reveal_strlit(",");
    reveal_strlit(":");
    reveal_strlit("\"");
    reveal_strlit("{\"clientData\":");
    reveal_strlit(",\"credId\":");
    reveal_strlit(",\"signature\":");
    let q = "\""@;
    assert("{\"clientData\":"@ =~= "{"@ + (q + k4 + q) + ":"@);
    assert(",\"credId\":"@ =~= ","@ + (q + k5 + q) + ":"@);
    assert(",\"signature\":"@ =~= ","@ + (q + k6 + q) + ":"@);
    assert(assertion_object(a) =~= "{\"clientData\":"@ + jcd + ",\"credId\":"@ + jci + ",\"signature\":"@ + jsg
        + "}"@);
}

#[verifier::spinoff_prover]
#[verifier::rlimit(50)]
proof fn lemma_first_factor_object(a: AssertionView)
    ensures
        first_factor_object(a) == "{\"credentialAssertion\":"@ + assertion_object(a) + ",\"kind\":"@
            + spec_json_string(a.kind) + "}"@,
{
    let k3 = "credentialAssertion"@;
    let k7 = "kind"@;
    reveal_strlit("credentialAssertion");
    reveal_strlit("kind");
    assert forall|i: int| 0 <= i < k3.len() implies json_plain_char(#[trigger] k3[i]) by {}
    assert forall|i: int| 0 <= i < k7.len() implies json_plain_char(#[trigger] k7[i]) by {}
    lemma_plain_json_string(k3);
    lemma_plain_json_string(k7);
    lemma_members_two((k3, assertion_object(a)), (k7, spec_json_string(a.kind)));
    reveal_strlit("{");
    reveal_strlit("}");
    reveal_strlit(",");
    reveal_strlit(":");
    reveal_strlit("\"");
    reveal_strlit("{\"credentialAssertion\":");
    reveal_strlit(",\"kind\":");
    let q = "\""@;
    assert("{\"credentialAssertion\":"@ =~= "{"@ + (q + k3 + q) + ":"@);
    assert(",\"kind\":"@ =~= ","@ + (q + k7 + q) + ":"@);
    assert(first_factor_object(a) =~= "{\"credentialAssertion\":"@ + assertion_object(a) + ",\"kind\":"@
        + spec_json_string(a.kind) + "}"@);
}

/// The body of `POST /auth/action` is the JSON object whose `challengeIdentifier`
/// is the given identifier and whose `firstFactor` holds the assertion's own kind,
/// client data, credential id and signature, each in its own member.
#[verifier::spinoff_prover]
#[verifier::rlimit(50)]
pub proof fn law_complete_body_members(challenge_identifier: Seq<char>, a: AssertionView)
    ensures
        spec_complete_body(challenge_identifier, a) == complete_object(challenge_identifier, a),
{
    lemma_assertion_object(a);
    lemma_first_factor_object(a);
    let k1 = "challengeIdentifier"@;
    let k2 = "firstFactor"@;
    reveal_strlit("challengeIdentifier");
    reveal_strlit("firstFactor");
    assert forall|i: int| 0 <= i < k1.len() implies json_plain_char(#[trigger] k1[i]) by {}
    assert forall|i: int| 0 <= i < k2.len() implies json_plain_char(#[trigger] k2[i]) by {}
    lemma_plain_json_string(k1);
    lemma_plain_json_string(k2);
    let jid = spec_json_string(challenge_identifier);
    let f = first_factor_object(a);
    lemma_members_two((k1, jid), (k2, f));
    reveal_strlit("{");
    reveal_strlit("}");
    reveal_strlit(",");
    reveal_strlit(":");
    reveal_strlit("\"");
    reveal_strlit("{\"challengeIdentifier\":");
    reveal_strlit(",\"firstFactor\":{\"credentialAssertion\":{\"clientData\":");
    reveal_strlit(",\"firstFactor\":");
    reveal_strlit("{\"credentialAssertion\":");
    reveal_strlit("{\"clientData\":");
    reveal_strlit("},\"kind\":");
    reveal_strlit(",\"kind\":");
    reveal_strlit("}}");
    let q = "\""@;
    assert("{\"challengeIdentifier\":"@ =~= "{"@ + (q + k1 + q) + ":"@);
    assert(",\"firstFactor\":"@ =~= ","@ + (q + k2 + q) + ":"@);
    assert(",\"firstFactor\":{\"credentialAssertion\":{\"clientData\":"@ =~= ",\"firstFactor\":"@
        + "{\"credentialAssertion\":"@ + "{\"clientData\":"@);
    assert("},\"kind\":"@ =~= "}"@ + ",\"kind\":"@);
    assert("}}"@ =~= "}"@ + "}"@);
    assert(complete_object(challenge_identifier, a) =~= "{\"challengeIdentifier\":"@ + jid + ",\"firstFactor\":"@
        + f + "}"@);
    assert(spec_complete_body(challenge_identifier, a) =~= complete_object(challenge_identifier, a));
}

/// Writes the body of `POST /auth/action/init` for a request.
pub fn init_request_body(method: &str, path: &str, payload: &str) -> (res: String)
    ensures
        res@ == spec_init_body(method@, path@, payload@),
{
    let canonical = canonical_request_path(path);
    let mut out = "{\"userActionHttpMethod\":".to_owned();
    out.append(json_string(method).as_str());
    out.append(",\"userActionHttpPath\":");
    out.append(json_string(canonical.as_str()).as_str());
    out.append(",\"userActionPayload\":");
    out.append(json_string(payload).as_str());
    out.append(",\"userActionServerKind\":\"Api\"}");
    out
}

/// Writes the body of `POST /auth/action` for a signed challenge.
pub fn complete_request_body(challenge_identifier: &str, assertion: &CredentialAssertion) -> (res: String)
    ensures
        res@ == spec_complete_body(challenge_identifier@, assertion@),
{
    let mut out = "{\"challengeIdentifier\":".to_owned();
    out.append(json_string(challenge_identifier).as_str());
    out.append(",\"firstFactor\":{\"credentialAssertion\":{\"clientData\":");
    out.append(json_string(assertion.credential_assertion.client_data.as_str()).as_str());
    out.append(",\"credId\":");
    out.append(json_string(assertion.credential_assertion.cred_id.as_str()).as_str());
    out.append(",\"signature\":");
    out.append(json_string(assertion.credential_assertion.signature.as_str()).as_str());
    out.append("},\"kind\":");
    out.append(json_string(assertion.kind.as_str()).as_str());
    out.append("}}");
    out
}

// ---------------------------------------------------------------------------
// Objects

/// One member of a JSON object: its key and the JSON text of its value.
#[derive(Debug, Clone)]
pub struct JsonField {
    pub key: String,
    pub value: String,
}

/// The key and value text of each member.
pub open spec fn fields_view(fields: Seq<JsonField>) -> Seq<(Seq<char>, Seq<char>)> {
    fields.map_values(|f: JsonField| (f.key@, f.value@))
}

/// One member as it stands in an object's text.
pub open spec fn member_text(f: (Seq<char>, Seq<char>)) -> Seq<char> {
    spec_json_string(f.0) + ":"@ + f.1
}

/// The members of an object, separated by commas.
pub open spec fn members_text(fields: Seq<(Seq<char>, Seq<char>)>) -> Seq<char>
    decreases fields.len(),
{
    if fields.len() == 0 {
        seq![]
    } else if fields.len() == 1 {
        member_text(fields[0])
    } else {
        members_text(fields.drop_last()) + ","@ + member_text(fields.last())
    }
}

/// The text of an object with these members, in this order.
pub open spec fn object_text(fields: Seq<(Seq<char>, Seq<char>)>) -> Seq<char> {
    "{"@ + members_text(fields) + "}"@
}

/// Writes an object with these members, in this order.
pub fn write_object(fields: &Vec<JsonField>) -> (res: String)
    ensures
        res@ == object_text(fields_view(fields@)),
{
    let ghost fv = fields_view(fields@);
    let mut out = "{".to_owned();
    let mut i: usize = 0;
    while i < fields.len()
        invariant
            i <= fields@.len(),
            fv == fields_view(fields@),
            out@ == "{"@ + members_text(fv.take(i as int)),
        decreases fields@.len() - i,
    {
        assert(fv.take(i + 1).drop_last() =~= fv.take(i as int));
        assert(fv.take(i + 1).last() == fv[i as int]);
        if i > 0 {
            out.append(",");
        }
        out.append(json_string(fields[i].key.as_str()).as_str());
        out.append(":");
        out.append(fields[i].value.as_str());
        proof {
            if i == 0 {
                assert(fv.take(1) =~= seq![fv[0]]);
            }
        }
        i = i + 1;
    }
    assert(fv.take(fields@.len() as int) =~= fv);
    out.append("}");
    out
}


/// The members whose key sorts before `key`, in order.
pub open spec fn fields_below(fields: Seq<(Seq<char>, Seq<char>)>, key: Seq<char>) -> Seq<(Seq<char>, Seq<char>)>
    decreases fields.len(),
{
    if fields.len() == 0 {
        fields
    } else if key_lt(fields.last().0, key) {
        fields_below(fields.drop_last(), key).push(fields.last())
    } else {
        fields_below(fields.drop_last(), key)
    }
}

/// The members whose key sorts after `key`, in order.
pub open spec fn fields_above(fields: Seq<(Seq<char>, Seq<char>)>, key: Seq<char>) -> Seq<(Seq<char>, Seq<char>)>
    decreases fields.len(),
{
    if fields.len() == 0 {
        fields
    } else if key_lt(key, fields.last().0) {
        fields_above(fields.drop_last(), key).push(fields.last())
    } else {
        fields_above(fields.drop_last(), key)
    }
}

/// The members of a key-ordered object after setting `key` to `value`: the members
/// before it, the new member, the members after it (a member with that key is replaced).
pub open spec fn spec_set_field(
    fields: Seq<(Seq<char>, Seq<char>)>,
    key: Seq<char>,
    value: Seq<char>,
) -> Seq<(Seq<char>, Seq<char>)> {
    fields_below(fields, key) + seq![(key, value)] + fields_above(fields, key)
}

/// Copies a member.
fn copy_field(f: &JsonField) -> (res: JsonField)
    ensures
        res.key@ == f.key@,
        res.value@ == f.value@,
{
    JsonField { key: f.key.clone(), value: f.value.clone() }
}

/// Sets `key` to the JSON text `value` in a key-ordered list of members.
pub fn set_field(fields: &Vec<JsonField>, key: &str, value: &str) -> (res: Vec<JsonField>)
    ensures
        fields_view(res@) == spec_set_field(fields_view(fields@), key@, value@),
{
    let ghost fv = fields_view(fields@);
    let mut below: Vec<JsonField> = Vec::new();
    let mut i: usize = 0;
    while i < fields.len()
        invariant
            i <= fields@.len(),
            fv == fields_view(fields@),
            fields_view(below@) == fields_below(fv.take(i as int), key@),
        decreases fields@.len() - i,
    {
        assert(fv.take(i + 1).drop_last() =~= fv.take(i as int));
        assert(fv.take(i + 1).last() == fv[i as int]);
        if key_less(fields[i].key.as_str(), key) {
            let f = copy_field(&fields[i]);
            let ghost before = below@;
            below.push(f);
            assert(fields_view(below@) =~= fields_view(before).push(fv[i as int]));
        }
        i = i + 1;
    }
    let mut above: Vec<JsonField> = Vec::new();
    let mut j: usize = 0;
    while j < fields.len()
        invariant
            j <= fields@.len(),
            fv == fields_view(fields@),
            fields_view(above@) == fields_above(fv.take(j as int), key@),
        decreases fields@.len() - j,
    {
        assert(fv.take(j + 1).drop_last() =~= fv.take(j as int));
        assert(fv.take(j + 1).last() == fv[j as int]);
        if key_less(key, fields[j].key.as_str()) {
            let f = copy_field(&fields[j]);
            let ghost before = above@;
            above.push(f);
            assert(fields_view(above@) =~= fields_view(before).push(fv[j as int]));
        }
        j = j + 1;
    }
    assert(fv.take(fields@.len() as int) =~= fv);
    let ghost b = below@;
    let ghost a = above@;
    below.push(JsonField { key: key.to_owned(), value: value.to_owned() });
    below.append(&mut above);
    assert(fields_view(below@) =~= fields_view(b) + seq![(key@, value@)] + fields_view(a));
    below
}


/// Every key sorts strictly before the keys that follow it (so no key occurs twice).
pub open spec fn keys_ordered(fields: Seq<(Seq<char>, Seq<char>)>) -> bool {
    forall|i: int, j: int| 0 <= i < j < fields.len() ==> key_lt(#[trigger] fields[i].0, #[trigger] fields[j].0)
}

/// The members before `key`: all members of `fields` with a smaller key, in order.
pub proof fn lemma_fields_below(fields: Seq<(Seq<char>, Seq<char>)>, key: Seq<char>)
    ensures
        forall|i: int| #![trigger fields_below(fields, key)[i]] 0 <= i < fields_below(fields, key).len() ==>
            key_lt(fields_below(fields, key)[i].0, key) && fields.contains(fields_below(fields, key)[i]),
        forall|f: (Seq<char>, Seq<char>)| fields.contains(f) && key_lt(f.0, key) ==> #[trigger] fields_below(fields, key).contains(f),
        keys_ordered(fields) ==> keys_ordered(fields_below(fields, key)),
    decreases fields.len(),
{
    if fields.len() > 0 {
        let d = fields.drop_last();
        lemma_fields_below(d, key);
        let bd = fields_below(d, key);
        let b = fields_below(fields, key);
        assert forall|i: int| 0 <= i < d.len() implies fields.contains(#[trigger] d[i]) by {
            assert(fields[i] == d[i]);
        }
        assert(fields[fields.len() - 1] == fields.last());
        assert forall|f: (Seq<char>, Seq<char>)| fields.contains(f) && key_lt(f.0, key) implies #[trigger] b.contains(f) by {
            let w = choose|w: int| 0 <= w < fields.len() && fields[w] == f;
            if w < fields.len() - 1 {
                assert(d[w] == f);
                assert(d.contains(f));
                assert(bd.contains(f));
                let v = choose|v: int| 0 <= v < bd.len() && bd[v] == f;
                if key_lt(fields.last().0, key) {
                    assert(b[v] == f);
                } else {
                    assert(b[v] == f);
                }
            } else {
                assert(b[b.len() - 1] == f);
            }
        }
        if keys_ordered(fields) {
            assert forall|i: int, j: int| 0 <= i < j < d.len() implies key_lt(#[trigger] d[i].0, #[trigger] d[j].0) by {
                assert(d[i] == fields[i] && d[j] == fields[j]);
            }
            if key_lt(fields.last().0, key) {
                assert(b =~= bd.push(fields.last()));
                assert forall|i: int, j: int| 0 <= i < j < b.len() implies key_lt(#[trigger] b[i].0, #[trigger] b[j].0) by {
                    if j == b.len() - 1 {
                        assert(d.contains(bd[i]));
                        let w = choose|w: int| 0 <= w < d.len() && d[w] == bd[i];
                        assert(fields[w] == d[w]);
                        assert(key_lt(fields[w].0, fields[fields.len() - 1].0));
                    } else {
                        assert(b[i] == bd[i] && b[j] == bd[j]);
                    }
                }
            }
        }
    }
}

/// The members after `key`: all members of `fields` with a greater key, in order.
pub proof fn lemma_fields_above(fields: Seq<(Seq<char>, Seq<char>)>, key: Seq<char>)
    ensures
        forall|i: int| #![trigger fields_above(fields, key)[i]] 0 <= i < fields_above(fields, key).len() ==>
            key_lt(key, fields_above(fields, key)[i].0) && fields.contains(fields_above(fields, key)[i]),
        forall|f: (Seq<char>, Seq<char>)| fields.contains(f) && key_lt(key, f.0) ==> #[trigger] fields_above(fields, key).contains(f),
        keys_ordered(fields) ==> keys_ordered(fields_above(fields, key)),
    decreases fields.len(),
{
    if fields.len() > 0 {
        let d = fields.drop_last();
        lemma_fields_above(d, key);
        let bd = fields_above(d, key);
        let b = fields_above(fields, key);
        assert forall|i: int| 0 <= i < d.len() implies fields.contains(#[trigger] d[i]) by {
            assert(fields[i] == d[i]);
        }
        assert(fields[fields.len() - 1] == fields.last());
        assert forall|f: (Seq<char>, Seq<char>)| fields.contains(f) && key_lt(key, f.0) implies #[trigger] b.contains(f) by {
            let w = choose|w: int| 0 <= w < fields.len() && fields[w] == f;
            if w < fields.len() - 1 {
                assert(d[w] == f);
                assert(d.contains(f));
                assert(bd.contains(f));
                let v = choose|v: int| 0 <= v < bd.len() && bd[v] == f;
                assert(b[v] == f);
            } else {
                assert(b[b.len() - 1] == f);
            }
        }
        if keys_ordered(fields) {
            assert forall|i: int, j: int| 0 <= i < j < d.len() implies key_lt(#[trigger] d[i].0, #[trigger] d[j].0) by {
                assert(d[i] == fields[i] && d[j] == fields[j]);
            }
            if key_lt(key, fields.last().0) {
                assert(b =~= bd.push(fields.last()));
                assert forall|i: int, j: int| 0 <= i < j < b.len() implies key_lt(#[trigger] b[i].0, #[trigger] b[j].0) by {
                    if j == b.len() - 1 {
                        assert(d.contains(bd[i]));
                        let w = choose|w: int| 0 <= w < d.len() && d[w] == bd[i];
                        assert(fields[w] == d[w]);
                        assert(key_lt(fields[w].0, fields[fields.len() - 1].0));
                    } else {
                        assert(b[i] == bd[i] && b[j] == bd[j]);
                    }
                }
            }
        }
    }
}

/// Setting a member of a key-ordered object keeps its keys ordered; afterwards the
/// object holds the new member, every other member it held, and nothing else.
pub proof fn law_set_field(fields: Seq<(Seq<char>, Seq<char>)>, key: Seq<char>, value: Seq<char>)
    requires
        keys_ordered(fields),
    ensures
        keys_ordered(spec_set_field(fields, key, value)),
        spec_set_field(fields, key, value).contains((key, value)),
        forall|f: (Seq<char>, Seq<char>)| fields.contains(f) && f.0 != key ==> #[trigger] spec_set_field(fields, key, value).contains(f),
        forall|g: (Seq<char>, Seq<char>)| #[trigger] spec_set_field(fields, key, value).contains(g) ==> g == (key, value)
            || (fields.contains(g) && g.0 != key),
{
    lemma_fields_below(fields, key);
    lemma_fields_above(fields, key);
    let lo = fields_below(fields, key);
    let hi = fields_above(fields, key);
    let r = spec_set_field(fields, key, value);
    let m = lo.len() as int;
    assert(r[m] == (key, value));
    law_key_order(key, key, key);
    assert forall|i: int, j: int| 0 <= i < j < r.len() implies key_lt(#[trigger] r[i].0, #[trigger] r[j].0) by {
        if j < m {
            assert(r[i] == lo[i] && r[j] == lo[j]);
        } else if j == m {
            assert(r[i] == lo[i]);
        } else if i > m {
            assert(r[i] == hi[i - m - 1] && r[j] == hi[j - m - 1]);
        } else if i == m {
            assert(r[j] == hi[j - m - 1]);
        } else {
            assert(r[i] == lo[i] && r[j] == hi[j - m - 1]);
            law_key_order(lo[i].0, key, hi[j - m - 1].0);
        }
    }
    assert forall|f: (Seq<char>, Seq<char>)| fields.contains(f) && f.0 != key implies #[trigger] r.contains(f) by {
        lemma_key_total(f.0, key);
        if key_lt(f.0, key) {
            assert(lo.contains(f));
            let v = choose|v: int| 0 <= v < lo.len() && lo[v] == f;
            assert(r[v] == f);
        } else {
            assert(hi.contains(f));
            let v = choose|v: int| 0 <= v < hi.len() && hi[v] == f;
            assert(r[m + 1 + v] == f);
        }
    }
    assert forall|g: (Seq<char>, Seq<char>)| #[trigger] r.contains(g) implies g == (key, value) || (fields.contains(g)
        && g.0 != key) by {
        let w = choose|w: int| 0 <= w < r.len() && r[w] == g;
        if w < m {
            assert(lo[w] == g);
            law_key_order(g.0, key, key);
        } else if w > m {
            assert(hi[w - m - 1] == g);
            law_key_order(key, g.0, key);
        }
    }
}

/// The `data` part of an upload: the caller's object with `fileChecksum` set to the
/// lower-case hex SHA-256 digest of the file.
pub open spec fn spec_upload_data(fields: Seq<(Seq<char>, Seq<char>)>, file: Seq<u8>) -> Seq<char> {
    object_text(spec_set_field(fields, "fileChecksum"@, spec_json_string(spec_hex_lower(spec_sha256(file)))))
}

/// Writes the `data` part of an upload.
pub fn upload_data(fields: &Vec<JsonField>, file: &[u8]) -> (res: String)
    ensures
        res@ == spec_upload_data(fields_view(fields@), file@),
{
    let digest = sha256(file);
    let checksum = hex_encode(digest.as_slice());
    let quoted = json_string(checksum.as_str());
    let merged = set_field(fields, "fileChecksum", quoted.as_str());
    write_object(&merged)
}

/// The `fileChecksum` value for a file: the JSON string of the lower-case hex
/// SHA-256 digest of its bytes.
pub open spec fn checksum_value(file: Seq<u8>) -> Seq<char> {
    spec_json_string(spec_hex_lower(spec_sha256(file)))
}

/// Every upload's `data` part, for any members the caller gives (none included), is
/// a JSON object with its keys in order that holds the member `fileChecksum` with the
/// file's checksum, every member of the caller's whose key is another, and nothing
/// else.
pub proof fn law_upload_data_members(fields: Seq<(Seq<char>, Seq<char>)>, file: Seq<u8>)
    requires
        keys_ordered(fields),
    ensures
        exists|m: Seq<(Seq<char>, Seq<char>)>|
            #![trigger object_text(m)]
            {
                &&& spec_upload_data(fields, file) == object_text(m)
                &&& keys_ordered(m)
                &&& m.contains(("fileChecksum"@, checksum_value(file)))
                &&& forall|g: (Seq<char>, Seq<char>)| #[trigger] m.contains(g) ==> g == ("fileChecksum"@, checksum_value(file))
                    || (fields.contains(g) && g.0 != "fileChecksum"@)
                &&& forall|f: (Seq<char>, Seq<char>)| fields.contains(f) && f.0 != "fileChecksum"@ ==> #[trigger] m.contains(f)
            },
{
    let key = "fileChecksum"@;
    let w = spec_set_field(fields, key, checksum_value(file));
    law_set_field(fields, key, checksum_value(file));
    assert(spec_upload_data(fields, file) == object_text(w));
}

} // verus!
