//! What the crate has from outside: decoding of bytes and parsing of JSON.
use vstd::prelude::*;

verus! {

/// The text that `bytes` decode to, ill-formed sequences replaced.
pub uninterp spec fn lossy_text(bytes: Seq<u8>) -> Seq<char>;

/// `String::from_utf8_lossy` decodes UTF-8. Claimed of it: the text depends on the bytes
/// alone, and bytes that are valid UTF-8 are the encoding of the text that comes back. Not
/// said: where ill-formed bytes are cut into the sequences that it replaces.
#[verifier::external_body]
fn decode_lossy(bytes: &[u8]) -> (r: String)
    ensures
        r@ == lossy_text(bytes@),
        vstd::utf8::valid_utf8(bytes@) ==> vstd::utf8::encode_utf8(r@) == bytes@,
{
    String::from_utf8_lossy(bytes).into_owned()
}

/// The text of `bytes`: what they encode where they are valid UTF-8, and otherwise what is left
/// of it once ill-formed sequences are replaced.
pub open spec fn decoded(bytes: Seq<u8>) -> Seq<char> {
    if vstd::utf8::valid_utf8(bytes) {
        vstd::utf8::decode_utf8(bytes)
    } else {
        lossy_text(bytes)
    }
}

/// The text of `bytes`.
pub fn decode(bytes: &[u8]) -> (r: String)
    ensures
        r@ == decoded(bytes@),
        vstd::utf8::valid_utf8(bytes@) ==> vstd::utf8::encode_utf8(r@) == bytes@,
{
    let r = decode_lossy(bytes);
    proof {
        vstd::utf8::encode_utf8_decode_utf8(r@);
    }
    r
}

/// The members of a JSON object: every name with, where its value is an object, the members of
/// that object; of these every name with, where its value is a string, the string.
pub type JsonMembers = Vec<(String, Option<Vec<(String, Option<String>)>>)>;

/// What an inner member says.
pub open spec fn leaf_model(leaf: (String, Option<String>)) -> (Seq<char>, Option<Seq<char>>) {
    (
        leaf.0@,
        match leaf.1 {
            Some(value) => Some(value@),
            None => None,
        },
    )
}

/// What inner members say.
pub open spec fn leaf_models(leaves: Seq<(String, Option<String>)>) -> Seq<
    (Seq<char>, Option<Seq<char>>),
> {
    leaves.map_values(|leaf: (String, Option<String>)| leaf_model(leaf))
}

/// What a member says.
pub open spec fn member_model(member: (String, Option<Vec<(String, Option<String>)>>)) -> (
    Seq<char>,
    Option<Seq<(Seq<char>, Option<Seq<char>>)>>,
) {
    (
        member.0@,
        match member.1 {
            Some(leaves) => Some(leaf_models(leaves@)),
            None => None,
        },
    )
}

/// What members say.
pub open spec fn member_models(
    members: Seq<(String, Option<Vec<(String, Option<String>)>>)>,
) -> Seq<(Seq<char>, Option<Seq<(Seq<char>, Option<Seq<char>>)>>)> {
    members.map_values(
        |member: (String, Option<Vec<(String, Option<String>)>>)| member_model(member),
    )
}

/// What optional members say.
pub open spec fn document_model(document: Option<JsonMembers>) -> Option<
    Seq<(Seq<char>, Option<Seq<(Seq<char>, Option<Seq<char>>)>>)>,
> {
    match document {
        Some(members) => Some(member_models(members@)),
        None => None,
    }
}

/// The members of the JSON object that a text denotes; none where it denotes no JSON object.
pub uninterp spec fn json_members(body: Seq<char>) -> Option<
    Seq<(Seq<char>, Option<Seq<(Seq<char>, Option<Seq<char>>)>>)>,
>;

/// `serde_json::from_str` parses JSON into a `serde_json::Value`; its `as_object` and `as_str`
/// tell objects and strings from other values. Claimed of it: what comes back depends on the
/// text alone. Not said: which texts are JSON, which values they denote, and in which order the
/// members of an object come.
#[verifier::external_body]
pub(crate) fn parse_json_object(body: &str) -> (r: Option<JsonMembers>)
    ensures
        document_model(r) == json_members(body@),
{
    let value = serde_json::from_str::<serde_json::Value>(body).ok()?;
    let mut members = Vec::new();
    for (name, member) in value.as_object()? {
        let leaves = member.as_object().map(|inner| {
            inner.iter().map(|(key, leaf)| (key.clone(), leaf.as_str().map(String::from))).collect()
        });
        members.push((name.clone(), leaves));
    }
    Some(members)
}

} // verus!
