//! JSON documents.
use vstd::prelude::*;

verus! {

/// A JSON document.
#[derive(Debug)]
pub enum Json {
    Text(String),
    Number(usize),
    List(Vec<Json>),
    Object(Vec<(String, Json)>),
}

/// What a JSON document says.
pub enum JsonModel {
    Text(Seq<char>),
    Number(nat),
    List(Seq<JsonModel>),
    Object(Seq<(Seq<char>, JsonModel)>),
}

impl Json {
    /// What this document says.
    pub open spec fn model(self) -> JsonModel
        decreases self,
    {
        match self {
            Json::Text(text) => JsonModel::Text(text@),
            Json::Number(n) => JsonModel::Number(n as nat),
            Json::List(items) => JsonModel::List(
                Seq::new(
                    items@.len(),
                    |i: int|
                        if 0 <= i < items@.len() {
                            items@[i].model()
                        } else {
                            JsonModel::Number(0)
                        },
                ),
            ),
            Json::Object(members) => JsonModel::Object(
                Seq::new(
                    members@.len(),
                    |i: int|
                        if 0 <= i < members@.len() {
                            (members@[i].0@, members@[i].1.model())
                        } else {
                            (Seq::empty(), JsonModel::Number(0))
                        },
                ),
            ),
        }
    }
}

/// What the items of a list say.
pub open spec fn item_models(items: Seq<Json>) -> Seq<JsonModel> {
    items.map_values(|item: Json| item.model())
}

/// What the members of an object say.
pub open spec fn member_models(members: Seq<(String, Json)>) -> Seq<(Seq<char>, JsonModel)> {
    members.map_values(|member: (String, Json)| (member.0@, member.1.model()))
}

/// The text `content`.
pub fn text(content: &str) -> (r: Json)
    ensures
        r.model() == JsonModel::Text(content@),
{
    Json::Text(String::from_str(content))
}

/// The list of `items`.
pub fn list(items: Vec<Json>) -> (r: Json)
    ensures
        r.model() == JsonModel::List(item_models(items@)),
{
    let r = Json::List(items);
    assert(r.model()->List_0 =~= item_models(items@));
    r
}

/// The object with `members`.
pub fn object(members: Vec<(String, Json)>) -> (r: Json)
    ensures
        r.model() == JsonModel::Object(member_models(members@)),
{
    let r = Json::Object(members);
    assert(r.model()->Object_0 =~= member_models(members@));
    r
}

/// The object whose only member is `name` with `value`.
pub fn wrap(name: &str, value: Json) -> (r: Json)
    ensures
        r.model() == JsonModel::Object(seq![(name@, value.model())]),
{
    let members = vec![(String::from_str(name), value)];
    assert(member_models(members@) =~= seq![(name@, value.model())]);
    object(members)
}

} // verus!
