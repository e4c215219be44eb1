//! The scripts of a `package.json`.
use crate::order;
use crate::outside;
use crate::outside::JsonMembers;
use crate::paths;
use crate::text;
use vstd::prelude::*;

verus! {

/// The members of the object that the first member called `name` holds, where it holds one.
pub open spec fn inner_members(
    members: Seq<(Seq<char>, Option<Seq<(Seq<char>, Option<Seq<char>>)>>)>,
    name: Seq<char>,
) -> Option<Seq<(Seq<char>, Option<Seq<char>>)>>
    decreases members.len(),
{
    if members.len() == 0 {
        None
    } else if members[0].0 == name {
        members[0].1
    } else {
        inner_members(members.drop_first(), name)
    }
}

/// The name of a script that loads a dotenv file that holds values.
pub open spec fn loading_script(leaf: (Seq<char>, Option<Seq<char>>)) -> Option<Seq<char>> {
    match leaf.1 {
        Some(script) => if paths::loads_dotenv_value(script) {
            Some(leaf.0)
        } else {
            None
        },
        None => None,
    }
}

/// The rule that picks the names of loading scripts.
pub open spec fn script_rule() -> spec_fn((Seq<char>, Option<Seq<char>>)) -> Option<Seq<char>> {
    |leaf: (Seq<char>, Option<Seq<char>>)| loading_script(leaf)
}

/// The names of the scripts of a package that load a dotenv file that holds values. Members of
/// `scripts` that are no strings are no scripts.
pub open spec fn loading_scripts(
    document: Option<Seq<(Seq<char>, Option<Seq<(Seq<char>, Option<Seq<char>>)>>)>>,
) -> Seq<Seq<char>> {
    match document {
        None => Seq::empty(),
        Some(members) => match inner_members(members, "scripts"@) {
            None => Seq::empty(),
            Some(scripts) => scripts.filter_map(script_rule()),
        },
    }
}

/// The names among `leaves` of the scripts that load a dotenv file that holds values.
fn pick_loading_scripts(leaves: &Vec<(String, Option<String>)>) -> (r: Vec<String>)
    ensures
        text::texts(r@) == outside::leaf_models(leaves@).filter_map(script_rule()),
{
    let ghost all = outside::leaf_models(leaves@);
    let mut r: Vec<String> = Vec::new();
    let mut i: usize = 0;
    assert(text::texts(r@) =~= all.take(0).filter_map(script_rule()));
    while i < leaves.len()
        invariant
            i <= leaves@.len(),
            all == outside::leaf_models(leaves@),
            text::texts(r@) == all.take(i as int).filter_map(script_rule()),
        decreases leaves@.len() - i,
    {
        proof {
            assert(all.take(i + 1).drop_last() == all.take(i as int));
            assert(all[i as int] == outside::leaf_model(leaves@[i as int]));
            order::lemma_texts_push(r@, leaves@[i as int].0);
        }
        match &leaves[i].1 {
            None => {},
            Some(script) => if paths::script_loads_dotenv_value(script.as_str()) {
                r.push(leaves[i].0.clone());
            },
        }
        i = i + 1;
    }
    assert(all.take(i as int) == all);
    r
}

/// The names of the scripts of a package that load a dotenv file that holds values, given the
/// members of its JSON object.
pub fn scripts_loading_dotenv(document: &Option<JsonMembers>) -> (r: Vec<String>)
    ensures
        text::texts(r@) == loading_scripts(outside::document_model(*document)),
{
    match document {
        None => {
            let r: Vec<String> = Vec::new();
            assert(text::texts(r@) =~= Seq::empty());
            r
        },
        Some(members) => {
            let ghost all = outside::member_models(members@);
            let mut i: usize = 0;
            assert(all.skip(0) == all);
            while i < members.len()
                invariant
                    i <= members@.len(),
                    all == outside::member_models(members@),
                    inner_members(all, "scripts"@) == inner_members(
                        all.skip(i as int),
                        "scripts"@,
                    ),
                    document == &Some(*members),
                decreases members@.len() - i,
            {
                proof {
                    assert(all[i as int] == outside::member_model(members@[i as int]));
                    assert(all.skip(i as int)[0] == all[i as int]);
                    assert(all.skip(i as int).drop_first() == all.skip(i + 1));
                }
                if text::same(&text::chars_of(members[i].0.as_str()), "scripts") {
                    match &members[i].1 {
                        Some(leaves) => return pick_loading_scripts(leaves),
                        None => {
                            let r: Vec<String> = Vec::new();
                            assert(text::texts(r@) =~= Seq::empty());
                            return r;
                        },
                    }
                }
                i = i + 1;
            }
            let r: Vec<String> = Vec::new();
            assert(text::texts(r@) =~= Seq::empty());
            r
        },
    }
}

} // verus!
