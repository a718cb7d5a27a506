//! JSON documents: their form as trees, and the reading of JSON text.

use crate::text::copy_text;
use crate::text::same_text;
use crate::text::texts;
use crate::utf8::decode;
use vstd::prelude::*;
use vstd::utf8::decode_utf8;
use vstd::utf8::valid_utf8;

verus! {

/// A JSON document as a mathematical tree. A number is its decimal text; the
/// members of an object are listed.
pub enum JsonView {
    Null,
    Bool(bool),
    Number(Seq<char>),
    Text(Seq<char>),
    Array(Seq<JsonView>),
    Object(Seq<(Seq<char>, JsonView)>),
}

/// A JSON document.
#[derive(Debug)]
pub enum Json {
    Null,
    Bool(bool),
    Number(String),
    Text(String),
    Array(Vec<Json>),
    Object(Vec<(String, Json)>),
}

/// The tree of a document.
pub open spec fn tree(j: Json) -> JsonView
    decreases j,
{
    match j {
        Json::Null => JsonView::Null,
        Json::Bool(b) => JsonView::Bool(b),
        Json::Number(n) => JsonView::Number(n@),
        Json::Text(s) => JsonView::Text(s@),
        Json::Array(items) => JsonView::Array(trees(items@)),
        Json::Object(members) => JsonView::Object(member_trees(members@)),
    }
}

/// The trees of a list of documents.
pub open spec fn trees(items: Seq<Json>) -> Seq<JsonView>
    decreases items,
{
    if items.len() == 0 {
        seq![]
    } else {
        trees(items.drop_last()).push(tree(items.last()))
    }
}

/// The names and the trees of a list of members.
pub open spec fn member_trees(members: Seq<(String, Json)>) -> Seq<(Seq<char>, JsonView)>
    decreases members,
{
    if members.len() == 0 {
        seq![]
    } else {
        member_trees(members.drop_last()).push((members.last().0@, tree(members.last().1)))
    }
}

impl View for Json {
    type V = JsonView;

    open spec fn view(&self) -> JsonView {
        tree(*self)
    }
}

/// The trees of a list stand in the order of the list.
pub proof fn lemma_trees(items: Seq<Json>)
    ensures
        trees(items).len() == items.len(),
        forall|i: int| 0 <= i < items.len() ==> #[trigger] trees(items)[i] == items[i]@,
    decreases items.len(),
{
    if items.len() > 0 {
        lemma_trees(items.drop_last());
    }
}

/// The trees of the members stand in the order of the members.
pub proof fn lemma_member_trees(members: Seq<(String, Json)>)
    ensures
        member_trees(members).len() == members.len(),
        forall|i: int|
            0 <= i < members.len() ==> #[trigger] member_trees(members)[i] == (
                members[i].0@,
                members[i].1@,
            ),
    decreases members.len(),
{
    if members.len() > 0 {
        lemma_member_trees(members.drop_last());
    }
}

// ------------------------------------------------------------- looking inside

/// The first member of that name.
pub open spec fn first_member(members: Seq<(Seq<char>, JsonView)>, name: Seq<char>) -> Option<
    JsonView,
>
    decreases members.len(),
{
    if members.len() == 0 {
        None
    } else if members.first().0 == name {
        Some(members.first().1)
    } else {
        first_member(members.drop_first(), name)
    }
}

/// The member of that name, where the document is an object that has one.
pub open spec fn member(j: JsonView, name: Seq<char>) -> Option<JsonView> {
    match j {
        JsonView::Object(members) => first_member(members, name),
        _ => None,
    }
}

/// What is reached by going from member to member along `path`.
pub open spec fn at_path(j: JsonView, path: Seq<Seq<char>>) -> Option<JsonView>
    decreases path.len(),
{
    if path.len() == 0 {
        Some(j)
    } else {
        match member(j, path.first()) {
            Some(m) => at_path(m, path.drop_first()),
            None => None,
        }
    }
}

/// The text at the end of `path`, where a text stands there.
pub open spec fn text_at(path: Seq<Seq<char>>) -> spec_fn(JsonView) -> Option<Seq<char>> {
    |j: JsonView|
        match at_path(j, path) {
            Some(JsonView::Text(s)) => Some(s),
            _ => None,
        }
}

/// The array at the end of `path`, where an array stands there.
pub open spec fn items_at(j: JsonView, path: Seq<Seq<char>>) -> Option<Seq<JsonView>> {
    match at_path(j, path) {
        Some(JsonView::Array(items)) => Some(items),
        _ => None,
    }
}

/// The texts that stand at the end of `path` in the items of a list, in the
/// order of the items. An item without a text there is passed over.
pub open spec fn texts_at(items: Seq<JsonView>, path: Seq<Seq<char>>) -> Seq<Seq<char>> {
    items.filter_map(text_at(path))
}

/// The names along a path.
pub open spec fn path_names(path: Seq<&str>) -> Seq<Seq<char>> {
    path.map_values(|name: &str| name@)
}

impl Json {
    /// The member of that name, where the document is an object that has one.
    pub fn get(&self, name: &str) -> (r: Option<&Json>)
        ensures
            match r {
                Some(m) => member(self@, name@) == Some(m@),
                None => member(self@, name@) is None,
            },
    {
        match self {
            Json::Object(members) => {
                proof {
                    lemma_member_trees(members@);
                }
                let ghost all = member_trees(members@);
                let n: usize = members.len();
                let mut i: usize = 0;
                assert(all.skip(0) =~= all);
                while i < n
                    invariant
                        n == members@.len(),
                        i <= n,
                        all == member_trees(members@),
                        all.len() == n,
                        forall|k: int|
                            0 <= k < n ==> #[trigger] all[k] == (members@[k].0@, members@[k].1@),
                        self@ == JsonView::Object(all),
                        first_member(all, name@) == first_member(all.skip(i as int), name@),
                    decreases n - i,
                {
                    assert(all.skip(i as int).drop_first() =~= all.skip(i + 1));
                    if same_text(members[i].0.as_str(), name) {
                        return Some(&members[i].1);
                    }
                    i += 1;
                }
                None
            },
            _ => None,
        }
    }

    /// What is reached by going from member to member along `path`.
    pub fn at(&self, path: &[&str]) -> (r: Option<&Json>)
        ensures
            match r {
                Some(m) => at_path(self@, path_names(path@)) == Some(m@),
                None => at_path(self@, path_names(path@)) is None,
            },
    {
        let ghost names = path_names(path@);
        let n: usize = path.len();
        let mut here: &Json = self;
        let mut i: usize = 0;
        assert(names.skip(0) =~= names);
        while i < n
            invariant
                n == path@.len(),
                i <= n,
                names == path_names(path@),
                at_path(self@, names) == at_path(here@, names.skip(i as int)),
            decreases n - i,
        {
            assert(names.skip(i as int).drop_first() =~= names.skip(i + 1));
            match here.get(path[i]) {
                Some(m) => {
                    here = m;
                },
                None => {
                    return None;
                },
            }
            i += 1;
        }
        Some(here)
    }

    /// The text at the end of `path`.
    pub fn text_along(&self, path: &[&str]) -> (r: Option<&String>)
        ensures
            match r {
                Some(s) => text_at(path_names(path@))(self@) == Some(s@),
                None => text_at(path_names(path@))(self@) is None,
            },
    {
        match self.at(path) {
            Some(Json::Text(s)) => Some(s),
            _ => None,
        }
    }

    /// The array at the end of `path`.
    pub fn items_along(&self, path: &[&str]) -> (r: Option<&Vec<Json>>)
        ensures
            match r {
                Some(items) => items_at(self@, path_names(path@)) == Some(trees(items@)),
                None => items_at(self@, path_names(path@)) is None,
            },
    {
        match self.at(path) {
            Some(Json::Array(items)) => Some(items),
            _ => None,
        }
    }
}

/// The texts that stand at the end of `path` in the items of a list.
pub fn collect_texts(items: &Vec<Json>, path: &[&str]) -> (r: Vec<String>)
    ensures
        texts(r@) == texts_at(trees(items@), path_names(path@)),
{
    let ghost all = trees(items@);
    let ghost names = path_names(path@);
    let n: usize = items.len();
    let mut r: Vec<String> = Vec::new();
    let mut i: usize = 0;
    proof {
        lemma_trees(items@);
    }
    assert(texts(r@) =~= all.take(0).filter_map(text_at(names)));
    while i < n
        invariant
            n == items@.len(),
            i <= n,
            all == trees(items@),
            all.len() == n,
            forall|k: int| 0 <= k < n ==> #[trigger] all[k] == items@[k]@,
            names == path_names(path@),
            texts(r@) == all.take(i as int).filter_map(text_at(names)),
        decreases n - i,
    {
        let ghost before = r@;
        assert(all.take(i + 1).drop_last() =~= all.take(i as int));
        assert(all.take(i + 1).last() == items@[i as int]@);
        if let Some(s) = items[i].text_along(path) {
            r.push(s.clone());
            assert(texts(r@) =~= texts(before) + seq![s@]);
        }
        i += 1;
    }
    assert(all.take(n as int) =~= all);
    r
}

// ------------------------------------------------------------------- building

/// A JSON text.
pub fn json_text(s: &str) -> (r: Json)
    ensures
        r@ == JsonView::Text(s@),
{
    Json::Text(copy_text(s))
}

/// An array of one item.
pub fn json_array1(item: Json) -> (r: Json)
    ensures
        r@ == JsonView::Array(seq![item@]),
{
    let items = vec![item];
    proof {
        lemma_trees(items@);
        assert(items@[0] == item);
        assert(trees(items@) =~= seq![item@]);
    }
    Json::Array(items)
}

/// An object of one member.
pub fn json_object1(name: &str, value: Json) -> (r: Json)
    ensures
        r@ == JsonView::Object(seq![(name@, value@)]),
{
    let members = vec![(copy_text(name), value)];
    proof {
        lemma_member_trees(members@);
        assert(members@[0].1 == value);
        assert(member_trees(members@) =~= seq![(name@, value@)]);
    }
    Json::Object(members)
}

/// An object of two members.
pub fn json_object2(name: &str, value: Json, name2: &str, value2: Json) -> (r: Json)
    ensures
        r@ == JsonView::Object(seq![(name@, value@), (name2@, value2@)]),
{
    let members = vec![(copy_text(name), value), (copy_text(name2), value2)];
    proof {
        lemma_member_trees(members@);
        assert(members@[0].1 == value);
        assert(members@[1].1 == value2);
        assert(member_trees(members@) =~= seq![(name@, value@), (name2@, value2@)]);
    }
    Json::Object(members)
}

// -------------------------------------------------------------------- reading

/// `serde_json::Value`, carried from the reading of a text to its conversion.
#[verifier::external_type_specification]
#[verifier::external_body]
pub struct ExValue(serde_json::Value);

/// `serde_json::Error`. Nothing is read in it.
#[verifier::external_type_specification]
#[verifier::external_body]
pub struct ExError(serde_json::Error);

/// The tree that a `serde_json::Value` holds. An object lists the entries of its
/// map.
pub uninterp spec fn value_tree(v: serde_json::Value) -> JsonView;

/// The document that `serde_json::from_str` reads in a text; `None` where the
/// text is not one JSON document.
pub uninterp spec fn text_tree(text: Seq<char>) -> Option<JsonView>;

/// The document that stands in a sequence of bytes: they are a text in UTF-8,
/// and the text is a document.
pub open spec fn bytes_tree(bytes: Seq<u8>) -> Option<JsonView> {
    if valid_utf8(bytes) {
        text_tree(decode_utf8(bytes))
    } else {
        None
    }
}

/// `serde_json::from_str`, to a `Value`. The result is a function of the text:
/// it is an error on some texts, and on each other text a value that holds the
/// tree of that text.
#[verifier::external_body]
fn value_from_str(text: &str) -> (r: Result<serde_json::Value, serde_json::Error>)
    ensures
        r is Ok <==> text_tree(text@) is Some,
        r matches Ok(v) ==> text_tree(text@) == Some(value_tree(v)),
{
    serde_json::from_str::<serde_json::Value>(text)
}

/// The conversion of a `serde_json::Value`, variant by variant, with nothing
/// left out: it holds the tree that the value holds. A number becomes its
/// text.
#[verifier::external_body]
fn json_from_value(v: serde_json::Value) -> (j: Json)
    ensures
        j@ == value_tree(v),
{
    match v {
        serde_json::Value::Null => Json::Null,
        serde_json::Value::Bool(b) => Json::Bool(b),
        serde_json::Value::Number(n) => Json::Number(n.to_string()),
        serde_json::Value::String(s) => Json::Text(s),
        serde_json::Value::Array(a) => Json::Array(a.into_iter().map(json_from_value).collect()),
        serde_json::Value::Object(m) => {
            Json::Object(m.into_iter().map(|(k, v)| (k, json_from_value(v))).collect())
        },
    }
}

/// Reads a text as a JSON document, or says why it is none.
pub fn read_json(text: &str) -> (r: Result<Json, serde_json::Error>)
    ensures
        match r {
            Ok(j) => text_tree(text@) == Some(j@),
            Err(_) => text_tree(text@) is None,
        },
{
    match value_from_str(text) {
        Ok(v) => Ok(json_from_value(v)),
        Err(e) => Err(e),
    }
}

/// Reads a text as a JSON document.
pub fn parse_json(text: &str) -> (r: Option<Json>)
    ensures
        match r {
            Some(j) => text_tree(text@) == Some(j@),
            None => text_tree(text@) is None,
        },
{
    match read_json(text) {
        Ok(j) => Some(j),
        Err(_) => None,
    }
}

/// Reads bytes as a JSON document.
pub fn parse_json_bytes(bytes: &[u8]) -> (r: Option<Json>)
    ensures
        match r {
            Some(j) => bytes_tree(bytes@) == Some(j@),
            None => bytes_tree(bytes@) is None,
        },
{
    match decode(bytes) {
        Some(text) => parse_json(text.as_str()),
        None => None,
    }
}

// ------------------------------------------------------------------------ laws

/// The tree of a document shows what the document holds.
pub proof fn trees_show_the_documents(
    b: bool,
    s: String,
    items: Vec<Json>,
    members: Vec<(String, Json)>,
)
    ensures
        Json::Null@ == JsonView::Null,
        Json::Bool(b)@ == JsonView::Bool(b),
        Json::Number(s)@ == JsonView::Number(s@),
        Json::Text(s)@ == JsonView::Text(s@),
        Json::Array(items)@ == JsonView::Array(items@.map_values(|j: Json| j@)),
        Json::Object(members)@ == JsonView::Object(
            members@.map_values(|m: (String, Json)| (m.0@, m.1@)),
        ),
{
    lemma_trees(items@);
    lemma_member_trees(members@);
    assert(trees(items@) =~= items@.map_values(|j: Json| j@));
    assert(member_trees(members@) =~= members@.map_values(|m: (String, Json)| (m.0@, m.1@)));
}

proof fn lemma_first_member(
    before: Seq<(Seq<char>, JsonView)>,
    rest: Seq<(Seq<char>, JsonView)>,
    name: Seq<char>,
)
    requires
        forall|i: int| 0 <= i < before.len() ==> (#[trigger] before[i]).0 != name,
    ensures
        first_member(before + rest, name) == first_member(rest, name),
    decreases before.len(),
{
    if before.len() == 0 {
        assert(before + rest =~= rest);
    } else {
        assert((before + rest).first() == before[0]);
        assert((before + rest).drop_first() =~= before.drop_first() + rest);
        lemma_first_member(before.drop_first(), rest, name);
    }
}

/// A member is found by its name, wherever it stands and whatever other members
/// there are.
pub proof fn members_are_found_by_name(
    before: Seq<(Seq<char>, JsonView)>,
    name: Seq<char>,
    value: JsonView,
    after: Seq<(Seq<char>, JsonView)>,
)
    requires
        forall|i: int| 0 <= i < before.len() ==> (#[trigger] before[i]).0 != name,
    ensures
        member(JsonView::Object(before + seq![(name, value)] + after), name) == Some(value),
        member(JsonView::Object(before), name) is None,
{
    let rest = seq![(name, value)] + after;
    assert(before + seq![(name, value)] + after =~= before + rest);
    lemma_first_member(before, rest, name);
    assert(rest.first() == (name, value));
    let nothing = Seq::<(Seq<char>, JsonView)>::empty();
    assert(before + nothing =~= before);
    lemma_first_member(before, nothing, name);
}

/// Only an object has members.
pub proof fn only_objects_have_members(j: JsonView, name: Seq<char>)
    ensures
        !(j is Object) ==> member(j, name) is None,
{
}

/// A path of one name leads to the member of that name, a path of two names to
/// the member of the member.
pub proof fn paths_lead_from_member_to_member(j: JsonView, a: Seq<char>, b: Seq<char>)
    ensures
        at_path(j, seq![]) == Some(j),
        at_path(j, seq![a]) == member(j, a),
        at_path(j, seq![a, b]) == match member(j, a) {
            Some(m) => member(m, b),
            None => None,
        },
{
    assert(seq![a].drop_first() =~= seq![]);
    assert(seq![a, b].drop_first() =~= seq![b]);
    assert(seq![b].drop_first() =~= seq![]);
    reveal_with_fuel(at_path, 3);
    if let Some(m) = member(j, a) {
        assert(at_path(m, seq![a].drop_first()) == Some(m));
        assert(at_path(m, seq![b]) == member(m, b)) by {
            if let Some(n) = member(m, b) {
                assert(at_path(n, seq![b].drop_first()) == Some(n));
            }
        }
    }
}

/// Bytes are read as the document of the text that they encode; bytes that
/// encode none are no document.
pub proof fn bytes_are_read_as_their_text(bytes: Seq<u8>)
    ensures
        valid_utf8(bytes) ==> bytes_tree(bytes) == text_tree(decode_utf8(bytes)),
        !valid_utf8(bytes) ==> bytes_tree(bytes) is None,
{
}

} // verus!
