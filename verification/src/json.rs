//! JSON documents as plain trees, read from text and written back by `serde_json`.
use vstd::prelude::*;
use crate::text::{same, texts};

verus! {

/// A JSON document.
#[derive(Debug, PartialEq, Eq)]
pub enum Json {
    Null,
    Bool(bool),
    /// A number that fits 64 signed bits.
    Integer(i64),
    /// Any other number, by its text.
    Number(String),
    Text(String),
    Array(Vec<Json>),
    /// Where a key occurs twice, its last value counts.
    Object(Vec<Field>),
}

/// One member of a JSON object.
#[derive(Debug, PartialEq, Eq)]
pub struct Field {
    pub key: String,
    pub value: Json,
}

/// What a JSON document says.
pub enum Tree {
    Null,
    Bool(bool),
    Integer(int),
    Number(Seq<char>),
    Text(Seq<char>),
    Array(Seq<Tree>),
    Object(Map<Seq<char>, Tree>),
}

impl Json {
    pub open spec fn tree(self) -> Tree
        decreases self,
    {
        match self {
            Json::Null => Tree::Null,
            Json::Bool(flag) => Tree::Bool(flag),
            Json::Integer(number) => Tree::Integer(number as int),
            Json::Number(digits) => Tree::Number(digits@),
            Json::Text(text) => Tree::Text(text@),
            Json::Array(items) => Tree::Array(trees(items@)),
            Json::Object(fields) => Tree::Object(entries(fields@)),
        }
    }

    /// The document that `serde_json` makes of this one: a number beyond 64 signed bits is what its
    /// text spells, or null where it spells nothing.
    pub open spec fn written(self) -> Tree
        decreases self,
    {
        match self {
            Json::Number(digits) => match json_parse(digits@) {
                Ok(tree) => tree,
                Err(_) => Tree::Null,
            },
            Json::Array(items) => Tree::Array(written_items(items@)),
            Json::Object(fields) => Tree::Object(written_fields(fields@)),
            other => other.tree(),
        }
    }

    /// A document without numbers beyond 64 signed bits.
    pub open spec fn settled(self) -> bool
        decreases self,
    {
        match self {
            Json::Number(_) => false,
            Json::Array(items) => settled_items(items@),
            Json::Object(fields) => settled_fields(fields@),
            _ => true,
        }
    }
}

pub open spec fn written_items(items: Seq<Json>) -> Seq<Tree>
    decreases items,
{
    if items.len() == 0 {
        Seq::empty()
    } else {
        written_items(items.drop_last()).push(items.last().written())
    }
}

pub open spec fn written_fields(fields: Seq<Field>) -> Map<Seq<char>, Tree>
    decreases fields,
{
    if fields.len() == 0 {
        Map::empty()
    } else {
        written_fields(fields.drop_last()).insert(fields.last().key@, fields.last().value.written())
    }
}

pub open spec fn settled_items(items: Seq<Json>) -> bool
    decreases items,
{
    items.len() == 0 || (settled_items(items.drop_last()) && items.last().settled())
}

pub open spec fn settled_fields(fields: Seq<Field>) -> bool
    decreases fields,
{
    fields.len() == 0 || (settled_fields(fields.drop_last()) && fields.last().value.settled())
}

pub open spec fn trees(items: Seq<Json>) -> Seq<Tree>
    decreases items,
{
    if items.len() == 0 {
        Seq::empty()
    } else {
        trees(items.drop_last()).push(items.last().tree())
    }
}

pub open spec fn entries(fields: Seq<Field>) -> Map<Seq<char>, Tree>
    decreases fields,
{
    if fields.len() == 0 {
        Map::empty()
    } else {
        entries(fields.drop_last()).insert(fields.last().key@, fields.last().value.tree())
    }
}

/// An array of texts.
pub open spec fn text_array(values: Seq<Seq<char>>) -> Tree {
    Tree::Array(values.map_values(|value: Seq<char>| Tree::Text(value)))
}

/// A text, or null.
pub open spec fn text_or_null(value: Option<Seq<char>>) -> Tree {
    match value {
        Some(text) => Tree::Text(text),
        None => Tree::Null,
    }
}

impl Tree {
    /// The member of an object.
    pub open spec fn get(self, key: Seq<char>) -> Option<Tree> {
        match self {
            Tree::Object(members) => if members.dom().contains(key) {
                Some(members[key])
            } else {
                None
            },
            _ => None,
        }
    }

    /// The member of a member.
    pub open spec fn at(self, first: Seq<char>, second: Seq<char>) -> Option<Tree> {
        match self.get(first) {
            Some(inner) => inner.get(second),
            None => None,
        }
    }

    /// The member of a member of a member.
    pub open spec fn at3(self, first: Seq<char>, second: Seq<char>, third: Seq<char>) -> Option<
        Tree,
    > {
        match self.at(first, second) {
            Some(inner) => inner.get(third),
            None => None,
        }
    }
}

/// The text of an optional document that is one.
pub open spec fn text_of(tree: Option<Tree>) -> Option<Seq<char>> {
    match tree {
        Some(Tree::Text(text)) => Some(text),
        _ => None,
    }
}

/// The items of an optional document that is an array, and none otherwise.
pub open spec fn items_of(tree: Option<Tree>) -> Seq<Tree> {
    match tree {
        Some(Tree::Array(items)) => items,
        _ => Seq::empty(),
    }
}

/// The integer of an optional document that is one.
pub open spec fn integer_of(tree: Option<Tree>) -> Option<int> {
    match tree {
        Some(Tree::Integer(number)) => Some(number),
        _ => None,
    }
}

/// The tree behind an optional reference.
pub open spec fn opt_tree(value: Option<&Json>) -> Option<Tree> {
    match value {
        Some(json) => Some(json.tree()),
        None => None,
    }
}

pub proof fn lemma_trees(items: Seq<Json>)
    ensures
        trees(items).len() == items.len(),
        forall|i: int| 0 <= i < items.len() ==> trees(items)[i] == (#[trigger] items[i]).tree(),
    decreases items.len(),
{
    if items.len() > 0 {
        lemma_trees(items.drop_last());
        assert(forall|i: int| 0 <= i < items.len() - 1 ==> items.drop_last()[i] == items[i]);
    }
}

pub proof fn lemma_entries(fields: Seq<Field>, key: Seq<char>)
    ensures
        entries(fields).dom().contains(key) <==> exists|i: int|
            0 <= i < fields.len() && (#[trigger] fields[i]).key@ == key,
    decreases fields.len(),
{
    if fields.len() > 0 {
        lemma_entries(fields.drop_last(), key);
        assert(forall|i: int| 0 <= i < fields.len() - 1 ==> fields.drop_last()[i] == fields[i]);
        if fields.last().key@ == key {
            assert(fields[fields.len() - 1].key@ == key);
        }
        if exists|i: int| 0 <= i < fields.len() && (#[trigger] fields[i]).key@ == key {
            let i = choose|i: int| 0 <= i < fields.len() && (#[trigger] fields[i]).key@ == key;
            if i < fields.len() - 1 {
                assert(fields.drop_last()[i].key@ == key);
            }
        }
    }
}

proof fn lemma_entries_last(fields: Seq<Field>, at: int)
    requires
        0 <= at < fields.len(),
        forall|i: int| at < i < fields.len() ==> (#[trigger] fields[i]).key@ != fields[at].key@,
    ensures
        entries(fields).dom().contains(fields[at].key@),
        entries(fields)[fields[at].key@] == fields[at].value.tree(),
    decreases fields.len(),
{
    if at < fields.len() - 1 {
        let before = fields.drop_last();
        assert(forall|i: int| 0 <= i < before.len() ==> before[i] == fields[i]);
        lemma_entries_last(before, at);
    }
}

proof fn lemma_settled_field(fields: Seq<Field>, at: int)
    requires
        settled_fields(fields),
        0 <= at < fields.len(),
    ensures
        fields[at].value.settled(),
    decreases fields.len(),
{
    if at < fields.len() - 1 {
        lemma_settled_field(fields.drop_last(), at);
    }
}

/// A document without numbers beyond 64 signed bits is written as it is.
pub proof fn law_settled_documents_are_written_as_they_are(json: Json)
    requires
        json.settled(),
    ensures
        json.written() == json.tree(),
    decreases json,
{
    match json {
        Json::Array(items) => {
            assert(decreases_to!(json => json->Array_0));
            lemma_written_items(items@);
        },
        Json::Object(fields) => {
            assert(decreases_to!(json => json->Object_0));
            lemma_written_fields(fields@);
        },
        _ => {},
    }
}

proof fn lemma_written_items(items: Seq<Json>)
    requires
        settled_items(items),
    ensures
        written_items(items) == trees(items),
    decreases items,
{
    if items.len() > 0 {
        lemma_written_items(items.drop_last());
        law_settled_documents_are_written_as_they_are(items.last());
    }
}

proof fn lemma_written_fields(fields: Seq<Field>)
    requires
        settled_fields(fields),
    ensures
        written_fields(fields) == entries(fields),
    decreases fields,
{
    if fields.len() > 0 {
        lemma_written_fields(fields.drop_last());
        law_settled_documents_are_written_as_they_are(fields.last().value);
    }
}

/// The document that a `serde_json::Value` holds.
pub uninterp spec fn value_tree(value: serde_json::Value) -> Tree;

/// What `serde_json` reads from a text: a document, or the message of the error.
pub uninterp spec fn json_parse(text: Seq<char>) -> Result<Tree, Seq<char>>;

/// The compact text that `serde_json` writes for a document.
pub uninterp spec fn json_text(tree: Tree) -> Seq<char>;

/// `serde_json::Value`, carried between the wrappers below.
#[verifier::external_type_specification]
#[verifier::external_body]
pub struct ExValue(serde_json::Value);

/// `serde_json::from_str` into a `Value`: the document that the text spells, or the message of
/// the error.
#[verifier::external_body]
fn decode(text: &str) -> (r: Result<serde_json::Value, String>)
    ensures
        match r {
            Ok(value) => json_parse(text@) == Ok::<Tree, Seq<char>>(value_tree(value)),
            Err(complaint) => json_parse(text@) == Err::<Tree, Seq<char>>(complaint@),
        },
{
    match serde_json::from_str(text) {
        Ok(value) => Ok(value),
        Err(error) => Err(error.to_string()),
    }
}

/// The variants of `serde_json::Value`, one for one. `as_i64` tells the numbers that fit 64
/// signed bits from the others, which are kept by their text.
#[verifier::external_body]
fn read_value(value: serde_json::Value) -> (r: Json)
    ensures
        r.tree() == value_tree(value),
{
    match value {
        serde_json::Value::Null => Json::Null,
        serde_json::Value::Bool(flag) => Json::Bool(flag),
        serde_json::Value::Number(number) => match number.as_i64() {
            Some(integer) => Json::Integer(integer),
            None => Json::Number(number.to_string()),
        },
        serde_json::Value::String(text) => Json::Text(text),
        serde_json::Value::Array(items) => Json::Array(items.into_iter().map(read_value).collect()),
        serde_json::Value::Object(fields) => Json::Object(
            fields.into_iter().map(|(key, value)| Field { key, value: read_value(value) }).collect(),
        ),
    }
}

/// The variants of `serde_json::Value`, one for one. A number beyond 64 signed bits is what
/// `serde_json::from_str` reads from its text, or null where it reads nothing.
#[verifier::external_body]
fn write_value(json: &Json) -> (r: serde_json::Value)
    ensures
        value_tree(r) == json.written(),
{
    match json {
        Json::Null => serde_json::Value::Null,
        Json::Bool(flag) => serde_json::Value::Bool(*flag),
        Json::Integer(integer) => serde_json::Value::from(*integer),
        Json::Number(digits) => serde_json::from_str(digits).unwrap_or_default(),
        Json::Text(text) => serde_json::Value::String(text.clone()),
        Json::Array(items) => serde_json::Value::Array(items.iter().map(write_value).collect()),
        Json::Object(fields) => serde_json::Value::Object(
            fields.iter().map(|field| (field.key.clone(), write_value(&field.value))).collect(),
        ),
    }
}

/// `serde_json::Value`, displayed: the compact text of the document.
#[verifier::external_body]
fn value_text(value: &serde_json::Value) -> (r: String)
    ensures
        r@ == json_text(value_tree(*value)),
{
    value.to_string()
}

/// `serde_json::Value::get` with a key: the member of an object.
#[verifier::external_body]
fn value_member<'a>(value: &'a serde_json::Value, key: &str) -> (r: Option<&'a serde_json::Value>)
    ensures
        value_tree(*value).get(key@) == match r {
            Some(member) => Some(value_tree(*member)),
            None => None,
        },
{
    value.get(key)
}

/// The text of a member of the document that a text spells, or of the whole document where it
/// has no such member.
pub open spec fn member_text(tree: Tree, key: Seq<char>) -> Seq<char> {
    match tree.get(key) {
        Some(member) => json_text(member),
        None => json_text(tree),
    }
}

/// The text of a member of the document that a text spells, or of the whole document where it
/// has no such member.
pub fn member_or_whole(text: &str, key: &str) -> (r: Option<String>)
    ensures
        crate::text::opt_text(r) == match json_parse(text@) {
            Ok(tree) => Some(member_text(tree, key@)),
            Err(_) => None,
        },
{
    match decode(text) {
        Ok(value) => match value_member(&value, key) {
            Some(member) => Some(value_text(member)),
            None => Some(value_text(&value)),
        },
        Err(_) => None,
    }
}

impl Json {
    /// The document that a text spells, or why it spells none.
    pub fn parse(text: &str) -> (r: Result<Json, String>)
        ensures
            match r {
                Ok(json) => json_parse(text@) == Ok::<Tree, Seq<char>>(json.tree()),
                Err(complaint) => json_parse(text@) == Err::<Tree, Seq<char>>(complaint@),
            },
    {
        match decode(text) {
            Ok(value) => Ok(read_value(value)),
            Err(complaint) => Err(complaint),
        }
    }

    /// The compact text of a document.
    pub fn render(&self) -> (r: String)
        ensures
            r@ == json_text(self.written()),
            self.settled() ==> r@ == json_text(self.tree()),
    {
        proof {
            if self.settled() {
                law_settled_documents_are_written_as_they_are(*self);
            }
        }
        value_text(&write_value(self))
    }

    /// The member of an object.
    pub fn get(&self, key: &str) -> (r: Option<&Json>)
        ensures
            opt_tree(r) == self.tree().get(key@),
            self.settled() ==> (r matches Some(value) ==> value.settled()),
    {
        match self {
            Json::Object(fields) => {
                let mut i: usize = fields.len();
                while i > 0
                    invariant
                        i <= fields@.len(),
                        *self == Json::Object(*fields),
                        forall|j: int|
                            i <= j < fields@.len() ==> (#[trigger] fields@[j]).key@ != key@,
                    decreases i,
                {
                    i -= 1;
                    if same(fields[i].key.as_str(), key) {
                        proof {
                            lemma_entries_last(fields@, i as int);
                            if self.settled() {
                                lemma_settled_field(fields@, i as int);
                            }
                        }
                        return Some(&fields[i].value);
                    }
                }
                proof {
                    lemma_entries(fields@, key@);
                }
                None
            },
            _ => None,
        }
    }

    /// The member of a member.
    pub fn at(&self, first: &str, second: &str) -> (r: Option<&Json>)
        ensures
            opt_tree(r) == self.tree().at(first@, second@),
    {
        match self.get(first) {
            Some(inner) => inner.get(second),
            None => None,
        }
    }

    /// The member of a member of a member.
    pub fn at3(&self, first: &str, second: &str, third: &str) -> (r: Option<&Json>)
        ensures
            opt_tree(r) == self.tree().at3(first@, second@, third@),
    {
        match self.at(first, second) {
            Some(inner) => inner.get(third),
            None => None,
        }
    }

    /// A deep copy.
    pub fn copy(&self) -> (r: Json)
        ensures
            r.tree() == self.tree(),
            r.written() == self.written(),
            r.settled() == self.settled(),
        decreases self,
    {
        match self {
            Json::Null => Json::Null,
            Json::Bool(flag) => Json::Bool(*flag),
            Json::Integer(number) => Json::Integer(*number),
            Json::Number(digits) => Json::Number(digits.clone()),
            Json::Text(text) => Json::Text(text.clone()),
            Json::Array(items) => {
                let mut out: Vec<Json> = Vec::new();
                let mut i: usize = 0;
                while i < items.len()
                    invariant
                        i <= items@.len(),
                        out@.len() == i,
                        *self == Json::Array(*items),
                        trees(out@) == trees(items@.take(i as int)),
                        written_items(out@) == written_items(items@.take(i as int)),
                        settled_items(out@) == settled_items(items@.take(i as int)),
                    decreases items@.len() - i,
                {
                    assert(decreases_to!(self => self->Array_0));
                    assert(decreases_to!(self->Array_0 => self->Array_0[i as int]));
                    let ghost before = out@;
                    out.push(items[i].copy());
                    assert(out@.drop_last() == before);
                    assert(items@.take(i + 1).drop_last() == items@.take(i as int));
                    i += 1;
                }
                assert(items@.take(i as int) == items@);
                Json::Array(out)
            },
            Json::Object(fields) => {
                let mut out: Vec<Field> = Vec::new();
                let mut i: usize = 0;
                while i < fields.len()
                    invariant
                        i <= fields@.len(),
                        out@.len() == i,
                        *self == Json::Object(*fields),
                        entries(out@) == entries(fields@.take(i as int)),
                        written_fields(out@) == written_fields(fields@.take(i as int)),
                        settled_fields(out@) == settled_fields(fields@.take(i as int)),
                    decreases fields@.len() - i,
                {
                    assert(decreases_to!(self => self->Object_0));
                    assert(decreases_to!(self->Object_0 => self->Object_0[i as int]));
                    assert(decreases_to!(self->Object_0[i as int] => self->Object_0[i as int].value));
                    let ghost before = out@;
                    out.push(Field { key: fields[i].key.clone(), value: fields[i].value.copy() });
                    assert(out@.drop_last() == before);
                    assert(fields@.take(i + 1).drop_last() == fields@.take(i as int));
                    i += 1;
                }
                assert(fields@.take(i as int) == fields@);
                Json::Object(out)
            },
        }
    }

    /// A text.
    pub fn string(text: &str) -> (r: Json)
        ensures
            r.tree() == Tree::Text(text@),
            r.written() == Tree::Text(text@),
            r.settled(),
    {
        Json::Text(text.to_owned())
    }

    /// A text, or null.
    pub fn optional(text: Option<&str>) -> (r: Json)
        ensures
            r.tree() == text_or_null(crate::text::opt_str(text)),
            r.settled(),
    {
        match text {
            Some(text) => Json::string(text),
            None => Json::Null,
        }
    }

    /// The object without members.
    pub fn object() -> (r: Json)
        ensures
            r is Object,
            r.tree() == Tree::Object(Map::empty()),
            r.written() == Tree::Object(Map::empty()),
            r.settled(),
    {
        let fields: Vec<Field> = Vec::new();
        Json::Object(fields)
    }

    /// An object with one more member.
    pub fn with(self, key: &str, value: Json) -> (r: Json)
        requires
            self is Object,
        ensures
            r is Object,
            r.tree() == Tree::Object(self.tree()->Object_0.insert(key@, value.tree())),
            r.written() == Tree::Object(self.written()->Object_0.insert(key@, value.written())),
            self.settled() && value.settled() ==> r.settled(),
    {
        match self {
            Json::Object(fields) => {
                let mut fields = fields;
                let ghost before = fields@;
                fields.push(Field { key: key.to_owned(), value });
                assert(fields@.drop_last() == before);
                Json::Object(fields)
            },
            other => other,
        }
    }

    /// An array of one item.
    pub fn single(item: Json) -> (r: Json)
        ensures
            r.tree() == Tree::Array(seq![item.tree()]),
            item.settled() ==> r.settled(),
    {
        let mut items: Vec<Json> = Vec::new();
        let ghost before = items@;
        items.push(item);
        assert(items@.drop_last() == before);
        assert(settled_items(before));
        assert(item.settled() ==> settled_items(items@));
        proof {
            reveal_with_fuel(trees, 2);
        }
        assert(trees(items@) =~= seq![item.tree()]);
        Json::Array(items)
    }

    /// An array of texts.
    pub fn strings(values: &Vec<String>) -> (r: Json)
        ensures
            r.tree() == text_array(texts(values@)),
            r.settled(),
    {
        let mut items: Vec<Json> = Vec::new();
        let mut i: usize = 0;
        while i < values.len()
            invariant
                i <= values@.len(),
                items@.len() == i,
                trees(items@).len() == i,
                forall|j: int| 0 <= j < i ==> trees(items@)[j] == Tree::Text(values@[j]@),
                settled_items(items@),
            decreases values@.len() - i,
        {
            let ghost before = items@;
            items.push(Json::string(values[i].as_str()));
            assert(items@.drop_last() == before);
            i += 1;
        }
        assert(trees(items@) =~= texts(values@).map_values(
            |value: Seq<char>| Tree::Text(value),
        ));
        Json::Array(items)
    }
}

/// The text of an optional document that is one.
pub fn as_text(value: Option<&Json>) -> (r: Option<&String>)
    ensures
        text_of(opt_tree(value)) == match r {
            Some(text) => Some(text@),
            None => None,
        },
{
    match value {
        Some(Json::Text(text)) => Some(text),
        _ => None,
    }
}

/// Whether an optional document is the given text.
pub fn is_text(value: Option<&Json>, wanted: &str) -> (r: bool)
    ensures
        r == (text_of(opt_tree(value)) == Some(wanted@)),
{
    match as_text(value) {
        Some(text) => same(text.as_str(), wanted),
        None => false,
    }
}

/// The items of an optional document that is an array.
pub fn as_items(value: Option<&Json>) -> (r: Option<&Vec<Json>>)
    ensures
        items_of(opt_tree(value)) == match r {
            Some(items) => trees(items@),
            None => Seq::empty(),
        },
{
    match value {
        Some(Json::Array(items)) => Some(items),
        _ => None,
    }
}

/// The integer of an optional document that is one.
pub fn as_integer(value: Option<&Json>) -> (r: Option<i64>)
    ensures
        integer_of(opt_tree(value)) == match r {
            Some(number) => Some(number as int),
            None => None,
        },
{
    match value {
        Some(Json::Integer(number)) => Some(*number),
        _ => None,
    }
}

/// A document says what its parts say: texts, flags and integers for themselves, arrays item for
/// item.
pub proof fn law_documents(items: Vec<Json>, text: String, number: i64, flag: bool)
    ensures
        Json::Text(text).tree() == Tree::Text(text@),
        Json::Integer(number).tree() == Tree::Integer(number as int),
        Json::Bool(flag).tree() == Tree::Bool(flag),
        Json::Null.tree() == Tree::Null,
        Json::Array(items).tree() is Array,
        Json::Array(items).tree()->Array_0.len() == items@.len(),
        forall|i: int|
            0 <= i < items@.len() ==> Json::Array(items).tree()->Array_0[i] == (
            #[trigger] items@[i]).tree(),
{
    lemma_trees(items@);
}

/// Of two members of one key the last counts, and a key without a member has no value.
pub proof fn law_last_member_counts(fields: Vec<Field>, at: int, key: Seq<char>)
    ensures
        0 <= at < fields@.len() && fields@[at].key@ == key && (forall|i: int|
            at < i < fields@.len() ==> (#[trigger] fields@[i]).key@ != key) ==> Json::Object(
            fields,
        ).tree().get(key) == Some(fields@[at].value.tree()),
        (forall|i: int| 0 <= i < fields@.len() ==> (#[trigger] fields@[i]).key@ != key)
            ==> Json::Object(fields).tree().get(key) is None,
{
    lemma_entries(fields@, key);
    if 0 <= at < fields@.len() && fields@[at].key@ == key && (forall|i: int|
        at < i < fields@.len() ==> (#[trigger] fields@[i]).key@ != key) {
        lemma_entries_last(fields@, at);
    }
}

/// What is looked for in a document: a text is found only where one stands, items only where an array
/// stands, and a member only in an object.
pub proof fn law_parts(tree: Tree, key: Seq<char>, values: Seq<Seq<char>>, at: int)
    ensures
        tree !is Object ==> tree.get(key) is None,
        text_of(Some(tree)) is Some <==> tree is Text,
        tree is Text ==> text_of(Some(tree)) == Some(tree->Text_0),
        integer_of(Some(tree)) is Some <==> tree is Integer,
        tree is Array ==> items_of(Some(tree)) == tree->Array_0,
        tree !is Array ==> items_of(Some(tree)).len() == 0,
        text_of(None) is None && integer_of(None) is None && items_of(None).len() == 0,
        text_array(values) is Array && text_array(values)->Array_0.len() == values.len(),
        0 <= at < values.len() ==> text_array(values)->Array_0[at] == Tree::Text(values[at]),
{
}

} // verus!
