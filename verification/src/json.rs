//! JSON documents as plain data, read and printed with `serde_json`.
//!
//! [`Json`] holds a document as plain values. Reading goes through
//! [`parse`], printing through [`render`]; everything between the raw text and
//! the tree of values is `serde_json`'s work, everything above it is verified.

use crate::order::{keys_ascend, sort_by_key, sort_by_key_sorts, sorted_by_key};
use crate::text::{decimal, decimal_of, same};
use vstd::prelude::*;

verus! {

/// A JSON number: a whole number where it fits in 64 bits, else as `serde_json`
/// holds it.
#[derive(Debug, PartialEq, Eq)]
pub enum JsonNumber {
    /// A whole number from zero up.
    Unsigned(u64),
    /// A whole number below zero.
    Signed(i64),
    /// Any other number.
    Float(serde_json::Number),
}

/// A JSON document. The entries of an object keep their order.
#[derive(Debug, PartialEq, Eq)]
pub enum Json {
    Null,
    Bool(bool),
    Number(JsonNumber),
    Text(String),
    List(Vec<Json>),
    Object(Vec<(String, Json)>),
}

/// The mathematical content of a [`JsonNumber`]: a whole number from zero up, one
/// below zero, or the notation of any other.
pub enum NumberTree {
    Unsigned(u64),
    Signed(i64),
    Float(Seq<char>),
}

/// The mathematical content of a [`Json`] document.
pub enum Tree {
    Null,
    Bool(bool),
    Number(NumberTree),
    Text(Seq<char>),
    List(Seq<Tree>),
    Object(Seq<(Seq<char>, Tree)>),
}

impl DeepView for JsonNumber {
    type V = NumberTree;

    open spec fn deep_view(&self) -> NumberTree {
        match self {
            JsonNumber::Unsigned(n) => NumberTree::Unsigned(*n),
            JsonNumber::Signed(n) => if *n < 0 {
                NumberTree::Signed(*n)
            } else {
                NumberTree::Unsigned(*n as u64)
            },
            JsonNumber::Float(n) => number_tree(*n),
        }
    }
}

impl Json {
    /// The content of the document.
    pub open spec fn tree(&self) -> Tree
        decreases self,
    {
        match self {
            Json::Null => Tree::Null,
            Json::Bool(b) => Tree::Bool(*b),
            Json::Number(n) => Tree::Number(n.deep_view()),
            Json::Text(t) => Tree::Text(t@),
            Json::List(items) => Tree::List(
                Seq::new(
                    items@.len(),
                    |i: int|
                        if 0 <= i < items@.len() {
                            items@[i].tree()
                        } else {
                            Tree::Null
                        },
                ),
            ),
            Json::Object(entries) => Tree::Object(
                Seq::new(
                    entries@.len(),
                    |i: int|
                        if 0 <= i < entries@.len() {
                            (entries@[i].0@, entries@[i].1.tree())
                        } else {
                            (Seq::empty(), Tree::Null)
                        },
                ),
            ),
        }
    }
}

impl DeepView for Json {
    type V = Tree;

    open spec fn deep_view(&self) -> Tree {
        self.tree()
    }
}

/// `serde_json::Value`: a parsed document, opaque here.
#[verifier::external_type_specification]
#[verifier::external_body]
pub struct ExValue(serde_json::Value);

/// `serde_json::Number`: a number, opaque here.
#[verifier::external_type_specification]
#[verifier::external_body]
pub struct ExNumber(serde_json::Number);

/// `serde_json::Error`: why a text is no document, opaque here.
#[verifier::external_type_specification]
#[verifier::external_body]
pub struct ExError(serde_json::Error);

/// What a `serde_json::Value` holds, as a tree of plain values. Object entries
/// stand in the order in which `serde_json::Map` iterates over them.
pub uninterp spec fn value_tree(value: serde_json::Value) -> Tree;

/// What a `serde_json::Number` holds: the whole number that `Number::as_u64` or
/// `Number::as_i64` gives, else the notation that it prints.
pub uninterp spec fn number_tree(number: serde_json::Number) -> NumberTree;

/// What `serde_json::from_str` reads from a text, or nothing where it refuses it.
pub uninterp spec fn parsed_tree(text: Seq<char>) -> Option<Tree>;

/// What `serde_json::to_string` prints for a document.
pub uninterp spec fn printed_text(tree: Tree) -> Seq<char>;

/// One layer of a `serde_json::Value`, with the values below it left opaque.
pub enum JsonNode {
    Null,
    Bool(bool),
    Number(JsonNumber),
    Text(String),
    List(Vec<serde_json::Value>),
    Object(Vec<(String, serde_json::Value)>),
}

impl JsonNode {
    /// The document that the layer and the values below it make up.
    pub open spec fn tree(&self) -> Tree {
        match self {
            JsonNode::Null => Tree::Null,
            JsonNode::Bool(b) => Tree::Bool(*b),
            JsonNode::Number(n) => Tree::Number(n.deep_view()),
            JsonNode::Text(t) => Tree::Text(t@),
            JsonNode::List(items) => Tree::List(
                items@.map_values(|v: serde_json::Value| value_tree(v)),
            ),
            JsonNode::Object(entries) => Tree::Object(
                entries@.map_values(|e: (String, serde_json::Value)| (e.0@, value_tree(e.1))),
            ),
        }
    }
}

/// Calls `serde_json::from_str` for a `serde_json::Value`. The value it returns
/// holds the document that the text reads as; an error means that there is none.
#[verifier::external_body]
fn parse_value(text: &str) -> (r: Result<serde_json::Value, serde_json::Error>)
    ensures
        match r {
            Ok(value) => parsed_tree(text@) == Some(value_tree(value)),
            Err(_) => parsed_tree(text@) is None,
        },
{
    serde_json::from_str::<serde_json::Value>(text)
}

/// Takes the outermost layer off a `serde_json::Value`, variant by variant. A
/// number comes as the whole number that `Number::as_u64` or `Number::as_i64`
/// gives, else as it is.
#[verifier::external_body]
fn open_value(value: serde_json::Value) -> (r: JsonNode)
    ensures
        r.tree() == value_tree(value),
{
    match value {
        serde_json::Value::Null => JsonNode::Null,
        serde_json::Value::Bool(b) => JsonNode::Bool(b),
        serde_json::Value::Number(n) => JsonNode::Number(match (n.as_u64(), n.as_i64()) {
            (Some(u), _) => JsonNumber::Unsigned(u),
            (None, Some(i)) => JsonNumber::Signed(i),
            (None, None) => JsonNumber::Float(n),
        }),
        serde_json::Value::String(t) => JsonNode::Text(t),
        serde_json::Value::Array(items) => JsonNode::List(items),
        serde_json::Value::Object(map) => JsonNode::Object(map.into_iter().collect()),
    }
}

fn json_of(value: serde_json::Value) -> (r: Json)
    ensures
        r.tree() == value_tree(value),
    decreases value_tree(value),
{
    let ghost whole = value_tree(value);
    match open_value(value) {
        JsonNode::Null => Json::Null,
        JsonNode::Bool(b) => Json::Bool(b),
        JsonNode::Number(n) => Json::Number(n),
        JsonNode::Text(t) => Json::Text(t),
        JsonNode::List(items) => {
            let ghost all = items@;
            let mut out: Vec<Json> = Vec::new();
            assert(whole->List_0.len() == all.len());
            for item in it: items.into_iter()
                invariant
                    it.seq() == all,
                    whole == value_tree(value),
                    whole is List,
                    whole->List_0 == all.map_values(|v: serde_json::Value| value_tree(v)),
                    out@.len() == it.index(),
                    forall|j: int|
                        0 <= j < out@.len() ==> (#[trigger] out@[j]).tree() == value_tree(all[j]),
            {
                assert(whole->List_0[it.index() as int] == value_tree(item));
                out.push(json_of(item));
            }
            let r = Json::List(out);
            assert(r.tree()->List_0 =~= whole->List_0);
            r
        },
        JsonNode::Object(entries) => {
            let ghost all = entries@;
            let mut out: Vec<(String, Json)> = Vec::new();
            for entry in it: entries.into_iter()
                invariant
                    it.seq() == all,
                    whole == value_tree(value),
                    whole is Object,
                    whole->Object_0 == all.map_values(
                        |e: (String, serde_json::Value)| (e.0@, value_tree(e.1)),
                    ),
                    out@.len() == it.index(),
                    forall|j: int|
                        0 <= j < out@.len() ==> {
                            &&& (#[trigger] out@[j]).0@ == all[j].0@
                            &&& out@[j].1.tree() == value_tree(all[j].1)
                        },
            {
                proof {
                    let below = whole->Object_0[it.index() as int];
                    assert(below == (entry.0@, value_tree(entry.1)));
                    assert(decreases_to!(whole => whole->Object_0));
                    assert(decreases_to!(whole->Object_0 => below));
                    assert(decreases_to!(below => below.1));
                }
                let (key, below) = entry;
                out.push((key, json_of(below)));
            }
            let r = Json::Object(out);
            assert(r.tree()->Object_0 =~= whole->Object_0);
            r
        },
    }
}

/// Reads a text as one JSON document, or returns nothing where it is none. Of the
/// values that an object gives for one key, the last counts.
pub fn parse(text: &str) -> (r: Option<Json>)
    ensures
        match r {
            Some(json) => parsed_tree(text@) == Some(json.tree()),
            None => parsed_tree(text@) is None,
        },
{
    match parse_value(text) {
        Ok(value) => Some(json_of(value)),
        Err(_) => None,
    }
}

/// Whether a tree is a document: no object in it repeats a key.
pub open spec fn is_document(tree: Tree) -> bool
    decreases tree,
{
    match tree {
        Tree::List(items) => forall|i: int|
            0 <= i < items.len() ==> is_document(#[trigger] items[i]),
        Tree::Object(entries) => distinct_keys(entries) && forall|i: int|
            0 <= i < entries.len() ==> is_document((#[trigger] entries[i]).1),
        _ => true,
    }
}

/// Whether no key occurs twice.
pub open spec fn distinct_keys(entries: Seq<(Seq<char>, Tree)>) -> bool {
    forall|i: int, j: int|
        0 <= i < j < entries.len() ==> (#[trigger] entries[i]).0 != (#[trigger] entries[j]).0
}

/// Builds a `serde_json::Value` from one layer and the values below it, variant
/// by variant. Whole numbers go through `Number::from`, entries are collected
/// into a `serde_json::Map` in their order.
#[verifier::external_body]
fn make_value(node: JsonNode) -> (r: serde_json::Value)
    requires
        node.tree() matches Tree::Object(entries) ==> distinct_keys(entries),
    ensures
        value_tree(r) == node.tree(),
{
    match node {
        JsonNode::Null => serde_json::Value::Null,
        JsonNode::Bool(b) => serde_json::Value::Bool(b),
        JsonNode::Number(JsonNumber::Unsigned(n)) => serde_json::Value::Number(n.into()),
        JsonNode::Number(JsonNumber::Signed(n)) => serde_json::Value::Number(n.into()),
        JsonNode::Number(JsonNumber::Float(n)) => serde_json::Value::Number(n),
        JsonNode::Text(t) => serde_json::Value::String(t),
        JsonNode::List(items) => serde_json::Value::Array(items),
        JsonNode::Object(entries) => serde_json::Value::Object(entries.into_iter().collect()),
    }
}

/// How deep lists and objects may stand in each other for a document to be read
/// back for certain. `serde_json::from_str` refuses documents that are much deeper.
pub const SAFE_DEPTH: usize = 100;

/// Whether a document reads back as it was printed for certain: it is not deeper
/// than `depth`, and its numbers are whole.
pub open spec fn reads_back(tree: Tree, depth: nat) -> bool
    decreases tree,
{
    match tree {
        Tree::Number(n) => !(n is Float),
        Tree::List(items) => depth > 0 && forall|i: int|
            0 <= i < items.len() ==> reads_back(#[trigger] items[i], (depth - 1) as nat),
        Tree::Object(entries) => depth > 0 && forall|i: int|
            0 <= i < entries.len() ==> reads_back((#[trigger] entries[i]).1, (depth - 1) as nat),
        _ => true,
    }
}

/// Calls `serde_json::to_string` on a document. The compact notation that it
/// prints holds no line break: control characters are escaped inside strings and
/// nothing is printed between the parts. It never fails: the keys are texts, and
/// writing to memory does not fail. `serde_json::from_str` reads it back as the
/// same document, where that is not too deep and its numbers are whole; of other
/// numbers the last digit may differ, so nothing is said of them.
#[verifier::external_body]
fn value_text(value: &serde_json::Value) -> (r: Result<String, serde_json::Error>)
    ensures
        r is Ok,
        r->Ok_0@ == printed_text(value_tree(*value)),
        !r->Ok_0@.contains('\n'),
        reads_back(value_tree(*value), SAFE_DEPTH as nat) ==> parsed_tree(r->Ok_0@) == Some(
            value_tree(*value),
        ),
{
    serde_json::to_string(value)
}

/// Why a document cannot be printed.
#[derive(Debug, Clone, Copy, PartialEq, Eq)]
pub enum RenderError {
    /// An object repeats a key.
    NotADocument,
}

/// Decides [`distinct_keys`].
fn keys_differ(entries: &Vec<(String, Json)>) -> (r: bool)
    ensures
        r == distinct_keys(Json::Object(*entries).tree()->Object_0),
{
    let ghost all = Json::Object(*entries).tree()->Object_0;
    let mut i: usize = 0;
    while i < entries.len()
        invariant
            i <= entries@.len(),
            all == Json::Object(*entries).tree()->Object_0,
            forall|a: int, b: int|
                0 <= a < b < i ==> (#[trigger] all[a]).0 != (#[trigger] all[b]).0,
        decreases entries@.len() - i,
    {
        let mut j: usize = 0;
        while j < i
            invariant
                j <= i < entries@.len(),
                all == Json::Object(*entries).tree()->Object_0,
                forall|a: int| 0 <= a < j ==> (#[trigger] all[a]).0 != all[i as int].0,
            decreases i - j,
        {
            if entries[j].0 == entries[i].0 {
                assert(all[j as int].0 == all[i as int].0);
                return false;
            }
            j = j + 1;
        }
        i = i + 1;
    }
    true
}

fn value_of(json: Json) -> (r: Option<serde_json::Value>)
    ensures
        match r {
            Some(value) => is_document(json.tree()) && value_tree(value) == json.tree(),
            None => !is_document(json.tree()),
        },
    decreases json.tree(),
{
    let ghost whole = json.tree();
    match json {
        Json::Null => Some(make_value(JsonNode::Null)),
        Json::Bool(b) => Some(make_value(JsonNode::Bool(b))),
        Json::Text(t) => Some(make_value(JsonNode::Text(t))),
        Json::Number(n) => Some(make_value(JsonNode::Number(n))),
        Json::List(items) => {
            let ghost all = items@;
            let mut out: Vec<serde_json::Value> = Vec::new();
            for item in it: items.into_iter()
                invariant
                    it.seq() == all,
                    whole == json.tree(),
                    whole is List,
                    whole->List_0.len() == all.len(),
                    forall|j: int|
                        0 <= j < all.len() ==> #[trigger] whole->List_0[j] == all[j].tree(),
                    out@.len() == it.index(),
                    forall|j: int|
                        0 <= j < out@.len() ==> value_tree(#[trigger] out@[j]) == whole->List_0[j]
                            && is_document(whole->List_0[j]),
            {
                assert(whole->List_0[it.index() as int] == item.tree());
                match value_of(item) {
                    Some(value) => {
                        out.push(value);
                    },
                    None => {
                        return None;
                    },
                }
            }
            proof {
                assert forall|i: int| 0 <= i < whole->List_0.len() implies is_document(
                    #[trigger] whole->List_0[i],
                ) by {
                    assert(value_tree(out@[i]) == whole->List_0[i]);
                }
                assert(JsonNode::List(out).tree()->List_0 =~= whole->List_0);
            }
            Some(make_value(JsonNode::List(out)))
        },
        Json::Object(entries) => {
            if !keys_differ(&entries) {
                return None;
            }
            let ghost all = entries@;
            let mut out: Vec<(String, serde_json::Value)> = Vec::new();
            for entry in it: entries.into_iter()
                invariant
                    it.seq() == all,
                    whole == json.tree(),
                    whole is Object,
                    distinct_keys(whole->Object_0),
                    whole->Object_0.len() == all.len(),
                    forall|j: int|
                        0 <= j < all.len() ==> #[trigger] whole->Object_0[j] == (
                            all[j].0@,
                            all[j].1.tree(),
                        ),
                    out@.len() == it.index(),
                    forall|j: int|
                        0 <= j < out@.len() ==> {
                            &&& (#[trigger] out@[j]).0@ == whole->Object_0[j].0
                            &&& value_tree(out@[j].1) == whole->Object_0[j].1
                            &&& is_document(whole->Object_0[j].1)
                        },
            {
                proof {
                    let below = whole->Object_0[it.index() as int];
                    assert(below == (entry.0@, entry.1.tree()));
                    assert(decreases_to!(whole => whole->Object_0));
                    assert(decreases_to!(whole->Object_0 => below));
                    assert(decreases_to!(below => below.1));
                }
                let (key, below) = entry;
                match value_of(below) {
                    Some(value) => {
                        out.push((key, value));
                    },
                    None => {
                        return None;
                    },
                }
            }
            proof {
                assert forall|i: int| 0 <= i < whole->Object_0.len() implies is_document(
                    (#[trigger] whole->Object_0[i]).1,
                ) by {
                    assert(out@[i].0@ == whole->Object_0[i].0);
                }
                assert(JsonNode::Object(out).tree()->Object_0 =~= whole->Object_0);
            }
            Some(make_value(JsonNode::Object(out)))
        },
    }
}

/// Prints a document in `serde_json`'s compact notation, on one line.
pub fn render(json: Json) -> (r: Result<String, RenderError>)
    ensures
        match r {
            Ok(text) => {
                &&& is_document(json.tree())
                &&& text@ == printed_text(json.tree())
                &&& !text@.contains('\n')
                &&& reads_back(json.tree(), SAFE_DEPTH as nat) ==> parsed_tree(text@) == Some(
                    json.tree(),
                )
            },
            Err(RenderError::NotADocument) => !is_document(json.tree()),
        },
{
    match value_of(json) {
        Some(value) => match value_text(&value) {
            Ok(text) => Ok(text),
            Err(_) => Err(RenderError::NotADocument),
        },
        None => Err(RenderError::NotADocument),
    }
}

/// The value of the first entry with the key.
pub open spec fn entry_of(entries: Seq<(Seq<char>, Tree)>, key: Seq<char>) -> Option<Tree>
    decreases entries.len(),
{
    if entries.len() == 0 {
        None
    } else if entries[0].0 == key {
        Some(entries[0].1)
    } else {
        entry_of(entries.drop_first(), key)
    }
}

/// The value under a key; nothing where there is none or the document is no object.
pub open spec fn get(tree: Tree, key: Seq<char>) -> Option<Tree> {
    match tree {
        Tree::Object(entries) => entry_of(entries, key),
        _ => None,
    }
}

/// The text of a document that is one.
pub open spec fn text_of(tree: Option<Tree>) -> Option<Seq<char>> {
    match tree {
        Some(Tree::Text(t)) => Some(t),
        _ => None,
    }
}

/// The text of a document that is one and is not empty.
pub open spec fn words_of(tree: Option<Tree>) -> Option<Seq<char>> {
    match tree {
        Some(Tree::Text(t)) => if t.len() > 0 {
            Some(t)
        } else {
            None
        },
        _ => None,
    }
}

/// The notation of a number.
pub open spec fn number_text(n: NumberTree) -> Seq<char> {
    match n {
        NumberTree::Unsigned(u) => decimal(u as nat),
        NumberTree::Signed(i) => if i < 0 {
            seq!['-'] + decimal((-i) as nat)
        } else {
            decimal(i as nat)
        },
        NumberTree::Float(t) => t,
    }
}

/// A number that is a whole number from zero up.
pub open spec fn count_of(n: NumberTree) -> Option<u64> {
    match n {
        NumberTree::Unsigned(u) => Some(u),
        _ => None,
    }
}

/// The text that stands for a text, a number or a truth value; nothing for the rest.
pub open spec fn scalar_text(tree: Tree) -> Option<Seq<char>> {
    match tree {
        Tree::Text(t) => Some(t),
        Tree::Number(n) => Some(number_text(n)),
        Tree::Bool(b) => Some(if b {
            "true"@
        } else {
            "false"@
        }),
        _ => None,
    }
}

/// Calls `Number::to_string`, which prints a whole number in decimal notation.
#[verifier::external_body]
fn number_notation(number: &serde_json::Number) -> (r: String)
    ensures
        r@ == number_text(number_tree(*number)),
{
    number.to_string()
}

/// Calls `Number::as_u64`, which gives a whole number from zero up.
#[verifier::external_body]
fn number_count(number: &serde_json::Number) -> (r: Option<u64>)
    ensures
        r == count_of(number_tree(*number)),
{
    number.as_u64()
}

/// Calls `Number::clone`.
#[verifier::external_body]
fn copy_number(number: &serde_json::Number) -> (r: serde_json::Number)
    ensures
        number_tree(r) == number_tree(*number),
{
    number.clone()
}

impl JsonNumber {
    /// [`number_text`]: the notation of the number.
    pub fn text(&self) -> (r: String)
        ensures
            r@ == number_text(self.deep_view()),
    {
        match self {
            JsonNumber::Unsigned(n) => decimal_of(*n),
            JsonNumber::Signed(n) => {
                let n: i64 = *n;
                if n < 0 {
                    let mut out = String::new();
                    out.push('-');
                    let size: u64 = if n == i64::MIN {
                        9223372036854775808u64
                    } else {
                        (-n) as u64
                    };
                    out.append(decimal_of(size).as_str());
                    assert(out@ =~= seq!['-'] + decimal((-n) as nat));
                    out
                } else {
                    decimal_of(n as u64)
                }
            },
            JsonNumber::Float(n) => number_notation(n),
        }
    }

    /// [`count_of`]: the number, where it is a whole number from zero up.
    pub fn count(&self) -> (r: Option<u64>)
        ensures
            r == count_of(self.deep_view()),
    {
        match self {
            JsonNumber::Unsigned(n) => Some(*n),
            JsonNumber::Signed(n) => if *n < 0 {
                None
            } else {
                Some(*n as u64)
            },
            JsonNumber::Float(n) => number_count(n),
        }
    }

    /// The same number once more.
    pub fn copy(&self) -> (r: JsonNumber)
        ensures
            r.deep_view() == self.deep_view(),
    {
        match self {
            JsonNumber::Unsigned(n) => JsonNumber::Unsigned(*n),
            JsonNumber::Signed(n) => JsonNumber::Signed(*n),
            JsonNumber::Float(n) => JsonNumber::Float(copy_number(n)),
        }
    }
}

impl Json {
    /// [`get`]: the value under a key.
    pub fn get(&self, key: &str) -> (r: Option<&Json>)
        ensures
            match r {
                Some(below) => get(self.tree(), key@) == Some(below.tree()),
                None => get(self.tree(), key@) is None,
            },
    {
        match self {
            Json::Object(entries) => {
                let ghost all = self.tree()->Object_0;
                assert(all.skip(0) =~= all);
                let mut i: usize = 0;
                while i < entries.len()
                    invariant
                        i <= entries@.len(),
                        *self == Json::Object(*entries),
                        all == self.tree()->Object_0,
                        entry_of(all, key@) == entry_of(all.skip(i as int), key@),
                    decreases entries@.len() - i,
                {
                    assert(all[i as int] == (entries@[i as int].0@, entries@[i as int].1.tree()));
                    if same(entries[i].0.as_str(), key) {
                        return Some(&entries[i].1);
                    }
                    assert(all.skip(i as int).drop_first() =~= all.skip(i as int + 1));
                    i = i + 1;
                }
                None
            },
            _ => None,
        }
    }

    /// The text, where the document is one.
    pub fn as_text(&self) -> (r: Option<&str>)
        ensures
            match r {
                Some(t) => self.tree() == Tree::Text(t@),
                None => !(self.tree() is Text),
            },
    {
        match self {
            Json::Text(t) => Some(t.as_str()),
            _ => None,
        }
    }

    /// [`text_of`] the value under a key.
    pub fn text_at(&self, key: &str) -> (r: Option<String>)
        ensures
            r.deep_view() == text_of(get(self.tree(), key@)),
    {
        match self.get(key) {
            Some(below) => match below {
                Json::Text(t) => Some(t.clone()),
                _ => None,
            },
            None => None,
        }
    }

    /// [`words_of`] the value under a key.
    pub fn words_at(&self, key: &str) -> (r: Option<String>)
        ensures
            r.deep_view() == words_of(get(self.tree(), key@)),
    {
        match self.text_at(key) {
            Some(t) => if t.as_str().is_empty() {
                None
            } else {
                Some(t)
            },
            None => None,
        }
    }

    /// [`scalar_text`]: the text that stands for a text, a number or a truth value.
    pub fn scalar_to_string(&self) -> (r: Option<String>)
        ensures
            r.deep_view() == scalar_text(self.tree()),
    {
        match self {
            Json::Text(t) => Some(t.clone()),
            Json::Number(n) => Some(n.text()),
            Json::Bool(b) => Some(
                if *b {
                    "true".to_owned()
                } else {
                    "false".to_owned()
                },
            ),
            _ => None,
        }
    }

    /// The same document once more.
    pub fn copy(&self) -> (r: Json)
        ensures
            r.tree() == self.tree(),
        decreases self.tree(),
    {
        match self {
            Json::Null => Json::Null,
            Json::Bool(b) => Json::Bool(*b),
            Json::Number(n) => Json::Number(n.copy()),
            Json::Text(t) => Json::Text(t.clone()),
            Json::List(items) => {
                let mut out: Vec<Json> = Vec::new();
                let mut i: usize = 0;
                while i < items.len()
                    invariant
                        i <= items@.len(),
                        *self == Json::List(*items),
                        out@.len() == i,
                        forall|j: int|
                            0 <= j < i ==> (#[trigger] out@[j]).tree() == items@[j].tree(),
                    decreases items@.len() - i,
                {
                    assert(self.tree()->List_0[i as int] == items@[i as int].tree());
                    out.push(items[i].copy());
                    i = i + 1;
                }
                let r = Json::List(out);
                assert(r.tree()->List_0 =~= self.tree()->List_0);
                r
            },
            Json::Object(entries) => {
                let mut out: Vec<(String, Json)> = Vec::new();
                let mut i: usize = 0;
                while i < entries.len()
                    invariant
                        i <= entries@.len(),
                        *self == Json::Object(*entries),
                        out@.len() == i,
                        forall|j: int|
                            0 <= j < i ==> {
                                &&& (#[trigger] out@[j]).0@ == entries@[j].0@
                                &&& out@[j].1.tree() == entries@[j].1.tree()
                            },
                    decreases entries@.len() - i,
                {
                    proof {
                        let all = self.tree()->Object_0;
                        assert(all[i as int] == (
                            entries@[i as int].0@,
                            entries@[i as int].1.tree(),
                        ));
                        assert(decreases_to!(self.tree() => all));
                        assert(decreases_to!(all => all[i as int]));
                        assert(decreases_to!(all[i as int] => all[i as int].1));
                    }
                    out.push((entries[i].0.clone(), entries[i].1.copy()));
                    i = i + 1;
                }
                let r = Json::Object(out);
                assert(r.tree()->Object_0 =~= self.tree()->Object_0);
                r
            },
        }
    }
}

/// A document with the entries of every object in the order of their keys.
pub open spec fn ordered(tree: Tree) -> Tree
    decreases tree,
{
    match tree {
        Tree::List(items) => Tree::List(
            Seq::new(
                items.len(),
                |i: int|
                    if 0 <= i < items.len() {
                        ordered(items[i])
                    } else {
                        Tree::Null
                    },
            ),
        ),
        Tree::Object(entries) => Tree::Object(sort_by_key(ordered_values(entries))),
        _ => tree,
    }
}

/// The entries of an object with their values [`ordered`].
pub open spec fn ordered_values(entries: Seq<(Seq<char>, Tree)>) -> Seq<(Seq<char>, Tree)>
    decreases entries,
{
    Seq::new(
        entries.len(),
        |i: int|
            if 0 <= i < entries.len() {
                proof {
                    assert(decreases_to!(entries => entries[i]));
                    assert(decreases_to!(entries[i] => entries[i].1));
                }
                (entries[i].0, ordered(entries[i].1))
            } else {
                (Seq::empty(), Tree::Null)
            },
    )
}

/// An object holds its entries.
pub proof fn object_tree(entries: Vec<(String, Json)>)
    ensures
        Json::Object(entries).tree() == Tree::Object(entries.deep_view()),
{
    assert(Json::Object(entries).tree()->Object_0 =~= entries.deep_view());
}

/// Appends an entry.
pub fn add_entry(entries: &mut Vec<(String, Json)>, key: &str, value: Json)
    ensures
        final(entries).deep_view() == old(entries).deep_view().push((key@, value.tree())),
{
    let ghost before = entries.deep_view();
    let ghost content = value.tree();
    entries.push((key.to_owned(), value));
    assert(entries.deep_view() =~= before.push((key@, content)));
}

impl Json {
    /// [`ordered`]: a copy with the entries of every object in the order of their keys.
    pub fn ordered_copy(&self) -> (r: Json)
        ensures
            r.tree() == ordered(self.tree()),
        decreases self.tree(),
    {
        match self {
            Json::List(items) => {
                let mut out: Vec<Json> = Vec::new();
                let mut i: usize = 0;
                while i < items.len()
                    invariant
                        i <= items@.len(),
                        *self == Json::List(*items),
                        out@.len() == i,
                        forall|j: int|
                            0 <= j < i ==> (#[trigger] out@[j]).tree() == ordered(items@[j].tree()),
                    decreases items@.len() - i,
                {
                    assert(self.tree()->List_0[i as int] == items@[i as int].tree());
                    out.push(items[i].ordered_copy());
                    i = i + 1;
                }
                let r = Json::List(out);
                assert(r.tree()->List_0 =~= ordered(self.tree())->List_0);
                r
            },
            Json::Object(entries) => {
                let ghost all = self.tree()->Object_0;
                let mut out: Vec<(String, Json)> = Vec::new();
                let mut i: usize = 0;
                while i < entries.len()
                    invariant
                        i <= entries@.len(),
                        *self == Json::Object(*entries),
                        all == self.tree()->Object_0,
                        out@.len() == i,
                        forall|j: int|
                            0 <= j < i ==> {
                                &&& (#[trigger] out@[j]).0@ == all[j].0
                                &&& out@[j].1.tree() == ordered(all[j].1)
                            },
                    decreases entries@.len() - i,
                {
                    proof {
                        assert(all[i as int] == (
                            entries@[i as int].0@,
                            entries@[i as int].1.tree(),
                        ));
                        assert(decreases_to!(self.tree() => all));
                        assert(decreases_to!(all => all[i as int]));
                        assert(decreases_to!(all[i as int] => all[i as int].1));
                    }
                    out.push((entries[i].0.clone(), entries[i].1.ordered_copy()));
                    i = i + 1;
                }
                proof {
                    assert(out.deep_view() =~= ordered_values(all));
                }
                let sorted = sorted_by_key(out);
                proof {
                    object_tree(sorted);
                }
                Json::Object(sorted)
            },
            _ => self.copy(),
        }
    }
}

/// The value under a key is that of the first entry with the key; without such an entry there is
/// none.
pub proof fn the_first_entry_counts(entries: Seq<(Seq<char>, Tree)>, key: Seq<char>, at: int)
    requires
        0 <= at <= entries.len(),
        forall|i: int| 0 <= i < at ==> (#[trigger] entries[i]).0 != key,
        at < entries.len() ==> entries[at].0 == key,
    ensures
        get(Tree::Object(entries), key) == if at < entries.len() {
            Some(entries[at].1)
        } else {
            None
        },
    decreases at,
{
    if at > 0 {
        assert(entries[0].0 != key);
        let rest = entries.drop_first();
        assert forall|i: int| 0 <= i < at - 1 implies (#[trigger] rest[i]).0 != key by {
            assert(rest[i] == entries[i + 1]);
        }
        the_first_entry_counts(rest, key, at - 1);
    }
}

/// To order a document changes nothing but the order of the entries of its objects: these come
/// in the order of their keys, and each has an entry of the object behind it whose value is
/// ordered in turn. Lists keep their order, and everything else stays as it is.
pub proof fn ordering_keeps_what_a_document_says(tree: Tree)
    ensures
        match tree {
            Tree::List(items) => ordered(tree) matches Tree::List(after) && after.len()
                == items.len() && forall|i: int|
                0 <= i < items.len() ==> #[trigger] after[i] == ordered(items[i]),
            Tree::Object(entries) => ordered(tree) matches Tree::Object(after) && {
                &&& after.len() == entries.len()
                &&& keys_ascend(after)
                &&& forall|i: int|
                    0 <= i < after.len() ==> is_ordered_entry(entries, #[trigger] after[i])
            },
            _ => ordered(tree) == tree,
        },
{
    if let Tree::Object(entries) = tree {
        let values = ordered_values(entries);
        let after = sort_by_key(values);
        sort_by_key_sorts(values);
        broadcast use vstd::seq_lib::group_to_multiset_ensures;

        assert forall|i: int| 0 <= i < after.len() implies is_ordered_entry(
            entries,
            #[trigger] after[i],
        ) by {
            assert(after.contains(after[i]));
            assert(after.to_multiset().count(after[i]) > 0);
            assert(values.contains(after[i]));
            let k = choose|k: int| 0 <= k < values.len() && values[k] == after[i];
            assert(entries[k].0 == after[i].0);
        }
    }
}

/// Whether an entry is one of an object's, with its value ordered.
pub open spec fn is_ordered_entry(
    entries: Seq<(Seq<char>, Tree)>,
    entry: (Seq<char>, Tree),
) -> bool {
    exists|k: int|
        0 <= k < entries.len() && (#[trigger] entries[k]).0 == entry.0 && entry.1 == ordered(
            entries[k].1,
        )
}

/// A number below zero is written as its size behind a minus sign, any other whole number by its
/// digits.
pub proof fn whole_numbers_are_written_in_digits(size: u64, below: i64)
    requires
        below < 0,
    ensures
        number_text(NumberTree::Unsigned(size)) == decimal(size as nat),
        number_text(NumberTree::Signed(below)) == seq!['-'] + decimal((-below) as nat),
        count_of(NumberTree::Unsigned(size)) == Some(size),
        count_of(NumberTree::Signed(below)) is None,
{
}

/// A text stands for itself, a truth value is told by its word and a whole number by its digits;
/// null, lists and objects have no text. A text says something where it is not empty.
pub proof fn simple_values_have_a_text(text: Seq<char>, n: u64, tree: Tree)
    ensures
        scalar_text(Tree::Text(text)) == Some(text),
        scalar_text(Tree::Bool(true)) == Some("true"@),
        scalar_text(Tree::Bool(false)) == Some("false"@),
        scalar_text(Tree::Number(NumberTree::Unsigned(n))) == Some(decimal(n as nat)),
        tree is Null || tree is List || tree is Object ==> scalar_text(tree) is None,
        text_of(Some(Tree::Text(text))) == Some(text),
        !(tree is Text) ==> text_of(Some(tree)) is None && words_of(Some(tree)) is None,
        text.len() > 0 ==> words_of(Some(Tree::Text(text))) == Some(text),
        text.len() == 0 ==> words_of(Some(Tree::Text(text))) is None,
        text_of(None) is None,
        words_of(None) is None,
{
}

} // verus!
