//! The documents on the lines of a run's files.
//!
//! A record may give a field once only, while a value that is taken as it is keeps
//! the last of the values that an object gives for one key. So the layers of a line
//! that are records are taken apart with every key as often as it is given, and what
//! stands below them is read as a value. Of a subagent line, what nothing consumes
//! is passed over without being looked at.

use crate::json::{parse, parsed_tree, Json, Tree};
use crate::raw_json::{begins, list_parts, object_parts, past_gap, split_list, split_object, starts};
use crate::text::{same, trim, trimmed};
use vstd::prelude::*;

verus! {

/// A layer of a line that is a record.
#[derive(Debug, Clone, Copy, PartialEq, Eq)]
pub enum Layer {
    /// An engine event.
    Event,
    /// The action of an event.
    Action,
    /// A record with nothing but values below it.
    Record,
    /// A subagent event.
    Stream,
}

/// How a part of a layer is read.
#[derive(Debug, Clone, Copy, PartialEq, Eq)]
pub enum Part {
    /// As a value.
    Value,
    /// As a layer.
    Layer(Layer),
    /// Not at all: null stands for it.
    Skipped,
}

/// How many layers a layer may have below it, itself included.
pub open spec fn height(layer: Layer) -> nat {
    match layer {
        Layer::Event => 3,
        Layer::Action => 2,
        Layer::Record => 1,
        Layer::Stream => 1,
    }
}

/// Whether a key names a field of a subagent event.
pub open spec fn is_stream_key(key: Seq<char>) -> bool {
    ||| key == "action_id"@
    ||| key == "agent_name"@
    ||| key == "tool_call_id"@
    ||| key == "kind"@
    ||| key == "name"@
    ||| key == "detail"@
    ||| key == "status"@
}

/// The number of fields of a subagent event.
pub const STREAM_FIELDS: usize = 7;

/// How the value under a key is read.
pub open spec fn part_under(layer: Layer, key: Seq<char>) -> Part {
    match layer {
        Layer::Event => if key == "action"@ {
            Part::Layer(Layer::Action)
        } else if key == "params"@ {
            Part::Layer(Layer::Record)
        } else {
            Part::Value
        },
        Layer::Action => if key == "task"@ {
            Part::Layer(Layer::Record)
        } else {
            Part::Value
        },
        Layer::Record => Part::Value,
        Layer::Stream => if is_stream_key(key) {
            Part::Value
        } else {
            Part::Skipped
        },
    }
}

/// How the item at a position of a list is read, where `tag` is what stands first
/// in the list.
pub open spec fn part_at(layer: Layer, tag: Option<Tree>, at: int) -> Part {
    match layer {
        Layer::Event => if at != 2 {
            Part::Value
        } else if tag == Some(Tree::Text("run_started"@)) {
            Part::Layer(Layer::Record)
        } else if tag == Some(Tree::Text("action_started"@)) || tag == Some(
            Tree::Text("action_completed"@),
        ) {
            Part::Layer(Layer::Action)
        } else {
            Part::Value
        },
        Layer::Action => if at == 3 {
            Part::Layer(Layer::Record)
        } else {
            Part::Value
        },
        Layer::Record => Part::Value,
        Layer::Stream => if at < STREAM_FIELDS {
            Part::Value
        } else {
            Part::Skipped
        },
    }
}

/// What stands first in a list of texts.
pub open spec fn tag_among(parts: Seq<Seq<char>>) -> Option<Tree> {
    if parts.len() > 0 {
        parsed_tree(parts[0])
    } else {
        None
    }
}

/// A text read as a layer: an object with every key as often as it is given, a list,
/// or any other value.
pub open spec fn layered(text: Seq<char>, layer: Layer) -> Option<Tree>
    decreases height(layer), 1nat, 0nat,
{
    if begins(past_gap(text), '{') {
        match object_parts(text) {
            Some(parts) => match layered_entries(parts, layer) {
                Some(entries) => Some(Tree::Object(entries)),
                None => None,
            },
            None => None,
        }
    } else if begins(past_gap(text), '[') {
        match list_parts(text) {
            Some(parts) => match layered_items(parts, layer, tag_among(parts)) {
                Some(items) => Some(Tree::List(items)),
                None => None,
            },
            None => None,
        }
    } else {
        parsed_tree(text)
    }
}

/// The members of an object that is a layer.
pub open spec fn layered_entries(parts: Seq<(Seq<char>, Seq<char>)>, layer: Layer) -> Option<
    Seq<(Seq<char>, Tree)>,
>
    decreases height(layer), 0nat, parts.len(),
{
    if parts.len() == 0 {
        Some(Seq::empty())
    } else {
        let below = match part_under(layer, parts.last().0) {
            Part::Value => parsed_tree(parts.last().1),
            Part::Layer(inner) => layered(parts.last().1, inner),
            Part::Skipped => Some(Tree::Null),
        };
        match (layered_entries(parts.drop_last(), layer), below) {
            (Some(entries), Some(tree)) => Some(entries.push((parts.last().0, tree))),
            _ => None,
        }
    }
}

/// The items of a list that is a layer.
pub open spec fn layered_items(
    parts: Seq<Seq<char>>,
    layer: Layer,
    tag: Option<Tree>,
) -> Option<Seq<Tree>>
    decreases height(layer), 0nat, parts.len(),
{
    if parts.len() == 0 {
        Some(Seq::empty())
    } else {
        let below = match part_at(layer, tag, parts.len() - 1) {
            Part::Value => parsed_tree(parts.last()),
            Part::Layer(inner) => layered(parts.last(), inner),
            Part::Skipped => Some(Tree::Null),
        };
        match (layered_items(parts.drop_last(), layer, tag), below) {
            (Some(items), Some(tree)) => Some(items.push(tree)),
            _ => None,
        }
    }
}

/// The document on a line of an event file, if there is one: all of the line is
/// evaluated.
pub open spec fn event_document(line: Seq<char>) -> Option<Tree> {
    if trim(line).len() == 0 || parsed_tree(trim(line)) is None {
        None
    } else {
        layered(trim(line), Layer::Event)
    }
}

/// The document on a line of a subagent stream, if there is one.
pub open spec fn stream_document(line: Seq<char>) -> Option<Tree> {
    if trim(line).len() == 0 {
        None
    } else {
        layered(trim(line), Layer::Stream)
    }
}

fn choose_under(layer: Layer, key: &str) -> (r: Part)
    ensures
        r == part_under(layer, key@),
{
    match layer {
        Layer::Event => if same(key, "action") {
            Part::Layer(Layer::Action)
        } else if same(key, "params") {
            Part::Layer(Layer::Record)
        } else {
            Part::Value
        },
        Layer::Action => if same(key, "task") {
            Part::Layer(Layer::Record)
        } else {
            Part::Value
        },
        Layer::Record => Part::Value,
        Layer::Stream => if same(key, "action_id") || same(key, "agent_name") || same(
            key,
            "tool_call_id",
        ) || same(key, "kind") || same(key, "name") || same(key, "detail") || same(key, "status") {
            Part::Value
        } else {
            Part::Skipped
        },
    }
}

fn choose_at(layer: Layer, tag: &Option<Json>, at: usize) -> (r: Part)
    ensures
        r == part_at(layer, tag.deep_view(), at as int),
{
    match layer {
        Layer::Event => if at != 2 {
            Part::Value
        } else {
            match tag {
                Some(Json::Text(t)) => if same(t.as_str(), "run_started") {
                    Part::Layer(Layer::Record)
                } else if same(t.as_str(), "action_started") || same(
                    t.as_str(),
                    "action_completed",
                ) {
                    Part::Layer(Layer::Action)
                } else {
                    Part::Value
                },
                _ => Part::Value,
            }
        },
        Layer::Action => if at == 3 {
            Part::Layer(Layer::Record)
        } else {
            Part::Value
        },
        Layer::Record => Part::Value,
        Layer::Stream => if at < STREAM_FIELDS {
            Part::Value
        } else {
            Part::Skipped
        },
    }
}

/// [`layered`]: a text read as a layer.
pub fn read_layer(text: &str, layer: Layer) -> (r: Option<Json>)
    ensures
        r.deep_view() == layered(text@, layer),
    decreases height(layer), 1nat,
{
    if starts(text, '{') {
        match split_object(text) {
            Some(parts) => match read_entries(&parts, layer) {
                Some(entries) => Some(Json::Object(entries)),
                None => None,
            },
            None => None,
        }
    } else if starts(text, '[') {
        match split_list(text) {
            Some(parts) => match read_items(&parts, layer) {
                Some(items) => Some(Json::List(items)),
                None => None,
            },
            None => None,
        }
    } else {
        parse(text)
    }
}

proof fn entries_of_prefix(parts: Seq<(Seq<char>, Seq<char>)>, layer: Layer, n: int)
    requires
        0 <= n <= parts.len(),
        layered_entries(parts, layer) is Some,
    ensures
        layered_entries(parts.take(n), layer) is Some,
    decreases parts.len(),
{
    if n == parts.len() {
        assert(parts.take(n) =~= parts);
    } else {
        entries_of_prefix(parts.drop_last(), layer, n);
        assert(parts.drop_last().take(n) =~= parts.take(n));
    }
}

proof fn items_of_prefix(parts: Seq<Seq<char>>, layer: Layer, tag: Option<Tree>, n: int)
    requires
        0 <= n <= parts.len(),
        layered_items(parts, layer, tag) is Some,
    ensures
        layered_items(parts.take(n), layer, tag) is Some,
    decreases parts.len(),
{
    if n == parts.len() {
        assert(parts.take(n) =~= parts);
    } else {
        items_of_prefix(parts.drop_last(), layer, tag, n);
        assert(parts.drop_last().take(n) =~= parts.take(n));
    }
}

fn read_entries(parts: &Vec<(String, String)>, layer: Layer) -> (r: Option<Vec<(String, Json)>>)
    ensures
        match r {
            Some(entries) => layered_entries(parts.deep_view(), layer) == Some(
                Json::Object(entries).tree()->Object_0,
            ),
            None => layered_entries(parts.deep_view(), layer) is None,
        },
    decreases height(layer), 0nat,
{
    let ghost all = parts.deep_view();
    let mut out: Vec<(String, Json)> = Vec::new();
    let mut i: usize = 0;
    proof {
        assert(all.take(0) =~= Seq::empty());
        assert(Json::Object(out).tree()->Object_0 =~= Seq::empty());
    }
    while i < parts.len()
        invariant
            i <= parts@.len(),
            all == parts.deep_view(),
            layered_entries(all.take(i as int), layer) == Some(Json::Object(out).tree()->Object_0),
        decreases parts@.len() - i,
    {
        let ghost before = Json::Object(out).tree()->Object_0;
        proof {
            assert(all.take(i as int + 1).drop_last() =~= all.take(i as int));
            assert(all[i as int] == (parts@[i as int].0@, parts@[i as int].1@));
        }
        let below = match choose_under(layer, parts[i].0.as_str()) {
            Part::Value => parse(parts[i].1.as_str()),
            Part::Layer(inner) => read_layer(parts[i].1.as_str(), inner),
            Part::Skipped => Some(Json::Null),
        };
        match below {
            Some(json) => {
                let ghost tree = json.tree();
                out.push((parts[i].0.clone(), json));
                assert(Json::Object(out).tree()->Object_0 =~= before.push((all[i as int].0, tree)));
            },
            None => {
                proof {
                    if layered_entries(all, layer) is Some {
                        entries_of_prefix(all, layer, i as int + 1);
                    }
                }
                return None;
            },
        }
        i = i + 1;
    }
    assert(all.take(i as int) =~= all);
    Some(out)
}

fn read_items(parts: &Vec<String>, layer: Layer) -> (r: Option<Vec<Json>>)
    ensures
        match r {
            Some(items) => layered_items(
                parts.deep_view(),
                layer,
                tag_among(parts.deep_view()),
            ) == Some(Json::List(items).tree()->List_0),
            None => layered_items(parts.deep_view(), layer, tag_among(parts.deep_view())) is None,
        },
    decreases height(layer), 0nat,
{
    let ghost all = parts.deep_view();
    let tag = if parts.len() > 0 {
        assert(all[0] == parts@[0]@);
        parse(parts[0].as_str())
    } else {
        None
    };
    let ghost first = tag_among(all);
    let mut out: Vec<Json> = Vec::new();
    let mut i: usize = 0;
    proof {
        assert(tag.deep_view() == first);
        assert(all.take(0) =~= Seq::empty());
        assert(Json::List(out).tree()->List_0 =~= Seq::empty());
    }
    while i < parts.len()
        invariant
            i <= parts@.len(),
            all == parts.deep_view(),
            first == tag_among(all),
            tag.deep_view() == first,
            layered_items(all.take(i as int), layer, first) == Some(
                Json::List(out).tree()->List_0,
            ),
        decreases parts@.len() - i,
    {
        let ghost before = Json::List(out).tree()->List_0;
        proof {
            assert(all.take(i as int + 1).drop_last() =~= all.take(i as int));
            assert(all[i as int] == parts@[i as int]@);
        }
        let below = match choose_at(layer, &tag, i) {
            Part::Value => parse(parts[i].as_str()),
            Part::Layer(inner) => read_layer(parts[i].as_str(), inner),
            Part::Skipped => Some(Json::Null),
        };
        match below {
            Some(json) => {
                let ghost tree = json.tree();
                out.push(json);
                assert(Json::List(out).tree()->List_0 =~= before.push(tree));
            },
            None => {
                proof {
                    if layered_items(all, layer, first) is Some {
                        items_of_prefix(all, layer, first, i as int + 1);
                    }
                }
                return None;
            },
        }
        i = i + 1;
    }
    assert(all.take(i as int) =~= all);
    Some(out)
}

/// [`event_document`]: the document on a line of an event file.
pub fn read_event_document(line: &str) -> (r: Option<Json>)
    ensures
        r.deep_view() == event_document(line@),
{
    let t = trimmed(line);
    if t.as_str().is_empty() || parse(t.as_str()).is_none() {
        return None;
    }
    read_layer(t.as_str(), Layer::Event)
}

/// [`stream_document`]: the document on a line of a subagent stream.
pub fn read_stream_document(line: &str) -> (r: Option<Json>)
    ensures
        r.deep_view() == stream_document(line@),
{
    let t = trimmed(line);
    if t.as_str().is_empty() {
        return None;
    }
    read_layer(t.as_str(), Layer::Stream)
}

/// A layer keeps every key as often as it is given, in the order of the text.
pub proof fn layers_keep_every_key(parts: Seq<(Seq<char>, Seq<char>)>, layer: Layer)
    ensures
        layered_entries(parts, layer) matches Some(entries) ==> {
            &&& entries.len() == parts.len()
            &&& forall|i: int| 0 <= i < parts.len() ==> (#[trigger] entries[i]).0 == parts[i].0
        },
    decreases parts.len(),
{
    if parts.len() > 0 {
        layers_keep_every_key(parts.drop_last(), layer);
        if let Some(entries) = layered_entries(parts, layer) {
            let earlier = layered_entries(parts.drop_last(), layer)->0;
            assert forall|i: int| 0 <= i < parts.len() implies (#[trigger] entries[i]).0
                == parts[i].0 by {
                if i < earlier.len() {
                    assert(entries[i] == earlier[i]);
                }
            }
        }
    }
}

/// What a subagent line holds under a key that nothing consumes makes no difference,
/// whatever the text is.
pub proof fn unread_parts_make_no_difference(
    before: Seq<(Seq<char>, Seq<char>)>,
    key: Seq<char>,
    one: Seq<char>,
    other: Seq<char>,
    after: Seq<(Seq<char>, Seq<char>)>,
)
    requires
        !is_stream_key(key),
    ensures
        layered_entries(before + seq![(key, one)] + after, Layer::Stream) == layered_entries(
            before + seq![(key, other)] + after,
            Layer::Stream,
        ),
    decreases after.len(),
{
    let first = before + seq![(key, one)] + after;
    let second = before + seq![(key, other)] + after;
    if after.len() == 0 {
        assert(first.drop_last() =~= before);
        assert(second.drop_last() =~= before);
        assert(first.last() == (key, one) && second.last() == (key, other));
    } else {
        unread_parts_make_no_difference(before, key, one, other, after.drop_last());
        assert(first.drop_last() =~= before + seq![(key, one)] + after.drop_last());
        assert(second.drop_last() =~= before + seq![(key, other)] + after.drop_last());
        assert(first.last() == after.last() && second.last() == after.last());
    }
}

/// Under its name, the action of an event is read as an action, its parameters and the task of an
/// action as records, and everything else as a value. Of a subagent line its seven fields are
/// read, and nothing else is.
pub proof fn records_are_read_under_their_names(key: Seq<char>)
    ensures
        part_under(Layer::Event, "action"@) == Part::Layer(Layer::Action),
        part_under(Layer::Event, "params"@) == Part::Layer(Layer::Record),
        key != "action"@ && key != "params"@ ==> part_under(Layer::Event, key) == Part::Value,
        part_under(Layer::Action, "task"@) == Part::Layer(Layer::Record),
        key != "task"@ ==> part_under(Layer::Action, key) == Part::Value,
        part_under(Layer::Record, key) == Part::Value,
        part_under(Layer::Stream, "action_id"@) == Part::Value,
        part_under(Layer::Stream, "agent_name"@) == Part::Value,
        part_under(Layer::Stream, "tool_call_id"@) == Part::Value,
        part_under(Layer::Stream, "kind"@) == Part::Value,
        part_under(Layer::Stream, "name"@) == Part::Value,
        part_under(Layer::Stream, "detail"@) == Part::Value,
        part_under(Layer::Stream, "status"@) == Part::Value,
        key != "action_id"@ && key != "agent_name"@ && key != "tool_call_id"@ && key != "kind"@
            && key != "name"@ && key != "detail"@ && key != "status"@ ==> part_under(
            Layer::Stream,
            key,
        ) == Part::Skipped,
{
    reveal_strlit("action");
    reveal_strlit("params");
    assert("action"@[0] == 'a' && "params"@[0] == 'p');
}

/// By position, what stands third in an event is read as an action or as a record where the type
/// in front says so, and what stands fourth in an action as a record; of a subagent line the first
/// seven items are read.
pub proof fn records_are_read_at_their_places(tag: Option<Tree>, at: int)
    requires
        at >= 0,
    ensures
        part_at(Layer::Event, Some(Tree::Text("run_started"@)), 2) == Part::Layer(Layer::Record),
        part_at(Layer::Event, Some(Tree::Text("action_started"@)), 2) == Part::Layer(
            Layer::Action,
        ),
        part_at(Layer::Event, Some(Tree::Text("action_completed"@)), 2) == Part::Layer(
            Layer::Action,
        ),
        at != 2 || tag != Some(Tree::Text("run_started"@)) && tag != Some(
            Tree::Text("action_started"@),
        ) && tag != Some(Tree::Text("action_completed"@)) ==> part_at(Layer::Event, tag, at)
            == Part::Value,
        part_at(Layer::Action, tag, 3) == Part::Layer(Layer::Record),
        at != 3 ==> part_at(Layer::Action, tag, at) == Part::Value,
        part_at(Layer::Record, tag, at) == Part::Value,
        at < 7 ==> part_at(Layer::Stream, tag, at) == Part::Value,
        at >= 7 ==> part_at(Layer::Stream, tag, at) == Part::Skipped,
{
    crate::agent::engine_event::event_types_differ();
}

/// Each member of a layer holds what its text reads as: a value what `serde_json` reads, a layer
/// what is read layer by layer, and null what is passed over.
pub proof fn members_hold_what_their_text_says(
    parts: Seq<(Seq<char>, Seq<char>)>,
    layer: Layer,
    i: int,
)
    requires
        layered_entries(parts, layer) is Some,
        0 <= i < parts.len(),
    ensures
        ({
            let below = layered_entries(parts, layer)->0[i].1;
            match part_under(layer, parts[i].0) {
                Part::Value => parsed_tree(parts[i].1) == Some(below),
                Part::Layer(inner) => layered(parts[i].1, inner) == Some(below),
                Part::Skipped => below is Null,
            }
        }),
    decreases parts.len(),
{
    layers_keep_every_key(parts, layer);
    layers_keep_every_key(parts.drop_last(), layer);
    if i < parts.len() - 1 {
        members_hold_what_their_text_says(parts.drop_last(), layer, i);
    }
}

/// A line is a document of its file only where it is not blank; an event line must evaluate as a
/// whole besides.
pub proof fn blank_lines_are_no_documents(line: Seq<char>)
    ensures
        trim(line).len() == 0 ==> event_document(line) is None && stream_document(line) is None,
        parsed_tree(trim(line)) is None ==> event_document(line) is None,
        trim(line).len() > 0 && parsed_tree(trim(line)) is Some ==> event_document(line) == layered(
            trim(line),
            Layer::Event,
        ),
        trim(line).len() > 0 ==> stream_document(line) == layered(trim(line), Layer::Stream),
{
}

} // verus!
