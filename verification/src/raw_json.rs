//! JSON text taken apart layer by layer.
//!
//! A `serde_json::Value` holds one value per key, and to read one evaluates all
//! that stands in a text. Where a key that is given twice matters, or where parts
//! of a text are not to be looked at, the outer layers are taken apart here: the
//! marks between the parts are looked for, and each part is left to `serde_json`.

use crate::text::{chars_of, slice};
use vstd::prelude::*;

verus! {

/// Whether a character is white space between the parts of a JSON text.
pub open spec fn is_gap(c: char) -> bool {
    c == ' ' || c == '\n' || c == '\t' || c == '\r'
}

/// The text from the first character on that is not white space.
pub open spec fn past_gap(s: Seq<char>) -> Seq<char>
    decreases s.len(),
{
    if s.len() > 0 && is_gap(s[0]) {
        past_gap(s.drop_first())
    } else {
        s
    }
}

/// How many characters `serde_json`'s `StreamDeserializer` takes up for the value
/// at the start of a text when it reads an `IgnoredAny`, or nothing where it
/// refuses it.
pub uninterp spec fn skipped_value(text: Seq<char>) -> Option<nat>;

/// The string that `serde_json`'s `StreamDeserializer` reads at the start of a
/// text, and how many characters it takes up, or nothing where it refuses it.
pub uninterp spec fn leading_string(text: Seq<char>) -> Option<(Seq<char>, nat)>;

/// Calls `StreamDeserializer::next` for an `IgnoredAny`: the value at the start of
/// the text is passed over, with only its form looked at. The result is the number
/// of characters up to its end, as `StreamDeserializer::byte_offset` tells it; a
/// value takes up at least one.
#[verifier::external_body]
fn skip_value(text: &str) -> (r: Option<usize>)
    ensures
        match r {
            Some(n) => skipped_value(text@) == Some(n as nat) && 0 < n <= text@.len(),
            None => skipped_value(text@) is None,
        },
{
    let mut stream = serde_json::Deserializer::from_str(text).into_iter::<serde::de::IgnoredAny>();
    match stream.next() {
        Some(Ok(_)) => Some(text[..stream.byte_offset()].chars().count()),
        _ => None,
    }
}

/// Calls `StreamDeserializer::next` for a `String`. The result is the string at the
/// start of the text and the number of characters up to its end, as
/// `StreamDeserializer::byte_offset` tells it; a string takes up at least one.
#[verifier::external_body]
fn take_string(text: &str) -> (r: Option<(String, usize)>)
    ensures
        match r {
            Some((t, n)) => leading_string(text@) == Some((t@, n as nat)) && 0 < n <= text@.len(),
            None => leading_string(text@) is None,
        },
{
    let mut stream = serde_json::Deserializer::from_str(text).into_iter::<String>();
    match stream.next() {
        Some(Ok(t)) => Some((t, text[..stream.byte_offset()].chars().count())),
        _ => None,
    }
}

/// To pass over white space makes no text longer.
pub proof fn past_gap_is_no_longer(s: Seq<char>)
    ensures
        past_gap(s).len() <= s.len(),
    decreases s.len(),
{
    if s.len() > 0 && is_gap(s[0]) {
        past_gap_is_no_longer(s.drop_first());
    }
}

fn without_gap(s: &str) -> (r: String)
    ensures
        r@ == past_gap(s@),
{
    let cs = chars_of(s);
    let mut i: usize = 0;
    assert(s@.skip(0) =~= s@);
    while i < cs.len() && (cs[i] == ' ' || cs[i] == '\n' || cs[i] == '\t' || cs[i] == '\r')
        invariant
            cs@ == s@,
            i <= cs@.len(),
            past_gap(s@) == past_gap(s@.skip(i as int)),
        decreases cs@.len() - i,
    {
        assert(s@.skip(i as int).drop_first() =~= s@.skip(i as int + 1));
        i = i + 1;
    }
    assert(s@.skip(i as int) =~= s@.subrange(i as int, s@.len() as int));
    slice(s, i, cs.len())
}

/// Whether a text begins with a mark.
pub open spec fn begins(s: Seq<char>, mark: char) -> bool {
    s.len() > 0 && s[0] == mark
}

fn begins_with(s: &str, mark: char) -> (r: bool)
    ensures
        r == begins(s@, mark),
{
    let n: usize = s.unicode_len();
    n > 0 && s.get_char(0) == mark
}

fn text_from(s: &str, n: usize) -> (r: String)
    requires
        n <= s@.len(),
    ensures
        r@ == s@.skip(n as int),
{
    let len: usize = s.unicode_len();
    assert(s@.skip(n as int) =~= s@.subrange(n as int, s@.len() as int));
    slice(s, n, len)
}

/// Whether a mark is the first thing in a text but for white space.
pub fn starts(s: &str, mark: char) -> (r: bool)
    ensures
        r == begins(past_gap(s@), mark),
{
    begins_with(without_gap(s).as_str(), mark)
}

/// The item at the start of a text, and what follows it behind white space.
pub open spec fn next_item(s: Seq<char>) -> Option<(Seq<char>, Seq<char>)> {
    match skipped_value(s) {
        Some(n) => if 0 < n <= s.len() {
            Some((s.take(n as int), past_gap(s.skip(n as int))))
        } else {
            None
        },
        None => None,
    }
}

/// The member of an object at the start of a text, and what follows it behind
/// white space: a string, a colon and a value.
pub open spec fn next_member(s: Seq<char>) -> Option<((Seq<char>, Seq<char>), Seq<char>)> {
    match leading_string(s) {
        Some((key, n)) => if begins(s, '"') && 0 < n <= s.len() {
            let t = past_gap(s.skip(n as int));
            if begins(t, ':') {
                match next_item(t.drop_first()) {
                    Some((value, rest)) => Some(((key, value), rest)),
                    None => None,
                }
            } else {
                None
            }
        } else {
            None
        },
        None => None,
    }
}

/// What follows an item is shorter than the text that begins with it.
pub proof fn item_takes_up_text(s: Seq<char>)
    ensures
        next_item(s) matches Some((_, rest)) ==> rest.len() < s.len(),
{
    if let Some(n) = skipped_value(s) {
        if 0 < n <= s.len() {
            past_gap_is_no_longer(s.skip(n as int));
        }
    }
}

/// What follows a member is shorter than the text that begins with it.
pub proof fn member_takes_up_text(s: Seq<char>)
    ensures
        next_member(s) matches Some((_, rest)) ==> rest.len() < s.len(),
{
    if let Some((key, n)) = leading_string(s) {
        if 0 < n <= s.len() {
            let t = past_gap(s.skip(n as int));
            past_gap_is_no_longer(s.skip(n as int));
            if begins(t, ':') {
                item_takes_up_text(t.drop_first());
            }
        }
    }
}

fn take_item(s: &str) -> (r: Option<(String, String)>)
    ensures
        r.deep_view() == next_item(s@),
{
    match skip_value(s) {
        Some(n) => {
            let item = slice(s, 0, n);
            assert(item@ =~= s@.take(n as int));
            Some((item, without_gap(text_from(s, n).as_str())))
        },
        None => None,
    }
}

fn take_member(s: &str) -> (r: Option<((String, String), String)>)
    ensures
        r.deep_view() == next_member(s@),
{
    if !begins_with(s, '"') {
        return None;
    }
    match take_string(s) {
        Some((key, n)) => {
            let t = without_gap(text_from(s, n).as_str());
            if !begins_with(t.as_str(), ':') {
                return None;
            }
            let u = text_from(t.as_str(), 1);
            assert(u@ =~= t@.drop_first());
            match take_item(u.as_str()) {
                Some((value, rest)) => Some(((key, value), rest)),
                None => None,
            }
        },
        None => None,
    }
}

/// Whether a text holds a closing mark and nothing else but white space.
pub open spec fn closes(s: Seq<char>, mark: char) -> bool {
    begins(s, mark) && past_gap(s.drop_first()).len() == 0
}

fn is_closed_by(s: &str, mark: char) -> (r: bool)
    ensures
        r == closes(s@, mark),
{
    if !begins_with(s, mark) {
        return false;
    }
    let rest = text_from(s, 1);
    assert(rest@ =~= s@.drop_first());
    without_gap(rest.as_str()).as_str().is_empty()
}

/// The members of an object from the first one on, each as its key and the text
/// of its value, with commas between them and a closing brace behind them.
pub open spec fn members(s: Seq<char>) -> Option<Seq<(Seq<char>, Seq<char>)>>
    decreases s.len(),
{
    match next_member(s) {
        Some((member, rest)) => if closes(rest, '}') {
            Some(seq![member])
        } else if begins(rest, ',') {
            let later = past_gap(rest.drop_first());
            proof {
                member_takes_up_text(s);
                past_gap_is_no_longer(rest.drop_first());
            }
            match members(later) {
                Some(more) => Some(seq![member] + more),
                None => None,
            }
        } else {
            None
        },
        None => None,
    }
}

/// The items of a list from the first one on, each as its text, with commas
/// between them and a closing bracket behind them.
pub open spec fn items(s: Seq<char>) -> Option<Seq<Seq<char>>>
    decreases s.len(),
{
    match next_item(s) {
        Some((item, rest)) => if closes(rest, ']') {
            Some(seq![item])
        } else if begins(rest, ',') {
            let later = past_gap(rest.drop_first());
            proof {
                item_takes_up_text(s);
                past_gap_is_no_longer(rest.drop_first());
            }
            match items(later) {
                Some(more) => Some(seq![item] + more),
                None => None,
            }
        } else {
            None
        },
        None => None,
    }
}

/// The parts of a text that is an object: keys and the texts of their values, in
/// order, each as often as it is given.
pub open spec fn object_parts(s: Seq<char>) -> Option<Seq<(Seq<char>, Seq<char>)>> {
    let t = past_gap(past_gap(s).drop_first());
    if !begins(past_gap(s), '{') {
        None
    } else if closes(t, '}') {
        Some(Seq::empty())
    } else {
        members(t)
    }
}

/// The parts of a text that is a list: the texts of its items.
pub open spec fn list_parts(s: Seq<char>) -> Option<Seq<Seq<char>>> {
    let t = past_gap(past_gap(s).drop_first());
    if !begins(past_gap(s), '[') {
        None
    } else if closes(t, ']') {
        Some(Seq::empty())
    } else {
        items(t)
    }
}

/// [`object_parts`]: the parts of a text that is an object.
pub fn split_object(s: &str) -> (r: Option<Vec<(String, String)>>)
    ensures
        r.deep_view() == object_parts(s@),
{
    let t = without_gap(s);
    if !begins_with(t.as_str(), '{') {
        return None;
    }
    let inner = text_from(t.as_str(), 1);
    assert(inner@ =~= t@.drop_first());
    let mut rest = without_gap(inner.as_str());
    let mut out: Vec<(String, String)> = Vec::new();
    assert(out.deep_view() =~= Seq::empty());
    if is_closed_by(rest.as_str(), '}') {
        return Some(out);
    }
    let ghost start = rest@;
    proof {
        if let Some(more) = members(start) {
            assert(out.deep_view() + more =~= more);
        }
    }
    loop
        invariant
            object_parts(s@) == members(start),
            members(start) == match members(rest@) {
                Some(more) => Some(out.deep_view() + more),
                None => None,
            },
        decreases rest@.len(),
    {
        match take_member(rest.as_str()) {
            Some((member, left)) => {
                let ghost before = out.deep_view();
                let ghost added = member.deep_view();
                out.push(member);
                assert(out.deep_view() =~= before.push(added));
                if is_closed_by(left.as_str(), '}') {
                    assert(before + seq![added] =~= before.push(added));
                    return Some(out);
                }
                if !begins_with(left.as_str(), ',') {
                    return None;
                }
                let later = text_from(left.as_str(), 1);
                proof {
                    assert(later@ =~= left@.drop_first());
                    member_takes_up_text(rest@);
                    past_gap_is_no_longer(left@.drop_first());
                    if let Some(more) = members(past_gap(left@.drop_first())) {
                        assert(before + (seq![added] + more) =~= before.push(added) + more);
                    }
                }
                rest = without_gap(later.as_str());
            },
            None => {
                return None;
            },
        }
    }
}

/// [`list_parts`]: the parts of a text that is a list.
pub fn split_list(s: &str) -> (r: Option<Vec<String>>)
    ensures
        r.deep_view() == list_parts(s@),
{
    let t = without_gap(s);
    if !begins_with(t.as_str(), '[') {
        return None;
    }
    let inner = text_from(t.as_str(), 1);
    assert(inner@ =~= t@.drop_first());
    let mut rest = without_gap(inner.as_str());
    let mut out: Vec<String> = Vec::new();
    assert(out.deep_view() =~= Seq::empty());
    if is_closed_by(rest.as_str(), ']') {
        return Some(out);
    }
    let ghost start = rest@;
    proof {
        if let Some(more) = items(start) {
            assert(out.deep_view() + more =~= more);
        }
    }
    loop
        invariant
            list_parts(s@) == items(start),
            items(start) == match items(rest@) {
                Some(more) => Some(out.deep_view() + more),
                None => None,
            },
        decreases rest@.len(),
    {
        match take_item(rest.as_str()) {
            Some((item, left)) => {
                let ghost before = out.deep_view();
                let ghost added = item@;
                out.push(item);
                assert(out.deep_view() =~= before.push(added));
                if is_closed_by(left.as_str(), ']') {
                    assert(before + seq![added] =~= before.push(added));
                    return Some(out);
                }
                if !begins_with(left.as_str(), ',') {
                    return None;
                }
                let later = text_from(left.as_str(), 1);
                proof {
                    assert(later@ =~= left@.drop_first());
                    item_takes_up_text(rest@);
                    past_gap_is_no_longer(left@.drop_first());
                    if let Some(more) = items(past_gap(left@.drop_first())) {
                        assert(before + (seq![added] + more) =~= before.push(added) + more);
                    }
                }
                rest = without_gap(later.as_str());
            },
            None => {
                return None;
            },
        }
    }
}

/// To pass over white space takes the spaces, the tabs and the line breaks at the start of a text
/// away, and nothing else.
pub proof fn gaps_are_spaces_tabs_and_line_breaks(s: Seq<char>, c: char)
    ensures
        c == ' ' || c == '\t' || c == '\n' || c == '\r' ==> past_gap(seq![c] + s) == past_gap(s),
        c != ' ' && c != '\t' && c != '\n' && c != '\r' ==> past_gap(seq![c] + s) == seq![c] + s,
        past_gap(Seq::empty()).len() == 0,
{
    let all = seq![c] + s;
    assert(all[0] == c);
    assert(all.drop_first() =~= s);
}

/// The parts of an object stand between braces with commas between them, and those of a list
/// between brackets; an object or a list without parts holds nothing but white space.
pub proof fn parts_stand_between_marks(s: Seq<char>)
    ensures
        object_parts(s) is Some ==> begins(past_gap(s), '{'),
        list_parts(s) is Some ==> begins(past_gap(s), '['),
        object_parts(seq!['{', '}']) == Some(Seq::<(Seq<char>, Seq<char>)>::empty()),
        list_parts(seq!['[', ']']) == Some(Seq::<Seq<char>>::empty()),
        object_parts(seq!['[', ']']) is None,
        list_parts(seq!['{', '}']) is None,
{
    let braces = seq!['{', '}'];
    let brackets = seq!['[', ']'];
    assert(past_gap(braces) == braces && past_gap(brackets) == brackets);
    let close = seq!['}'];
    let shut = seq![']'];
    assert(braces.drop_first() =~= close);
    assert(brackets.drop_first() =~= shut);
    assert(past_gap(close) == close && past_gap(shut) == shut);
    assert(close.drop_first() =~= Seq::empty());
    assert(shut.drop_first() =~= Seq::empty());
    assert(past_gap(Seq::empty()) == Seq::<char>::empty());
}

/// Where more parts follow a part behind a comma, it comes first and they follow it; where the
/// closing mark and nothing else follows, it is the last; and where anything else follows, the text
/// is refused.
pub proof fn parts_follow_one_another(s: Seq<char>)
    ensures
        match next_member(s) {
            Some((member, rest)) => {
                &&& closes(rest, '}') ==> members(s) == Some(seq![member])
                &&& begins(rest, ',') ==> match members(past_gap(rest.drop_first())) {
                    Some(more) => members(s) == Some(seq![member] + more),
                    None => members(s) is None,
                }
                &&& !closes(rest, '}') && !begins(rest, ',') ==> members(s) is None
            },
            None => members(s) is None,
        },
        match next_item(s) {
            Some((item, rest)) => {
                &&& closes(rest, ']') ==> items(s) == Some(seq![item])
                &&& begins(rest, ',') ==> match items(past_gap(rest.drop_first())) {
                    Some(more) => items(s) == Some(seq![item] + more),
                    None => items(s) is None,
                }
                &&& !closes(rest, ']') && !begins(rest, ',') ==> items(s) is None
            },
            None => items(s) is None,
        },
{
}

} // verus!
