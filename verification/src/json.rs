//! JSON values: their compact text, and the value at a path inside one.

use crate::bytes::hex_digit;
use crate::text::{
    before, chars_of, find_char, first_place, is_text, lemma_before, lemma_first_place_behind,
    number_in, parse_number, split,
};
use vstd::prelude::*;
use vstd::slice::slice_subrange;

verus! {

/// A JSON number: its text, the unsigned 64-bit number that it is, if it is one,
/// what its floating-point reading gives when it is cut down to an unsigned 64-bit
/// number, if it has such a reading, and whether that reading is there and other
/// than zero.
#[derive(Debug)]
pub struct JsonNumber {
    pub text: String,
    pub unsigned: Option<u64>,
    pub truncated: Option<u64>,
    pub nonzero: bool,
}

/// A JSON value. The members of an object stand in the order in which they are
/// written.
#[derive(Debug)]
pub enum Json {
    Null,
    Bool(bool),
    Number(JsonNumber),
    Text(String),
    Array(Vec<Json>),
    Object(Vec<(String, Json)>),
}

/// A character as it stands in a JSON string: quotation marks, backslashes and
/// control characters are escaped.
pub open spec fn escaped(c: char) -> Seq<char> {
    let n = c as int;
    if c == '"' || c == '\\' {
        seq!['\\', c]
    } else if n == 8 {
        seq!['\\', 'b']
    } else if n == 9 {
        seq!['\\', 't']
    } else if n == 10 {
        seq!['\\', 'n']
    } else if n == 12 {
        seq!['\\', 'f']
    } else if n == 13 {
        seq!['\\', 'r']
    } else if n < 32 {
        seq!['\\', 'u', '0', '0', hex_digit(n / 16), hex_digit(n % 16)]
    } else {
        seq![c]
    }
}

/// A text with its characters as they stand in a JSON string.
pub open spec fn escaped_text(s: Seq<char>) -> Seq<char>
    decreases s.len(),
{
    if s.len() == 0 {
        seq![]
    } else {
        escaped_text(s.drop_last()) + escaped(s.last())
    }
}

/// A text as a JSON string.
pub open spec fn quoted(s: Seq<char>) -> Seq<char> {
    seq!['"'] + escaped_text(s) + seq!['"']
}

/// Writes a text as a JSON string with `serde_json::to_string`, which fails on no
/// text.
#[verifier::external_body]
fn quote(s: &str) -> (r: String)
    ensures
        r@ == quoted(s@),
{
    serde_json::to_string(s).unwrap()
}

/// A JSON value as text without white space between its parts.
pub open spec fn compact_text(json: Json) -> Seq<char>
    decreases json,
{
    match json {
        Json::Null => "null"@,
        Json::Bool(b) => if b {
            "true"@
        } else {
            "false"@
        },
        Json::Number(n) => n.text@,
        Json::Text(s) => quoted(s@),
        Json::Array(items) => seq!['['] + compact_items(items@) + seq![']'],
        Json::Object(members) => seq!['{'] + compact_members(members@) + seq!['}'],
    }
}

/// The texts of a row of values, with commas between them.
pub open spec fn compact_items(items: Seq<Json>) -> Seq<char>
    decreases items,
{
    if items.len() == 0 {
        seq![]
    } else if items.len() == 1 {
        compact_text(items[0])
    } else {
        compact_items(items.drop_last()) + seq![','] + compact_text(items.last())
    }
}

/// The texts of a row of members, with commas between them.
pub open spec fn compact_members(members: Seq<(String, Json)>) -> Seq<char>
    decreases members,
{
    if members.len() == 0 {
        seq![]
    } else if members.len() == 1 {
        quoted(members[0].0@) + seq![':'] + compact_text(members[0].1)
    } else {
        compact_members(members.drop_last()) + seq![','] + quoted(members.last().0@) + seq![':']
            + compact_text(members.last().1)
    }
}

impl Json {
    /// Writes the value without white space between its parts.
    pub fn to_text(&self) -> (r: String)
        ensures
            r@ == compact_text(*self),
        decreases self,
    {
        match self {
            Json::Null => "null".to_owned(),
            Json::Bool(b) => if *b {
                "true".to_owned()
            } else {
                "false".to_owned()
            },
            Json::Number(n) => n.text.clone(),
            Json::Text(s) => quote(s.as_str()),
            Json::Array(items) => {
                let mut out = String::new();
                out.push('[');
                let mut i: usize = 0;
                while i < items.len()
                    invariant
                        i <= items@.len(),
                        *self == Json::Array(*items),
                        out@ == seq!['['] + compact_items(items@.take(i as int)),
                    decreases items@.len() - i,
                {
                    if i > 0 {
                        out.push(',');
                    }
                    assert(items@.take(i + 1).drop_last() =~= items@.take(i as int));
                    assert(decreases_to!(*self => self->Array_0@[i as int]));
                    let text = items[i].to_text();
                    out.append(text.as_str());
                    assert(out@ =~= seq!['['] + compact_items(items@.take(i + 1)));
                    i = i + 1;
                }
                assert(items@.take(i as int) =~= items@);
                out.push(']');
                assert(out@ =~= compact_text(*self));
                out
            },
            Json::Object(members) => {
                let mut out = String::new();
                out.push('{');
                let mut i: usize = 0;
                while i < members.len()
                    invariant
                        i <= members@.len(),
                        *self == Json::Object(*members),
                        out@ == seq!['{'] + compact_members(members@.take(i as int)),
                    decreases members@.len() - i,
                {
                    if i > 0 {
                        out.push(',');
                    }
                    assert(members@.take(i + 1).drop_last() =~= members@.take(i as int));
                    let (name, value) = &members[i];
                    let quoted_name = quote(name.as_str());
                    out.append(quoted_name.as_str());
                    out.push(':');
                    assert(decreases_to!(*self => self->Object_0@[i as int].1));
                    let text = value.to_text();
                    out.append(text.as_str());
                    assert(out@ =~= seq!['{'] + compact_members(members@.take(i + 1)));
                    i = i + 1;
                }
                assert(members@.take(i as int) =~= members@);
                out.push('}');
                assert(out@ =~= compact_text(*self));
                out
            },
        }
    }
}

/// The value of the first of a row of members that has a name.
pub open spec fn member(members: Seq<(String, Json)>, name: Seq<char>) -> Option<Json>
    decreases members.len(),
{
    if members.len() == 0 {
        None
    } else if members[0].0@ == name {
        Some(members[0].1)
    } else {
        member(members.skip(1), name)
    }
}

/// The value of an object's member; `None` where the value is no object or has no
/// such member.
pub open spec fn field_of(json: Json, name: Seq<char>) -> Option<Json> {
    match json {
        Json::Object(members) => member(members@, name),
        _ => None,
    }
}

/// An element of an array; `None` where the value is no array or is too short.
pub open spec fn element_of(json: Json, index: int) -> Option<Json> {
    match json {
        Json::Array(items) => if 0 <= index < items@.len() {
            Some(items@[index])
        } else {
            None
        },
        _ => None,
    }
}

/// Whether a segment of a path has an opening bracket and cannot be cut behind it:
/// the bracket is its last character, or its last character is not in ASCII.
pub open spec fn is_malformed(segment: Seq<char>) -> bool {
    let bracket = first_place(segment, '[');
    bracket < segment.len() && (bracket + 1 == segment.len() || segment.last() as u32 > 0x7f)
}

/// What one segment of a path leads to. It is the name of a member, or the name of
/// a member, which may be left out, an opening bracket, an index and one more
/// character.
pub open spec fn after_segment(json: Json, segment: Seq<char>) -> Option<Json> {
    let bracket = first_place(segment, '[');
    if bracket < segment.len() {
        let name = segment.take(bracket);
        let inner = if name.len() == 0 {
            Some(json)
        } else {
            field_of(json, name)
        };
        match inner {
            None => None,
            Some(list) => match number_in(
                segment.subrange(bracket + 1, segment.len() - 1),
                usize::MAX as int,
            ) {
                None => None,
                Some(index) => element_of(list, index),
            },
        }
    } else {
        field_of(json, segment)
    }
}

/// What a row of segments leads to: `None` where a segment that is reached cannot
/// be cut, `Some(None)` where nothing is there.
pub open spec fn after_segments(json: Json, segments: Seq<Seq<char>>) -> Option<Option<Json>>
    decreases segments.len(),
{
    if segments.len() == 0 {
        Some(Some(json))
    } else if is_malformed(segments[0]) {
        None
    } else {
        match after_segment(json, segments[0]) {
            None => Some(None),
            Some(inner) => after_segments(inner, segments.skip(1)),
        }
    }
}

/// What a path leads to. Its segments stand between dots; the empty path leads to
/// the value itself.
pub open spec fn at_path(json: Json, path: Seq<char>) -> Option<Option<Json>> {
    if path.len() == 0 {
        Some(Some(json))
    } else {
        after_segments(json, split(path, '.'))
    }
}

fn find_field<'a>(json: &'a Json, name: &[char]) -> (r: Option<&'a Json>)
    ensures
        match r {
            Some(v) => field_of(*json, name@) == Some(*v),
            None => field_of(*json, name@) is None,
        },
{
    match json {
        Json::Object(members) => {
            let mut i: usize = 0;
            assert(members@.skip(0) =~= members@);
            while i < members.len()
                invariant
                    i <= members@.len(),
                    *json == Json::Object(*members),
                    member(members@, name@) == member(members@.skip(i as int), name@),
                decreases members@.len() - i,
            {
                assert(members@.skip(i as int).skip(1) =~= members@.skip(i + 1));
                assert(members@.skip(i as int)[0] == members@[i as int]);
                if is_text(name, members[i].0.as_str()) {
                    return Some(&members[i].1);
                }
                i = i + 1;
            }
            None
        },
        _ => None,
    }
}

fn find_element<'a>(json: &'a Json, index: usize) -> (r: Option<&'a Json>)
    ensures
        match r {
            Some(v) => element_of(*json, index as int) == Some(*v),
            None => element_of(*json, index as int) is None,
        },
{
    match json {
        Json::Array(items) => if index < items.len() {
            Some(&items[index])
        } else {
            None
        },
        _ => None,
    }
}

fn follow_segment<'a>(json: &'a Json, segment: &[char]) -> (r: Option<&'a Json>)
    requires
        !is_malformed(segment@),
    ensures
        match r {
            Some(v) => after_segment(*json, segment@) == Some(*v),
            None => after_segment(*json, segment@) is None,
        },
{
    let bracket = find_char(segment, '[');
    if bracket == segment.len() {
        return find_field(json, segment);
    }
    let name = slice_subrange(segment, 0, bracket);
    assert(name@ =~= segment@.take(bracket as int));
    let inside = slice_subrange(segment, bracket + 1, segment.len() - 1);
    let list = if name.len() == 0 {
        json
    } else {
        match find_field(json, name) {
            Some(inner) => inner,
            None => {
                return None;
            },
        }
    };
    match parse_number(inside, usize::MAX as u64) {
        Some(index) => find_element(list, index as usize),
        None => None,
    }
}

/// What a path leads to: `None` where a segment that is reached cannot be cut
/// behind its opening bracket, `Some(None)` where nothing is there.
pub fn resolve_json_path<'a>(json: &'a Json, path: &str) -> (r: Option<Option<&'a Json>>)
    ensures
        match r {
            Some(Some(v)) => at_path(*json, path@) == Some(Some(*v)),
            Some(None) => at_path(*json, path@) == Some(None::<Json>),
            None => at_path(*json, path@) is None,
        },
{
    let chars = chars_of(path);
    if chars.len() == 0 {
        return Some(Some(json));
    }
    let mut current: &'a Json = json;
    let mut rest = chars.as_slice();
    loop
        invariant
            after_segments(*json, split(path@, '.')) == after_segments(
                *current,
                split(rest@, '.'),
            ),
            path@.len() > 0,
        decreases rest@.len(),
    {
        let dot = find_char(rest, '.');
        let segment = slice_subrange(rest, 0, dot);
        assert(segment@ =~= rest@.take(dot as int));
        let ghost segments = split(rest@, '.');
        assert(segments[0] =~= segment@);
        let bracket = find_char(segment, '[');
        if bracket < segment.len() && (bracket + 1 == segment.len() || segment[segment.len() - 1]
            as u32 > 0x7f) {
            return None;
        }
        match follow_segment(current, segment) {
            None => {
                return Some(None);
            },
            Some(inner) => {
                current = inner;
            },
        }
        if dot == rest.len() {
            assert(segments.skip(1).len() == 0);
            assert(after_segments(*current, segments.skip(1)) == Some(Some(*current)));
            return Some(Some(current));
        }
        let tail = slice_subrange(rest, dot + 1, rest.len());
        assert(tail@ =~= rest@.skip(dot + 1));
        assert(segments.skip(1) =~= split(tail@, '.'));
        rest = tail;
    }
}

/// The value that a path leads to, where every segment that is reached can be cut.
pub fn extract_json_path<'a>(json: &'a Json, path: &str) -> (r: Option<&'a Json>)
    requires
        at_path(*json, path@) is Some,
    ensures
        match r {
            Some(v) => at_path(*json, path@) == Some(Some(*v)),
            None => at_path(*json, path@) == Some(None::<Json>),
        },
{
    match resolve_json_path(json, path) {
        Some(found) => found,
        None => None,
    }
}

proof fn lemma_split_joined(head: Seq<char>, c: char, tail: Seq<char>)
    ensures
        split(head + seq![c] + tail, c) == split(head, c) + split(tail, c),
    decreases head.len(),
{
    let s = head + seq![c] + tail;
    let at = first_place(head, c);
    lemma_before(head, c);
    if at < head.len() {
        let first = head.take(at);
        assert(before(head, c) == first);
        let rest = head.skip(at + 1);
        assert(head =~= first + seq![c] + rest);
        lemma_first_place_behind(first, c, rest + seq![c] + tail);
        assert(s =~= first + seq![c] + (rest + seq![c] + tail));
        assert(s.take(at) =~= first);
        assert(s.skip(at + 1) =~= rest + seq![c] + tail);
        lemma_split_joined(rest, c, tail);
        assert(split(s, c) =~= split(head, c) + split(tail, c));
    } else {
        assert(before(head, c) =~= head);
        lemma_first_place_behind(head, c, tail);
        assert(s.take(at) =~= head);
        assert(s.skip(at + 1) =~= tail);
        assert(split(s, c) =~= split(head, c) + split(tail, c));
    }
}

/// A row of segments goes on from where its beginning leads.
pub proof fn lemma_after_segments_joined(json: Json, a: Seq<Seq<char>>, b: Seq<Seq<char>>)
    ensures
        after_segments(json, a + b) == match after_segments(json, a) {
            Some(Some(inner)) => after_segments(inner, b),
            other => other,
        },
    decreases a.len(),
{
    if a.len() == 0 {
        assert(a + b =~= b);
    } else {
        assert((a + b)[0] == a[0]);
        assert((a + b).skip(1) =~= a.skip(1) + b);
        if !is_malformed(a[0]) {
            if let Some(inner) = after_segment(json, a[0]) {
                lemma_after_segments_joined(inner, a.skip(1), b);
            }
        }
    }
}

/// A path goes on from where its beginning leads.
pub proof fn law_a_path_goes_on_from_its_beginning(json: Json, head: Seq<char>, tail: Seq<char>)
    requires
        head.len() > 0,
        tail.len() > 0,
    ensures
        at_path(json, head + seq!['.'] + tail) == match at_path(json, head) {
            Some(Some(inner)) => at_path(inner, tail),
            other => other,
        },
{
    lemma_split_joined(head, '.', tail);
    lemma_after_segments_joined(json, split(head, '.'), split(tail, '.'));
}

} // verus!
