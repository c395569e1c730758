//! Where paths lead inside JSON values, and how values are written.

use crate::json::{
    after_segment, after_segments, at_path, compact_items, compact_members, compact_text,
    escaped_text, field_of, is_malformed, lemma_after_segments_joined, member, quoted, Json,
};
use crate::text::{
    decimal_text, first_place, lemma_before, lemma_first_place_behind, number_in, split,
};
use crate::text_laws::{
    among_digits, law_a_number_is_written_in_digits, law_a_text_is_split_at_each_separator,
    law_a_written_number_is_read_back, law_only_digits_are_a_number,
};
use vstd::prelude::*;

verus! {

/// Whether a text is a plain name: not empty, without a dot and without an opening
/// bracket.
pub open spec fn is_plain(name: Seq<char>) -> bool {
    name.len() > 0 && !name.contains('.') && !name.contains('[')
}

proof fn lemma_member(members: Seq<(String, Json)>, name: Seq<char>)
    ensures
        match member(members, name) {
            Some(v) => exists|i: int|
                0 <= i < members.len() && (#[trigger] members[i]).0@ == name && members[i].1 == v
                    && forall|j: int| 0 <= j < i ==> (#[trigger] members[j]).0@ != name,
            None => forall|i: int| 0 <= i < members.len() ==> (#[trigger] members[i]).0@ != name,
        },
    decreases members.len(),
{
    if members.len() > 0 {
        if members[0].0@ != name {
            let rest = members.skip(1);
            lemma_member(rest, name);
            if let Some(v) = member(rest, name) {
                let k = choose|k: int|
                    0 <= k < rest.len() && (#[trigger] rest[k]).0@ == name && rest[k].1 == v
                        && forall|j: int| 0 <= j < k ==> (#[trigger] rest[j]).0@ != name;
                assert(members[k + 1] == rest[k]);
                assert forall|j: int| 0 <= j < k + 1 implies (#[trigger] members[j]).0@ != name by {
                    if j > 0 {
                        assert(members[j] == rest[j - 1]);
                    }
                }
            } else {
                assert forall|i: int| 0 <= i < members.len() implies (#[trigger] members[i]).0@
                    != name by {
                    if i > 0 {
                        assert(members[i] == rest[i - 1]);
                    }
                }
            }
        } else {
            assert(members[0].0@ == name);
        }
    }
}

/// A text without a dot is a path of one segment.
proof fn lemma_one_segment(json: Json, segment: Seq<char>)
    requires
        segment.len() > 0,
        !segment.contains('.'),
    ensures
        at_path(json, segment) == (if is_malformed(segment) {
            None
        } else {
            Some(after_segment(json, segment))
        }),
{
    law_a_text_is_split_at_each_separator(segment, '.', seq![]);
    let segments = split(segment, '.');
    assert(segments.skip(1).len() == 0);
    reveal_with_fuel(after_segments, 2);
}

proof fn lemma_plain(json: Json, name: Seq<char>)
    requires
        is_plain(name),
    ensures
        at_path(json, name) == Some(field_of(json, name)),
{
    lemma_one_segment(json, name);
    lemma_first_place_behind(name, '[', seq![]);
}

/// A plain name leads to the first member of exactly that name, and to nothing where
/// no member has it or the value is no object. Such a path can always be followed.
pub proof fn law_a_plain_name_leads_to_the_member_of_that_name(json: Json, name: Seq<char>)
    requires
        is_plain(name),
    ensures
        match at_path(json, name) {
            Some(Some(v)) => json matches Json::Object(members) && exists|i: int|
                0 <= i < members@.len() && (#[trigger] members@[i]).0@ == name && members@[i].1 == v
                    && forall|j: int| 0 <= j < i ==> (#[trigger] members@[j]).0@ != name,
            Some(None) => json matches Json::Object(members) ==> forall|i: int|
                0 <= i < members@.len() ==> (#[trigger] members@[i]).0@ != name,
            None => false,
        },
{
    lemma_plain(json, name);
    if let Json::Object(members) = json {
        lemma_member(members@, name);
    }
}

/// A member is found by its name, wherever it stands, where no member before it has
/// that name.
pub proof fn law_a_member_is_found_by_its_name(
    members: Vec<(String, Json)>,
    name: Seq<char>,
    i: int,
)
    requires
        is_plain(name),
        0 <= i < members@.len(),
        members@[i].0@ == name,
        forall|j: int| 0 <= j < i ==> (#[trigger] members@[j]).0@ != name,
    ensures
        at_path(Json::Object(members), name) == Some(Some(members@[i].1)),
{
    law_a_plain_name_leads_to_the_member_of_that_name(Json::Object(members), name);
    if at_path(Json::Object(members), name) == Some(None::<Json>) {
        assert(members@[i].0@ != name);
    } else {
        let v = at_path(Json::Object(members), name)->0->0;
        let k = choose|k: int|
            0 <= k < members@.len() && (#[trigger] members@[k]).0@ == name && members@[k].1 == v
                && forall|j: int| 0 <= j < k ==> (#[trigger] members@[j]).0@ != name;
        if k < i {
            assert(members@[k].0@ != name);
        }
        if i < k {
            assert(members@[i].0@ != name);
        }
    }
}

/// The bracketed writing of an index: an opening bracket, the index in decimal and one
/// more ASCII character.
pub open spec fn bracketed(index: nat, close: char) -> Seq<char> {
    seq!['['] + decimal_text(index) + seq![close]
}

proof fn lemma_bracketed(index: nat, close: char)
    requires
        close as u32 <= 0x7f,
        close != '.',
    ensures
        bracketed(index, close).len() > 2,
        !bracketed(index, close).contains('.'),
        first_place(bracketed(index, close), '[') == 0,
{
    law_a_written_number_is_read_back(index, index as int);
    let d = decimal_text(index);
    let b = bracketed(index, close);
    if d.len() == 0 {
        law_only_digits_are_a_number(seq!['x'], index as int, 0);
        assert(d =~= seq![]);
    }
    if b.contains('.') {
        let i = choose|i: int| 0 <= i < b.len() && b[i] == '.';
        if 1 <= i && i < b.len() - 1 {
            law_a_number_is_written_in_digits(index, i - 1);
            assert(b[i] == d[i - 1]);
            assert(among_digits('.'));
            let s = seq!['0', '1', '2', '3', '4', '5', '6', '7', '8', '9'];
            let k = choose|k: int| 0 <= k < s.len() && s[k] == '.';
            assert(false);
        }
    }
    assert(b[0] == '[');
}

/// An index in brackets leads to the element at that place, counted from zero, and to
/// nothing where the value is no array or is too short.
pub proof fn law_an_index_leads_to_the_element_at_its_place(json: Json, index: nat, close: char)
    requires
        close as u32 <= 0x7f,
        close != '.',
    ensures
        at_path(json, bracketed(index, close)) == (match json {
            Json::Array(items) => if index < items@.len() && index <= usize::MAX {
                Some(Some(items@[index as int]))
            } else {
                Some(None)
            },
            _ => Some(None),
        }),
{
    let b = bracketed(index, close);
    lemma_bracketed(index, close);
    lemma_one_segment(json, b);
    assert(b.last() == close);
    assert(b.take(0) =~= seq![]);
    assert(b.subrange(1, b.len() - 1) =~= decimal_text(index));
    law_a_written_number_is_read_back(index, usize::MAX as int);
}

/// A name with an index behind it leads first to the member and then to the element.
pub proof fn law_an_index_goes_on_from_its_member(
    json: Json,
    name: Seq<char>,
    index: nat,
    close: char,
)
    requires
        is_plain(name),
        close as u32 <= 0x7f,
        close != '.',
    ensures
        at_path(json, name + bracketed(index, close)) == (match at_path(json, name) {
            Some(Some(inner)) => at_path(inner, bracketed(index, close)),
            other => other,
        }),
{
    let b = bracketed(index, close);
    lemma_bracketed(index, close);
    let s = name + b;
    if s.contains('.') {
        let i = choose|i: int| 0 <= i < s.len() && s[i] == '.';
        if i < name.len() {
            assert(name[i] == '.');
        } else {
            assert(b[i - name.len()] == '.');
        }
    }
    lemma_first_place_behind(name, '[', b.skip(1));
    assert(s =~= name + seq!['['] + b.skip(1));
    lemma_one_segment(json, s);
    lemma_plain(json, name);
    assert(s.last() == close);
    assert(s.take(name.len() as int) =~= name);
    assert(s.subrange(name.len() as int + 1, s.len() - 1) =~= decimal_text(index));
    if let Some(inner) = field_of(json, name) {
        lemma_one_segment(inner, b);
        assert(b.last() == close);
        assert(b.take(0) =~= seq![]);
        assert(b.subrange(1, b.len() - 1) =~= decimal_text(index));
    }
}

/// An opening bracket that ends its segment, or a segment with one whose last character
/// is not in ASCII, is where a path cannot be followed; every other bracket can be.
pub proof fn law_a_bracket_needs_something_behind_it(
    json: Json,
    name: Seq<char>,
    tail: Seq<char>,
)
    requires
        !name.contains('[') && !name.contains('.'),
        !tail.contains('.'),
    ensures
        at_path(json, name + seq!['['] + tail) is None <==> tail.len() == 0 || tail.last() as u32
            > 127,
{
    let s = name + seq!['['] + tail;
    if s.contains('.') {
        let i = choose|i: int| 0 <= i < s.len() && s[i] == '.';
        if i < name.len() {
            assert(name[i] == '.');
        } else if i > name.len() {
            assert(tail[i - name.len() - 1] == '.');
        }
    }
    lemma_first_place_behind(name, '[', tail);
    lemma_one_segment(json, s);
    if tail.len() > 0 {
        assert(s.last() == tail.last());
    }
}

/// What stands between the bracket and the last character has to be a number: anything
/// else leads to nothing, a second pair of brackets too.
pub proof fn law_an_index_that_is_no_number_leads_to_nothing(
    json: Json,
    name: Seq<char>,
    index: Seq<char>,
    close: char,
)
    requires
        !name.contains('[') && !name.contains('.'),
        !index.contains('.'),
        close != '.' && close as int <= 127,
        number_in(index, usize::MAX as int) is None,
    ensures
        at_path(json, name + seq!['['] + index.push(close)) == Some(None::<Json>),
{
    let tail = index.push(close);
    let s = name + seq!['['] + tail;
    if s.contains('.') {
        let i = choose|i: int| 0 <= i < s.len() && s[i] == '.';
        if i < name.len() {
            assert(name[i] == '.');
        } else if i > name.len() {
            assert(tail[i - name.len() - 1] == '.');
            if i - name.len() - 1 < index.len() {
                assert(index[i - name.len() - 1] == '.');
            }
        }
    }
    lemma_first_place_behind(name, '[', tail);
    lemma_one_segment(json, s);
    assert(s.last() == close);
    assert(s.subrange(name.len() as int + 1, s.len() - 1) =~= index);
}

/// Whether a value is where an empty name leads: the first member of an object whose
/// name is empty, or nothing where there is none.
pub open spec fn is_at_empty_name(json: Json, found: Option<Json>) -> bool {
    match found {
        Some(v) => json matches Json::Object(members) && exists|i: int|
            0 <= i < members@.len() && (#[trigger] members@[i]).0@.len() == 0 && members@[i].1 == v
                && forall|j: int| 0 <= j < i ==> (#[trigger] members@[j]).0@.len() > 0,
        None => json matches Json::Object(members) ==> forall|i: int|
            0 <= i < members@.len() ==> (#[trigger] members@[i]).0@.len() > 0,
    }
}

proof fn lemma_empty_name(json: Json)
    ensures
        after_segments(json, seq![seq![]]) == Some(after_segment(json, seq![])),
        is_at_empty_name(json, after_segment(json, seq![])),
{
    lemma_first_place_behind(seq![], '[', seq![]);
    assert(seq![Seq::<char>::empty()].skip(1).len() == 0);
    reveal_with_fuel(after_segments, 2);
    if let Json::Object(members) = json {
        lemma_member(members@, seq![]);
        let found = member(members@, seq![]);
        assert forall|i: int| 0 <= i < members@.len() implies ((#[trigger] members@[i]).0@.len() == 0
            <==> members@[i].0@ == Seq::<char>::empty()) by {
            if members@[i].0@.len() == 0 {
                assert(members@[i].0@ =~= Seq::<char>::empty());
            }
        }
    }
}

/// A dot at the end of a path asks for a member with an empty name, and so does a dot
/// at its beginning, from which the path then goes on.
pub proof fn law_an_empty_segment_is_an_empty_name(
    json: Json,
    path: Seq<char>,
    inner: Json,
)
    requires
        path.len() > 0,
    ensures
        at_path(json, path) == Some(Some(inner)) ==> (at_path(json, path + seq!['.']) matches Some(
            found,
        ) && is_at_empty_name(inner, found)),
        exists|start: Option<Json>| #[trigger]
            is_at_empty_name(json, start) && at_path(json, seq!['.'] + path) == match start {
                Some(v) => at_path(v, path),
                None => Some(None),
            },
{
    let none = Seq::<char>::empty();
    law_a_text_is_split_at_each_separator(path, '.', none);
    law_a_text_is_split_at_each_separator(none, '.', path);
    lemma_after_segments_joined(json, split(path, '.'), split(none, '.'));
    lemma_after_segments_joined(json, split(none, '.'), split(path, '.'));
    assert(path + seq!['.'] + none =~= path + seq!['.']);
    assert(none + seq!['.'] + path =~= seq!['.'] + path);
    assert(split(none, '.') =~= seq![none]);
    lemma_empty_name(inner);
    lemma_empty_name(json);
    assert(is_at_empty_name(json, after_segment(json, none)));
}

/// A path without an opening bracket can always be followed, to a value or to nothing,
/// and the empty path leads to the value itself.
pub proof fn law_a_path_without_brackets_can_be_followed(json: Json, path: Seq<char>)
    requires
        !path.contains('['),
    ensures
        at_path(json, path) is Some,
        at_path(json, seq![]) == Some(Some(json)),
{
    if path.len() > 0 {
        lemma_no_brackets(path);
        lemma_followed(json, split(path, '.'));
    }
}

proof fn lemma_no_brackets(path: Seq<char>)
    requires
        !path.contains('['),
    ensures
        forall|i: int|
            0 <= i < split(path, '.').len() ==> !(#[trigger] split(path, '.')[i]).contains('['),
    decreases path.len(),
{
    let at = first_place(path, '.');
    lemma_before(path, '.');
    let parts = split(path, '.');
    if 0 <= at < path.len() {
        let rest = path.skip(at + 1);
        assert forall|c: char| rest.contains(c) implies path.contains(c) by {
            let i = choose|i: int| 0 <= i < rest.len() && rest[i] == c;
            assert(path[i + at + 1] == c);
        }
        lemma_no_brackets(rest);
        assert forall|i: int| 0 <= i < parts.len() implies !(#[trigger] parts[i]).contains('[') by {
            if i == 0 {
                if path.take(at).contains('[') {
                    let k = choose|k: int| 0 <= k < at && path.take(at)[k] == '[';
                    assert(path[k] == '[');
                }
            } else {
                assert(parts[i] == split(rest, '.')[i - 1]);
            }
        }
    }
}

proof fn lemma_followed(json: Json, segments: Seq<Seq<char>>)
    requires
        forall|i: int| 0 <= i < segments.len() ==> !(#[trigger] segments[i]).contains('['),
    ensures
        after_segments(json, segments) is Some,
    decreases segments.len(),
{
    if segments.len() > 0 {
        lemma_first_place_behind(segments[0], '[', seq![]);
        if let Some(inner) = after_segment(json, segments[0]) {
            assert forall|i: int| 0 <= i < segments.skip(1).len() implies !(
            #[trigger] segments.skip(1)[i]).contains('[') by {
                assert(segments.skip(1)[i] == segments[i + 1]);
            }
            lemma_followed(inner, segments.skip(1));
        }
    }
}

/// Values without parts are written as JSON writes them: a number as its own text,
/// and a text in quotation marks.
pub proof fn law_simple_values_are_written_as_themselves(json: Json)
    ensures
        match json {
            Json::Null => compact_text(json) == "null"@,
            Json::Bool(b) => compact_text(json) == (if b {
                "true"@
            } else {
                "false"@
            }),
            Json::Number(n) => compact_text(json) == n.text@,
            Json::Text(s) => compact_text(json) == quoted(s@),
            _ => true,
        },
{
}

/// A text of characters that need no escape is written as it is, between two
/// quotation marks.
pub proof fn law_a_plain_text_is_written_between_quotation_marks(s: String)
    requires
        forall|i: int| 0 <= i < s@.len() ==> (#[trigger] s@[i]) as int >= 32 && s@[i] != '"' && s@[i]
            != '\\',
    ensures
        compact_text(Json::Text(s)) == seq!['"'] + s@ + seq!['"'],
{
    lemma_plain_text(s@);
}

proof fn lemma_plain_text(s: Seq<char>)
    requires
        forall|i: int| 0 <= i < s.len() ==> (#[trigger] s[i]) as int >= 32 && s[i] != '"' && s[i]
            != '\\',
    ensures
        escaped_text(s) == s,
    decreases s.len(),
{
    if s.len() > 0 {
        let head = s.drop_last();
        assert forall|i: int| 0 <= i < head.len() implies (#[trigger] head[i]) as int >= 32 && head[i]
            != '"' && head[i] != '\\' by {
            assert(head[i] == s[i]);
        }
        lemma_plain_text(head);
        assert(s =~= head + seq![s.last()]);
        assert(escaped_text(s) =~= s);
    }
}

/// An array is written by writing its elements in their order, with commas between
/// them, in square brackets: a further element stands behind a comma before the
/// closing bracket.
pub proof fn law_an_array_is_written_element_by_element(
    none: Vec<Json>,
    items: Vec<Json>,
    longer: Vec<Json>,
    item: Json,
)
    requires
        none@.len() == 0,
        longer@ == items@.push(item),
    ensures
        compact_text(Json::Array(none)) == seq!['[', ']'],
        items@.len() == 0 ==> compact_text(Json::Array(longer)) == seq!['['] + compact_text(item)
            + seq![']'],
        items@.len() > 0 ==> compact_text(Json::Array(longer)) == compact_text(
            Json::Array(items),
        ).drop_last() + seq![','] + compact_text(item) + seq![']'],
{
    assert(compact_text(Json::Array(none)) =~= seq!['[', ']']);
    assert(longer@.drop_last() =~= items@);
    assert(longer@.last() == item);
    let open = compact_text(Json::Array(items)).drop_last();
    assert(open =~= seq!['['] + compact_items(items@));
    if items@.len() == 0 {
        assert(longer@[0] == item);
    } else {
        assert(compact_text(Json::Array(longer)) =~= open + seq![','] + compact_text(item)
            + seq![']']);
    }
}

/// An object is written by writing its members in their order, with commas between
/// them, in curly brackets: each as its quoted name, a colon and its value.
pub proof fn law_an_object_is_written_member_by_member(
    none: Vec<(String, Json)>,
    members: Vec<(String, Json)>,
    longer: Vec<(String, Json)>,
    name: String,
    value: Json,
)
    requires
        none@.len() == 0,
        longer@ == members@.push((name, value)),
    ensures
        compact_text(Json::Object(none)) == seq!['{', '}'],
        members@.len() == 0 ==> compact_text(Json::Object(longer)) == seq!['{'] + quoted(name@)
            + seq![':'] + compact_text(value) + seq!['}'],
        members@.len() > 0 ==> compact_text(Json::Object(longer)) == compact_text(
            Json::Object(members),
        ).drop_last() + seq![','] + quoted(name@) + seq![':'] + compact_text(value) + seq!['}'],
{
    assert(compact_text(Json::Object(none)) =~= seq!['{', '}']);
    assert(longer@.drop_last() =~= members@);
    assert(longer@.last() == (name, value));
    let open = compact_text(Json::Object(members)).drop_last();
    assert(open =~= seq!['{'] + compact_members(members@));
    if members@.len() == 0 {
        assert(longer@[0] == (name, value));
        assert(compact_text(Json::Object(longer)) =~= seq!['{'] + quoted(name@) + seq![':']
            + compact_text(value) + seq!['}']);
    } else {
        assert(compact_text(Json::Object(longer)) =~= open + seq![','] + quoted(name@) + seq![':']
            + compact_text(value) + seq!['}']);
    }
}

} // verus!
