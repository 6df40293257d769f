//! What is promised of the members that an object's text is cut up into.

use crate::mcp::laws::answering::gives_name;
use crate::mcp::members::{cut_up, ended_members, find_members, member_start};
use crate::mcp::members::{members_named, place_at, separates, views, Place, Within};
use vstd::prelude::*;

verus! {

/// Where a member's text starts in the text of its object: behind the brace, and
/// behind each member before it with one comma.
pub open spec fn start_of(members: Seq<Seq<char>>, index: int) -> int
    decreases index,
{
    if index <= 0 {
        1
    } else {
        start_of(members, index - 1) + members[index - 1].len() + 1
    }
}

proof fn lemma_start_of_pushed(members: Seq<Seq<char>>, member: Seq<char>, index: int)
    requires
        0 <= index <= members.len(),
    ensures
        start_of(members.push(member), index) == start_of(members, index),
    decreases index,
{
    if index > 0 {
        lemma_start_of_pushed(members, member, index - 1);
    }
}

/// Whether a member's text stands where it starts, between two commas that separate
/// members, and no such comma is in it.
pub open spec fn stands_apart(text: Seq<char>, members: Seq<Seq<char>>, index: int) -> bool {
    let start = start_of(members, index);
    let end = start + members[index].len();
    &&& 1 <= start <= end < text.len()
    &&& text.subrange(start, end) == members[index]
    &&& index > 0 ==> separates(text, start - 1)
    &&& forall|i: int| start <= i < end ==> !(#[trigger] separates(text, i))
}

proof fn lemma_ended_members(text: Seq<char>, index: int)
    requires
        1 <= index < text.len(),
    ensures
        ({
            let ended = ended_members(text, index);
            let start = member_start(text, index);
            &&& start == start_of(ended, ended.len() as int)
            &&& 1 <= start <= index
            &&& ended.len() > 0 ==> separates(text, start - 1)
            &&& forall|i: int| start <= i < index ==> !(#[trigger] separates(text, i))
            &&& forall|k: int| 0 <= k < ended.len() ==> #[trigger] stands_apart(text, ended, k)
        }),
    decreases index,
{
    if index > 1 {
        lemma_ended_members(text, index - 1);
        if separates(text, index - 1) {
            let before = ended_members(text, index - 1);
            let start = member_start(text, index - 1);
            let member = text.subrange(start, index - 1);
            let ended = before.push(member);
            assert forall|k: int| 0 <= k < ended.len() implies #[trigger] stands_apart(
                text,
                ended,
                k,
            ) by {
                lemma_start_of_pushed(before, member, k);
                if k < before.len() {
                    assert(stands_apart(text, before, k));
                    assert(ended[k] == before[k]);
                }
            }
            lemma_start_of_pushed(before, member, before.len() as int);
        }
    }
}

/// The text of an object is its members one after the other, cut at every comma that
/// separates two of them and at no other, between its first character and its last.
pub proof fn objects_are_cut_between_their_members(
    text: &str,
    members: Vec<String>,
    index: int,
)
    requires
        call_ensures(cut_up, (text,), members),
        text@.len() >= 2,
        0 <= index < members@.len(),
    ensures
        stands_apart(text@, views(members@), index),
        start_of(views(members@), members@.len() as int) == text@.len(),
        views(members@)[index] == members@[index]@,
{
    let end = text@.len() - 1;
    let before = ended_members(text@, end);
    let last = text@.subrange(member_start(text@, end), end);
    let all = before.push(last);
    lemma_ended_members(text@, end);
    assert(views(members@) == all);
    assert(views(members@).len() == members@.len());
    lemma_start_of_pushed(before, last, index);
    lemma_start_of_pushed(before, last, before.len() as int);
    if index < before.len() {
        assert(stands_apart(text@, before, index));
        assert(all[index] == before[index]);
    }
}

/// A text of two characters or more has at least one member, and a shorter one none.
pub proof fn objects_have_a_member(text: &str, members: Vec<String>)
    requires
        call_ensures(cut_up, (text,), members),
    ensures
        members@.len() > 0 <==> text@.len() >= 2,
{
    assert(views(members@).len() == members@.len());
}

/// Members are separated by the commas inside the outermost braces alone, and no
/// comma in a string counts.
pub proof fn members_are_separated_by_commas(text: Seq<char>, index: int)
    ensures
        separates(text, index) <==> text[index] == ',' && place_at(text, index).within is Open
            && place_at(text, index).depth == 1,
{
}

/// Nothing is open before the first character.
pub proof fn texts_start_in_the_open(text: Seq<char>)
    ensures
        place_at(text, 0) == (Place { within: Within::Open, depth: 0 }),
{
}

/// A string that starts in the open goes on up to the next quote, whatever it holds
/// but quotes and backslashes, and behind that quote all is as it was before it.
pub proof fn strings_hide_what_they_hold(text: Seq<char>, start: int, end: int)
    requires
        0 <= start < end,
        place_at(text, start).within is Open,
        text[start] == '"',
        forall|i: int| start < i < end ==> #[trigger] text[i] != '"' && text[i] != '\\',
    ensures
        place_at(text, end) == (Place {
            within: Within::Quotes,
            depth: place_at(text, start).depth,
        }),
        text[end] == '"' ==> place_at(text, end + 1) == place_at(text, start),
    decreases end,
{
    if end > start + 1 {
        strings_hide_what_they_hold(text, start, end - 1);
    }
}

/// A backslash in a string takes the next character with it, whichever it is.
pub proof fn escapes_stay_in_their_string(text: Seq<char>, index: int)
    requires
        0 <= index,
        place_at(text, index).within is Quotes,
        text[index] == '\\',
    ensures
        place_at(text, index + 2) == place_at(text, index),
{
    reveal_with_fuel(place_at, 3);
}

/// A string goes on over a run without quotes and backslashes, and ends at a quote.
pub proof fn strings_go_on_up_to_their_quote(text: Seq<char>, start: int, end: int)
    requires
        0 <= start <= end,
        place_at(text, start).within is Quotes,
        forall|i: int| start <= i < end ==> #[trigger] text[i] != '"' && text[i] != '\\',
    ensures
        place_at(text, end) == place_at(text, start),
        text[end] == '"' ==> place_at(text, end + 1) == (Place {
            within: Within::Open,
            depth: place_at(text, start).depth,
        }),
    decreases end,
{
    if end > start {
        strings_go_on_up_to_their_quote(text, start, end - 1);
    }
}

/// In the open, a bracket of either kind opens or closes one level, and everything
/// else but a quote leaves the place as it is.
pub proof fn brackets_open_and_close(text: Seq<char>, index: int)
    requires
        0 <= index,
        place_at(text, index).within is Open,
        text[index] != '"',
    ensures
        place_at(text, index + 1).within is Open,
        place_at(text, index + 1).depth - place_at(text, index).depth == if text[index] == '{'
            || text[index] == '[' {
            1
        } else if (text[index] == '}' || text[index] == ']') && place_at(text, index).depth > 0 {
            -1int
        } else {
            0
        },
{
}

/// The members that are found are those of all members that are given the name, in
/// their order.
pub proof fn found_members_are_those_of_the_name(
    text: &str,
    name: &str,
    all: Vec<String>,
    members: Vec<String>,
)
    requires
        call_ensures(cut_up, (text,), all),
        call_ensures(find_members, (text, name), members),
    ensures
        views(members@) == views(all@).filter(|member: Seq<char>| gives_name(member, name@)),
{
    lemma_members_named(views(all@), name@);
}

proof fn lemma_members_named(members: Seq<Seq<char>>, name: Seq<char>)
    ensures
        members_named(members, name) == members.filter(
            |member: Seq<char>| gives_name(member, name),
        ),
    decreases members.len(),
{
    reveal(Seq::filter);
    if members.len() > 0 {
        lemma_members_named(members.drop_last(), name);
    }
}

} // verus!
