//! The members of an object, told apart in its text.
//!
//! A value of `serde_json` holds a member once, however often its text gives it.
//! Where it matters that a text gives a member once, the text is cut up here.

use crate::mcp::json;
use crate::mcp::json::json_names;
use crate::mcp::text::same;
use vstd::prelude::*;

verus! {

/// What a character of a JSON text is part of.
#[derive(Clone, Copy, PartialEq, Eq, Structural)]
pub enum Within {
    /// Nothing that hides it.
    Open,
    /// A string.
    Quotes,
    /// A string, behind a backslash.
    Escape,
}

/// What the next character is part of, and how many lists and objects are open
/// around it.
pub struct Place {
    pub within: Within,
    pub depth: nat,
}

/// The place behind a character.
pub open spec fn after(place: Place, c: char) -> Place {
    match place.within {
        Within::Escape => Place { within: Within::Quotes, depth: place.depth },
        Within::Quotes => if c == '\\' {
            Place { within: Within::Escape, depth: place.depth }
        } else if c == '"' {
            Place { within: Within::Open, depth: place.depth }
        } else {
            place
        },
        Within::Open => if c == '"' {
            Place { within: Within::Quotes, depth: place.depth }
        } else if c == '{' || c == '[' {
            Place { within: Within::Open, depth: place.depth + 1 }
        } else if (c == '}' || c == ']') && place.depth > 0 {
            Place { within: Within::Open, depth: (place.depth - 1) as nat }
        } else {
            place
        },
    }
}

/// The place before the character of that index.
pub open spec fn place_at(text: Seq<char>, index: int) -> Place
    decreases index,
{
    if index <= 0 {
        Place { within: Within::Open, depth: 0 }
    } else {
        after(place_at(text, index - 1), text[index - 1])
    }
}

/// Whether the character of that index is a comma between two members of the
/// outermost object.
pub open spec fn separates(text: Seq<char>, index: int) -> bool {
    text[index] == ',' && place_at(text, index) == (Place { within: Within::Open, depth: 1 })
}

/// Where the member starts that the character of that index belongs to.
pub open spec fn member_start(text: Seq<char>, index: int) -> int
    decreases index,
{
    if index <= 1 {
        1
    } else if separates(text, index - 1) {
        index
    } else {
        member_start(text, index - 1)
    }
}

/// The texts of the members that have ended before the character of that index.
pub open spec fn ended_members(text: Seq<char>, index: int) -> Seq<Seq<char>>
    decreases index,
{
    if index <= 1 {
        Seq::empty()
    } else if separates(text, index - 1) {
        ended_members(text, index - 1).push(
            text.subrange(member_start(text, index - 1), index - 1),
        )
    } else {
        ended_members(text, index - 1)
    }
}

/// The texts of the members of the object that a text stands for, without the
/// commas between them.
pub open spec fn member_texts(text: Seq<char>) -> Seq<Seq<char>> {
    if text.len() < 2 {
        Seq::empty()
    } else {
        let end = text.len() - 1;
        ended_members(text, end).push(text.subrange(member_start(text, end), end))
    }
}

/// The object of one member, of which this is the text.
pub open spec fn braced(member: Seq<char>) -> Seq<char> {
    seq!['{'] + member + seq!['}']
}

/// Whether a member's text gives it that name.
pub open spec fn is_named(member: Seq<char>, name: Seq<char>) -> bool {
    json_names(braced(member)) is Some && json_names(braced(member))->0.contains(name)
}

/// Those of the members that have that name.
pub open spec fn members_named(members: Seq<Seq<char>>, name: Seq<char>) -> Seq<Seq<char>>
    decreases members.len(),
{
    if members.len() == 0 {
        Seq::empty()
    } else {
        let before = members_named(members.drop_last(), name);
        if is_named(members.last(), name) {
            before.push(members.last())
        } else {
            before
        }
    }
}

/// The texts that strings hold.
pub open spec fn views(strings: Seq<String>) -> Seq<Seq<char>> {
    strings.map_values(|string: String| string@)
}

proof fn lemma_member_start(text: Seq<char>, index: int)
    ensures
        1 <= member_start(text, index),
        1 <= index ==> member_start(text, index) <= index,
    decreases index,
{
    if index > 1 && !separates(text, index - 1) {
        lemma_member_start(text, index - 1);
    }
}

/// Cuts the text of an object up into those of its members.
pub fn cut_up(text: &str) -> (members: Vec<String>)
    ensures
        views(members@) == member_texts(text@),
{
    let mut members: Vec<String> = Vec::new();
    let length: usize = text.unicode_len();
    if length < 2 {
        assert(views(members@) =~= member_texts(text@));
        return members;
    }
    let mut member = String::new();
    let mut within = Within::Open;
    let mut depth: usize = 0;
    let mut at: usize = 0;
    assert(views(members@) =~= ended_members(text@, 1));
    assert(member@ =~= text@.subrange(1, 1));
    for c in it: text.chars()
        invariant
            it.seq() == text@,
            at == it.index(),
            2 <= length == text@.len(),
            depth <= at,
            place_at(text@, at as int) == (Place { within, depth: depth as nat }),
            at < 1 ==> views(members@) == ended_members(text@, 1) && member@ == text@.subrange(
                1,
                1,
            ),
            1 <= at < length ==> views(members@) == ended_members(text@, at as int) && member@
                == text@.subrange(member_start(text@, at as int), at as int),
            at == length ==> views(members@) == ended_members(text@, length - 1) && member@
                == text@.subrange(member_start(text@, length - 1), length - 1),
    {
        proof {
            lemma_member_start(text@, at as int);
        }
        let ghost before = views(members@);
        let ghost so_far = member@;
        if 0 < at && at < length - 1 {
            if c == ',' && within == Within::Open && depth == 1 {
                members.push(member);
                member = String::new();
                assert(views(members@) =~= before.push(so_far));
                assert(member@ =~= text@.subrange(at + 1, at + 1));
            } else {
                member.push(c);
                assert(member@ =~= text@.subrange(member_start(text@, at as int), at + 1));
            }
        }
        match within {
            Within::Escape => {
                within = Within::Quotes;
            },
            Within::Quotes => {
                if c == '\\' {
                    within = Within::Escape;
                } else if c == '"' {
                    within = Within::Open;
                }
            },
            Within::Open => {
                if c == '"' {
                    within = Within::Quotes;
                } else if c == '{' || c == '[' {
                    depth += 1;
                } else if (c == '}' || c == ']') && depth > 0 {
                    depth -= 1;
                }
            },
        }
        at += 1;
    }
    let ghost before = views(members@);
    let ghost last = member@;
    members.push(member);
    assert(views(members@) =~= before.push(last));
    members
}

/// Whether a member's text gives it that name.
fn names_it(member: &str, name: &str) -> (named: bool)
    ensures
        named == is_named(member@, name@),
{
    let mut source = String::from_str("{");
    source.append(member);
    source.append("}");
    proof {
        reveal_strlit("{");
        reveal_strlit("}");
        assert(source@ =~= braced(member@));
    }
    match json::member_names(source.as_str()) {
        Some(names) => {
            let ghost held = json_names(braced(member@))->0;
            let mut next: usize = 0;
            while next < names.len()
                invariant
                    next <= names@.len(),
                    held == views(names@),
                    forall|i: int| 0 <= i < next ==> held[i] != name@,
                    json_names(braced(member@)) == Some(held),
                decreases names@.len() - next,
            {
                if same(names[next].as_str(), name) {
                    assert(held[next as int] == name@);
                    return true;
                }
                next += 1;
            }
            false
        },
        None => false,
    }
}

/// The texts of those members of an object that have that name, in their order.
pub fn find_members(text: &str, name: &str) -> (members: Vec<String>)
    ensures
        views(members@) == members_named(member_texts(text@), name@),
{
    let all = cut_up(text);
    let mut members: Vec<String> = Vec::new();
    let ghost texts = views(all@);
    let mut next: usize = 0;
    assert(views(members@) =~= members_named(texts.take(0), name@));
    while next < all.len()
        invariant
            next <= all@.len(),
            texts == views(all@),
            views(members@) == members_named(texts.take(next as int), name@),
        decreases all@.len() - next,
    {
        let ghost before = views(members@);
        assert(texts.take(next + 1).drop_last() =~= texts.take(next as int));
        assert(texts.take(next + 1).last() == all@[next as int]@);
        if names_it(all[next].as_str(), name) {
            members.push(all[next].clone());
            assert(views(members@) =~= before.push(all@[next as int]@));
        }
        next += 1;
    }
    assert(texts.take(all@.len() as int) =~= texts);
    members
}

/// Whether there is a comma in a text.
pub fn has_comma(text: &str) -> (found: bool)
    ensures
        found == text@.contains(','),
{
    for c in it: text.chars()
        invariant
            it.seq() == text@,
            forall|i: int| 0 <= i < it.index() ==> text@[i] != ',',
    {
        if c == ',' {
            assert(text@[it.index()] == ',');
            return true;
        }
    }
    false
}

proof fn lemma_no_comma_no_cut(text: Seq<char>, index: int)
    requires
        !text.contains(','),
        index < text.len(),
    ensures
        member_start(text, index) == 1,
        ended_members(text, index) == Seq::<Seq<char>>::empty(),
    decreases index,
{
    if index > 1 {
        lemma_no_comma_no_cut(text, index - 1);
        assert(text.contains(text[index - 1]));
    }
}

/// An object whose text has no comma is cut up into one member.
pub proof fn lemma_no_comma_one_member(text: Seq<char>)
    requires
        !text.contains(','),
        text.len() >= 2,
    ensures
        member_texts(text) == seq![text.subrange(1, text.len() - 1)],
{
    lemma_no_comma_no_cut(text, text.len() - 1);
    assert(member_texts(text) =~= seq![text.subrange(1, text.len() - 1)]);
}

} // verus!
