//! What the bridge needs of strings.

use vstd::prelude::*;

verus! {

/// Whether Unicode counts a character as white space (property `White_Space`).
pub open spec fn is_white(c: char) -> bool {
    ||| '\u{9}' <= c <= '\u{d}'
    ||| c == ' '
    ||| c == '\u{85}'
    ||| c == '\u{a0}'
    ||| c == '\u{1680}'
    ||| '\u{2000}' <= c <= '\u{200a}'
    ||| c == '\u{2028}'
    ||| c == '\u{2029}'
    ||| c == '\u{202f}'
    ||| c == '\u{205f}'
    ||| c == '\u{3000}'
}

/// A text without the white space that it starts with.
pub open spec fn without_leading_white(text: Seq<char>) -> Seq<char>
    decreases text.len(),
{
    if text.len() > 0 && is_white(text[0]) {
        without_leading_white(text.drop_first())
    } else {
        text
    }
}

/// A text without the white space that it ends with.
pub open spec fn without_trailing_white(text: Seq<char>) -> Seq<char>
    decreases text.len(),
{
    if text.len() > 0 && is_white(text.last()) {
        without_trailing_white(text.drop_last())
    } else {
        text
    }
}

/// A text without the white space around it.
pub open spec fn trimmed(text: Seq<char>) -> Seq<char> {
    without_trailing_white(without_leading_white(text))
}

/// A text that starts and ends with no white space is what is left when a line of
/// it is trimmed.
pub proof fn lemma_trimmed_line(text: Seq<char>)
    requires
        text.len() > 0,
        !is_white(text[0]),
        !is_white(text.last()),
    ensures
        trimmed(text) == text,
        trimmed(text.push('\n')) == text,
{
    let line = text.push('\n');
    assert(line[0] == text[0]);
    assert(line.last() == '\n');
    assert(line.drop_last() =~= text);
    reveal_with_fuel(without_trailing_white, 2);
}

/// `str::trim`: the text without leading and trailing white space.
pub assume_specification[ str::trim ](text: &str) -> (rest: &str)
    ensures
        rest@ == trimmed(text@),
;

/// `String::push`: the character comes at the end.
pub assume_specification[ String::push ](text: &mut String, c: char)
    ensures
        final(text)@ == old(text)@.push(c),
;

/// Whether two texts are the same.
pub fn same(text: &str, other: &str) -> (equal: bool)
    ensures
        equal == (text@ == other@),
{
    text.to_owned() == other.to_owned()
}

} // verus!
