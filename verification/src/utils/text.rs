//! The order in which strings are sorted.
use vstd::prelude::*;

verus! {

/// Whether the rest of `left`, from `start` on, comes before the rest of
/// `right` or equals it, character by character: the first character in
/// which they differ decides, and where there is none the shorter comes first.
pub open spec fn text_le_from(left: Seq<char>, right: Seq<char>, start: int) -> bool
    decreases left.len() - start,
{
    if start >= left.len() {
        true
    } else if start >= right.len() {
        false
    } else if left[start] != right[start] {
        (left[start] as int) < (right[start] as int)
    } else {
        text_le_from(left, right, start + 1)
    }
}

/// Whether `left` comes before `right` or equals it, in the order of the
/// dictionary over the numbers of the characters.
pub open spec fn text_le(left: Seq<char>, right: Seq<char>) -> bool {
    text_le_from(left, right, 0)
}

/// Whether `left` comes before `right` or equals it.
pub fn compare_text(left: &str, right: &str) -> (ordered: bool)
    ensures
        ordered == text_le(left@, right@),
{
    let left_len = left.unicode_len();
    let right_len = right.unicode_len();
    let mut index: usize = 0;
    while index < left_len
        invariant
            index <= left_len,
            left_len == left@.len(),
            right_len == right@.len(),
            text_le(left@, right@) == text_le_from(left@, right@, index as int),
        decreases left_len - index,
    {
        if index >= right_len {
            return false;
        }
        let ours = left.get_char(index);
        let theirs = right.get_char(index);
        if ours != theirs {
            return (ours as u32) < (theirs as u32);
        }
        index += 1;
    }
    true
}

/// Whether a text begins with a prefix.
pub fn has_prefix(text: &str, prefix: &str) -> (found: bool)
    ensures
        found == prefix@.is_prefix_of(text@),
{
    let text_len = text.unicode_len();
    let prefix_len = prefix.unicode_len();
    if prefix_len > text_len {
        return false;
    }
    let mut index: usize = 0;
    while index < prefix_len
        invariant
            index <= prefix_len <= text_len,
            text_len == text@.len(),
            prefix_len == prefix@.len(),
            forall|i: int| 0 <= i < index ==> prefix@[i] == text@[i],
        decreases prefix_len - index,
    {
        if text.get_char(index) != prefix.get_char(index) {
            assert(prefix@[index as int] != text@.subrange(0, prefix@.len() as int)[index as int]);
            return false;
        }
        index += 1;
    }
    assert(prefix@ =~= text@.subrange(0, prefix@.len() as int));
    true
}

/// Of two strings one comes before the other, or they are equal.
pub proof fn lemma_text_le_total(left: Seq<char>, right: Seq<char>, start: int)
    requires
        0 <= start,
    ensures
        text_le_from(left, right, start) || text_le_from(right, left, start),
    decreases left.len() - start,
{
    if start < left.len() && start < right.len() {
        if left[start] == right[start] {
            lemma_text_le_total(left, right, start + 1);
        } else {
            assert(left[start] as int != right[start] as int);
        }
    }
}

/// What comes before a string comes before all that the string comes
/// before.
pub proof fn lemma_text_le_transitive(
    first: Seq<char>,
    second: Seq<char>,
    third: Seq<char>,
    start: int,
)
    requires
        0 <= start,
        text_le_from(first, second, start),
        text_le_from(second, third, start),
    ensures
        text_le_from(first, third, start),
    decreases first.len() - start,
{
    if start < first.len() && start < second.len() && start < third.len() && first[start]
        == second[start] && second[start] == third[start] {
        lemma_text_le_transitive(first, second, third, start + 1);
    }
}

/// A string comes before itself.
pub proof fn lemma_text_le_reflexive(text: Seq<char>, start: int)
    requires
        0 <= start,
    ensures
        text_le_from(text, text, start),
    decreases text.len() - start,
{
    if start < text.len() {
        lemma_text_le_reflexive(text, start + 1);
    }
}

/// The status code `200` comes before the word `default`: digits have
/// smaller numbers than letters.
pub proof fn lemma_code_before_default()
    ensures
        text_le("200"@, "default"@),
        !text_le("default"@, "200"@),
{
    reveal_strlit("200");
    reveal_strlit("default");
    assert("200"@[0] == '2');
    assert("default"@[0] == 'd');
}

} // verus!
