use vstd::prelude::*;

verus! {

/// The optimal recognition point of a word of `word_len` characters: the
/// index of the character the eye should fix on.
pub open spec fn spec_anchor_index(word_len: nat) -> nat {
    if word_len <= 2 {
        0
    } else if word_len <= 5 {
        1
    } else if word_len <= 9 {
        2
    } else if word_len <= 13 {
        3
    } else {
        4
    }
}

/// Index of the anchor character within a word of `word_len` characters.
pub fn anchor_index(word_len: usize) -> (r: usize)
    ensures
        r == spec_anchor_index(word_len as nat),
        word_len >= 1 ==> r < word_len,
{
    if word_len <= 2 {
        0
    } else if word_len <= 5 {
        1
    } else if word_len <= 9 {
        2
    } else if word_len <= 13 {
        3
    } else {
        4
    }
}

/// The anchor never moves left as words get longer.
pub proof fn anchor_index_monotone(a: nat, b: nat)
    requires
        a <= b,
    ensures
        spec_anchor_index(a) <= spec_anchor_index(b),
{
}

/// For every non-empty word the anchor is one of its characters.
pub proof fn anchor_index_within_word(word_len: nat)
    requires
        word_len >= 1,
    ensures
        spec_anchor_index(word_len) < word_len,
{
}

} // verus!
