use vstd::prelude::*;

use crate::text::{chars_of, push_char, push_str};

verus! {

/// What the narrator reports back: the word it is speaking (counted from
/// the first word of the utterance) and whether it has stopped.
#[derive(Debug, Clone)]
pub struct TtsState {
    pub word_index: usize,
    pub finished: bool,
}

/// The words of `words` joined by single spaces, up to word `k`.
pub open spec fn joined(words: Seq<&str>, k: nat) -> Seq<char>
    decreases k,
{
    if k == 0 {
        seq![]
    } else if k == 1 {
        words[0]@
    } else {
        joined(words, (k - 1) as nat).push(' ') + words[k - 1]@
    }
}

/// How many UTF-16 code units encode `c`.
pub open spec fn utf16_units(c: char) -> nat {
    if (c as u32) >= 0x10000 { 2 } else { 1 }
}

/// The length of `s` in UTF-16 code units, the unit in which the speech
/// engine reports where it is in the text.
pub open spec fn utf16_len(s: Seq<char>) -> nat
    decreases s.len(),
{
    if s.len() == 0 { 0 } else { utf16_len(s.drop_last()) + utf16_units(s.last()) }
}

proof fn lemma_utf16_len_prefix(s: Seq<char>, i: int)
    requires
        0 <= i <= s.len(),
    ensures
        utf16_len(s.take(i)) <= utf16_len(s),
    decreases s.len() - i,
{
    if i < s.len() {
        lemma_utf16_len_prefix(s, i + 1);
        assert(s.take(i + 1).drop_last() =~= s.take(i));
    } else {
        assert(s.take(i) =~= s);
    }
}

/// The length of `w` in UTF-16 code units.
pub fn utf16_length(w: &str) -> (n: usize)
    requires
        utf16_len(w@) <= usize::MAX,
    ensures
        n as nat == utf16_len(w@),
{
    let cs = chars_of(w);
    let mut n: usize = 0;
    let mut i: usize = 0;
    while i < cs.len()
        invariant
            cs@ == w@,
            i <= cs@.len(),
            utf16_len(w@) <= usize::MAX,
            n as nat == utf16_len(w@.take(i as int)),
        decreases cs@.len() - i,
    {
        proof {
            lemma_utf16_len_prefix(w@, i + 1);
            assert(w@.take(i + 1).drop_last() =~= w@.take(i as int));
        }
        let u: usize = if cs[i] as u32 >= 0x10000 { 2 } else { 1 };
        n = n + u;
        i = i + 1;
    }
    assert(w@.take(cs@.len() as int) =~= w@);
    n
}

/// The length of a word in UTF-16 code units plus the space after it.
pub open spec fn stride(w: &str) -> nat {
    utf16_len(w@) + 1
}

/// The offset, in UTF-16 code units, at which word `i` starts in the
/// joined text.
pub open spec fn word_offset(words: Seq<&str>, i: nat) -> nat
    decreases i,
{
    if i == 0 { 0 } else { word_offset(words, (i - 1) as nat) + stride(words[i - 1]) }
}

/// The text one utterance speaks for `words`, and the offset at which each
/// word starts in it, counted in the UTF-16 code units the speech engine
/// reports positions in.
pub fn utterance(words: &[&str]) -> (r: (String, Vec<usize>))
    requires
        word_offset(words@, words@.len()) <= usize::MAX,
    ensures
        r.0@ == joined(words@, words@.len()),
        r.1@.len() == words@.len(),
        forall|i: int| 0 <= i < words@.len() ==> #[trigger] r.1@[i] as nat == word_offset(words@, i as nat),
{
    let mut text = String::new();
    let mut offsets: Vec<usize> = Vec::new();
    let mut off: usize = 0;
    let mut i: usize = 0;
    while i < words.len()
        invariant
            i <= words@.len(),
            word_offset(words@, words@.len()) <= usize::MAX,
            text@ == joined(words@, i as nat),
            off as nat == word_offset(words@, i as nat),
            offsets@.len() == i,
            forall|j: int| 0 <= j < i ==> #[trigger] offsets@[j] as nat == word_offset(words@, j as nat),
        decreases words@.len() - i,
    {
        proof {
            lemma_word_offset_monotone(words@, (i + 1) as nat, words@.len());
        }
        offsets.push(off);
        if i > 0 {
            push_char(&mut text, ' ');
        }
        push_str(&mut text, words[i]);
        off = off + utf16_length(words[i]) + 1;
        i = i + 1;
    }
    (text, offsets)
}

proof fn lemma_word_offset_monotone(words: Seq<&str>, i: nat, j: nat)
    requires
        i <= j,
    ensures
        word_offset(words, i) <= word_offset(words, j),
    decreases j - i,
{
    if i < j {
        lemma_word_offset_monotone(words, i, (j - 1) as nat);
    }
}

/// The last of the first `k` offsets at or before `offset`.
pub open spec fn last_at_or_before(offsets: Seq<usize>, offset: nat, k: nat) -> Option<nat>
    decreases k,
{
    if k == 0 {
        None
    } else if offsets[k - 1] <= offset {
        Some((k - 1) as nat)
    } else {
        last_at_or_before(offsets, offset, (k - 1) as nat)
    }
}

/// The word being spoken at offset `offset`: the last word that
/// starts at or before it, or the first word.
pub open spec fn spoken_word(offsets: Seq<usize>, offset: nat) -> nat {
    match last_at_or_before(offsets, offset, offsets.len()) {
        Some(i) => i,
        None => 0,
    }
}

/// Maps an offset the speech engine reports back to the word it falls in.
pub fn word_at_offset(offsets: &[usize], offset: usize) -> (r: usize)
    ensures
        r as nat == spoken_word(offsets@, offset as nat),
{
    let mut k = offsets.len();
    while k > 0
        invariant
            k <= offsets@.len(),
            last_at_or_before(offsets@, offset as nat, offsets@.len())
                == last_at_or_before(offsets@, offset as nat, k as nat),
        decreases k,
    {
        if offsets[k - 1] <= offset {
            return k - 1;
        }
        k = k - 1;
    }
    0
}

/// Whether `offsets` strictly increase.
pub open spec fn strictly_increasing(offsets: Seq<usize>) -> bool {
    forall|i: int, j: int| 0 <= i < j < offsets.len() ==> offsets[i] < offsets[j]
}

/// With strictly increasing offsets, the start of each word maps back to
/// that word.
pub proof fn word_start_maps_to_word(offsets: Seq<usize>, i: nat)
    requires
        strictly_increasing(offsets),
        i < offsets.len(),
    ensures
        spoken_word(offsets, offsets[i as int] as nat) == i,
{
    lemma_last_at_or_before(offsets, i, offsets.len());
}

proof fn lemma_last_at_or_before(offsets: Seq<usize>, i: nat, k: nat)
    requires
        strictly_increasing(offsets),
        i < k <= offsets.len(),
    ensures
        last_at_or_before(offsets, offsets[i as int] as nat, k) == Some(i),
    decreases k,
{
    if k - 1 > i {
        assert(offsets[i as int] < offsets[k - 1]);
        lemma_last_at_or_before(offsets, i, (k - 1) as nat);
    }
}

/// Word starts in an utterance strictly increase, so every word's start
/// maps back to that word.
pub proof fn utterance_offsets_map_back(words: Seq<&str>, offsets: Seq<usize>, i: nat)
    requires
        offsets.len() == words.len(),
        forall|j: int| 0 <= j < words.len() ==> #[trigger] offsets[j] as nat == word_offset(words, j as nat),
        i < words.len(),
    ensures
        spoken_word(offsets, offsets[i as int] as nat) == i,
{
    assert forall|a: int, b: int| 0 <= a < b < offsets.len() implies offsets[a] < offsets[b] by {
        lemma_word_offset_monotone(words, (a + 1) as nat, b as nat);
        assert(word_offset(words, (a + 1) as nat) == word_offset(words, a as nat) + stride(words[a]));
    }
    word_start_maps_to_word(offsets, i);
}

} // verus!
