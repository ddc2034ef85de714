use echo_rsvp::tts::{utf16_length, utterance, word_at_offset, TtsState};

#[test]
fn utterance_joins_words_and_records_offsets() {
    let (text, offsets) = utterance(&["hello", "wörld", "!"]);
    assert_eq!(text, "hello wörld !");
    assert_eq!(offsets, vec![0, 6, 12]);
    for (i, off) in offsets.iter().enumerate() {
        assert_eq!(word_at_offset(&offsets, *off), i);
    }
    let (text, offsets) = utterance(&["a", "😀", "b"]);
    assert_eq!(text, "a 😀 b");
    assert_eq!(offsets, vec![0, 2, 5]);
    assert_eq!(utf16_length("😀x"), 3);
    let (text, offsets) = utterance(&[]);
    assert!(text.is_empty() && offsets.is_empty());
}

#[test]
fn offsets_map_to_words() {
    let offsets = [0, 6, 13];
    assert_eq!(word_at_offset(&offsets, 5), 0);
    assert_eq!(word_at_offset(&offsets, 7), 1);
    assert_eq!(word_at_offset(&offsets, 100), 2);
    assert_eq!(word_at_offset(&[], 3), 0);
    assert_eq!(word_at_offset(&[4, 9], 2), 0);
}

#[test]
fn state_is_plain_data() {
    let s = TtsState { word_index: 3, finished: false };
    let t = s.clone();
    assert_eq!((t.word_index, t.finished), (3, false));
}
