use echo_rsvp::picker::Move;
use echo_rsvp::text::is_whitespace;
use echo_rsvp::rsvp::{
    adjust_wpm, clamp_skip, end_note_position, fits_terminal, frame_budget, help_box, help_lines,
    per_word, progress_bar_parts, split_words, tick_for_event, word_layout, Focal, InputEvent, Key,
    Narration, PauseLevel, Playback, Tick, WPM_MAX, WPM_MIN,
};

#[test]
fn progress_bar_full_and_empty() {
    let (f, e) = progress_bar_parts(0, 10, 5);
    assert_eq!(format!("{f}{e}"), "░░░░░");
    let (f, e) = progress_bar_parts(10, 10, 5);
    assert_eq!(format!("{f}{e}"), "█████");
}

#[test]
fn progress_bar_handles_zero_width() {
    let (f, e) = progress_bar_parts(5, 10, 0);
    assert!(f.is_empty() && e.is_empty());
}

#[test]
fn progress_bar_partial() {
    let (f, e) = progress_bar_parts(3, 10, 10);
    assert_eq!(f, "███");
    assert_eq!(e, "░░░░░░░");
    let (f, e) = progress_bar_parts(3, 0, 10);
    assert!(f.is_empty() && e.is_empty());
}

#[test]
fn clamp_skip_respects_bounds() {
    assert_eq!(clamp_skip(5, 10, -3), 2);
    assert_eq!(clamp_skip(5, 10, -100), 0);
    assert_eq!(clamp_skip(5, 10, 100), 9);
    assert_eq!(clamp_skip(0, 1, -1), 0);
}

#[test]
fn clamp_skip_and_speed_without_overflow() {
    assert_eq!(clamp_skip(usize::MAX, 10, 5), 9);
    assert_eq!(clamp_skip(3, usize::MAX, i32::MAX), 3 + i32::MAX as usize);
    assert_eq!(adjust_wpm(u32::MAX, i32::MIN), WPM_MAX);
    assert_eq!(adjust_wpm(0, i32::MIN), WPM_MIN);
}

#[test]
fn adjust_wpm_respects_bounds() {
    assert_eq!(adjust_wpm(300, 25), 325);
    assert_eq!(adjust_wpm(WPM_MIN, -100), WPM_MIN);
    assert_eq!(adjust_wpm(WPM_MAX, 100), WPM_MAX);
}

#[test]
fn adjust_wpm_round_trip() {
    assert_eq!(adjust_wpm(adjust_wpm(300, 25), -25), 300);
    assert_eq!(adjust_wpm(adjust_wpm(1990, 25), -25), 1975);
}

#[test]
fn pause_levels_scale_correctly() {
    assert_eq!(PauseLevel::Off.multiplier("end."), 1);
    assert_eq!(PauseLevel::Off.multiplier("plain"), 1);

    assert_eq!(PauseLevel::Low.multiplier("end."), 2);
    assert_eq!(PauseLevel::Low.multiplier("list,"), 1);
    assert_eq!(PauseLevel::Low.multiplier("plain"), 1);

    assert_eq!(PauseLevel::Medium.multiplier("end."), 3);
    assert_eq!(PauseLevel::Medium.multiplier("what?"), 3);
    assert_eq!(PauseLevel::Medium.multiplier("wait!"), 3);
    assert_eq!(PauseLevel::Medium.multiplier("list,"), 2);
    assert_eq!(PauseLevel::Medium.multiplier("clause;"), 2);
    assert_eq!(PauseLevel::Medium.multiplier("colon:"), 2);
    assert_eq!(PauseLevel::Medium.multiplier("plain"), 1);

    assert_eq!(PauseLevel::High.multiplier("end."), 5);
    assert_eq!(PauseLevel::High.multiplier("list,"), 3);
    assert_eq!(PauseLevel::High.multiplier("plain"), 1);

    assert_eq!(PauseLevel::Medium.multiplier("(aside"), 1);
}

#[test]
fn punctuation_inside_a_word_does_not_pause() {
    assert_eq!(PauseLevel::High.multiplier("e.g"), 1);
    assert_eq!(PauseLevel::High.multiplier("quote.\""), 5);
    assert_eq!(PauseLevel::High.multiplier("..."), 5);
    assert_eq!(PauseLevel::High.multiplier(""), 1);
}

#[test]
fn timing() {
    assert_eq!(per_word(300), 200);
    assert_eq!(per_word(60), 1000);
    assert_eq!(per_word(7), 8571);
    assert_eq!(frame_budget(300, "end.", PauseLevel::High), 1000);
    assert_eq!(frame_budget(300, "plain", PauseLevel::High), 200);
}

#[test]
fn focal_columns() {
    assert_eq!(Focal::Left.anchor_col(80), 20);
    assert_eq!(Focal::Middle.anchor_col(80), 40);
    assert_eq!(Focal::Right.anchor_col(80), 60);
    assert_eq!(Focal::Right.anchor_col(7), 5);
}

#[test]
fn keys_map_to_ticks() {
    let key = |k: Key| InputEvent::Key { key: k, ctrl: false, release: false };
    assert_eq!(tick_for_event(key(Key::Char(' ')), false), Some(Tick::TogglePause));
    assert_eq!(tick_for_event(key(Key::Char('q')), false), Some(Tick::Quit));
    assert_eq!(tick_for_event(key(Key::Esc), false), Some(Tick::Quit));
    assert_eq!(tick_for_event(key(Key::Up), false), Some(Tick::AdjustWpm(25)));
    assert_eq!(tick_for_event(key(Key::Down), false), Some(Tick::AdjustWpm(-25)));
    assert_eq!(tick_for_event(key(Key::Left), false), Some(Tick::Skip(-1)));
    assert_eq!(tick_for_event(key(Key::Right), false), Some(Tick::Skip(1)));
    assert_eq!(tick_for_event(key(Key::Char('b')), false), Some(Tick::Skip(-10)));
    assert_eq!(tick_for_event(key(Key::PageDown), false), Some(Tick::Skip(50)));
    assert_eq!(tick_for_event(key(Key::Char('c')), false), None);
    assert_eq!(
        tick_for_event(InputEvent::Key { key: Key::Char('c'), ctrl: true, release: false }, false),
        Some(Tick::Quit)
    );
    assert_eq!(
        tick_for_event(InputEvent::Key { key: Key::Char(' '), ctrl: false, release: true }, false),
        None
    );
    assert_eq!(tick_for_event(InputEvent::Resize, true), Some(Tick::Resize));
    assert_eq!(tick_for_event(InputEvent::Other, false), None);
    assert_eq!(tick_for_event(key(Key::Esc), true), Some(Tick::CancelPicker));
    assert_eq!(tick_for_event(key(Key::Enter), true), Some(Tick::CommitPicker));
    assert_eq!(tick_for_event(key(Key::PageUp), true), Some(Tick::MovePicker(Move::JumpBack(50))));
    assert_eq!(tick_for_event(key(Key::Char('q')), true), None);
    assert_eq!(tick_for_event(key(Key::Char('/')), false), Some(Tick::OpenPicker));
}

#[test]
fn playback_runs_to_the_end_and_restarts() {
    let mut p = Playback::new(10, false, Focal::Middle);
    assert_eq!(p.wpm, WPM_MIN);
    assert_eq!(p.opening(), Narration::Start { from: 0, wpm: WPM_MIN });
    assert_eq!(p.wait_budget("word", PauseLevel::Off), Some(1000));
    let r = p.step(Tick::Advance, 2);
    assert_eq!((p.idx, p.finished, r.narration), (1, false, Narration::Keep));
    let r = p.step(Tick::Advance, 2);
    assert_eq!((p.idx, p.finished, r.narration), (1, true, Narration::Stop));
    assert!(p.blocking());
    assert_eq!(p.wait_budget("word", PauseLevel::Off), None);
    let r = p.step(Tick::TogglePause, 2);
    assert_eq!((p.idx, p.finished, p.paused), (0, false, false));
    assert_eq!(r.narration, Narration::Start { from: 0, wpm: WPM_MIN });
    let r = p.step(Tick::Quit, 2);
    assert!(r.quit && !r.redraw);
}

#[test]
fn playback_pause_help_and_speed() {
    let mut p = Playback::new(300, true, Focal::Left);
    assert_eq!(p.opening(), Narration::Keep);
    let r = p.step(Tick::TogglePause, 10);
    assert!(!p.paused);
    assert_eq!(r.narration, Narration::Start { from: 0, wpm: 300 });
    let r = p.step(Tick::AdjustWpm(25), 10);
    assert_eq!(p.wpm, 325);
    assert_eq!(r.narration, Narration::Start { from: 0, wpm: 325 });
    let r = p.step(Tick::ToggleHelp, 10);
    assert!(p.show_help);
    assert_eq!(r.narration, Narration::Stop);
    let r = p.step(Tick::ToggleHelp, 10);
    assert!(!p.show_help);
    assert_eq!(r.narration, Narration::Start { from: 0, wpm: 325 });
    let r = p.step(Tick::Skip(-3), 10);
    assert_eq!(p.idx, 0);
    assert_eq!(r.narration, Narration::Start { from: 0, wpm: 325 });
    let r = p.step(Tick::Skip(50), 10);
    assert_eq!(p.idx, 9);
    assert_eq!(r.narration, Narration::Start { from: 9, wpm: 325 });
    let r = p.step(Tick::TogglePause, 10);
    assert!(p.paused);
    assert_eq!(r.narration, Narration::Stop);
    let r = p.step(Tick::AdjustWpm(-25), 10);
    assert_eq!(r.narration, Narration::SetWpm(300));
    let r = p.step(Tick::JumpStart, 10);
    assert_eq!(p.idx, 0);
    assert_eq!(r.narration, Narration::Keep);
    let r = p.step(Tick::Resize, 10);
    assert!(r.redraw && !r.quit);
}

#[test]
fn playback_picker() {
    let mut p = Playback::new(300, false, Focal::Middle);
    p.step(Tick::Skip(4), 20);
    let r = p.step(Tick::OpenPicker, 20);
    assert_eq!(r.narration, Narration::Stop);
    assert!(p.blocking());
    p.step(Tick::MovePicker(Move::JumpForward(10)), 20);
    p.step(Tick::MovePicker(Move::Next), 20);
    assert_eq!(p.picker.as_ref().map(|q| q.cursor), Some(15));
    let r = p.step(Tick::CommitPicker, 20);
    assert_eq!((p.idx, p.paused, r.narration), (15, true, Narration::Keep));
    assert!(p.picker.is_none());
    p.step(Tick::TogglePause, 20);
    p.step(Tick::OpenPicker, 20);
    p.step(Tick::MovePicker(Move::End), 20);
    let r = p.step(Tick::CancelPicker, 20);
    assert_eq!(p.idx, 15);
    assert_eq!(r.narration, Narration::Start { from: 15, wpm: 300 });
}

#[test]
fn header_line_text() {
    let p = Playback::new(300, true, Focal::Middle);
    assert_eq!(p.header_line(4, false, 48), " echo · 300 wpm · PAUSED · 1/4 (25%) · ? help   ");
    assert_eq!(p.header_line(4, true, 10), " echo · 30");
    let mut q = Playback::new(300, false, Focal::Middle);
    q.step(Tick::Advance, 1);
    assert_eq!(q.header_line(1, true, 52), " echo · 300 wpm · DONE · 1/1 (100%) · TTS · ? help  ");
}

#[test]
fn word_layout_splits_at_anchor() {
    let l = word_layout("reading", Focal::Middle, 80, 24);
    assert_eq!((l.left.as_str(), l.anchor.as_str(), l.right.as_str()), ("re", "a", "ding"));
    assert_eq!((l.row, l.anchor_col, l.start_col), (12, 40, 38));
    assert_eq!((l.rule_start, l.rule_end, l.rule_above, l.rule_below), (30, 51, 11, 13));
    let l = word_layout("a", Focal::Left, 30, 6);
    assert_eq!((l.left.as_str(), l.anchor.as_str(), l.right.as_str()), ("", "a", ""));
    assert_eq!((l.anchor_col, l.rule_start, l.rule_end), (7, 0, 18));
    let l = word_layout("", Focal::Right, 40, 10);
    assert_eq!((l.left.as_str(), l.anchor.as_str(), l.right.as_str()), ("", "", ""));
    let l = word_layout("hi", Focal::Middle, 24, 6);
    assert_eq!((l.left.as_str(), l.anchor.as_str(), l.right.as_str()), ("", "h", "i"));
}

#[test]
fn end_note_is_centred() {
    assert_eq!(end_note_position(83, 24), (20, 20));
    assert_eq!(end_note_position(10, 3), (0, 0));
}

#[test]
fn terminal_size_limits() {
    assert!(fits_terminal(24, 6));
    assert!(!fits_terminal(23, 40));
    assert!(!fits_terminal(80, 5));
}

#[test]
fn help_box_geometry() {
    let lines = help_lines();
    assert_eq!(lines.len(), 19);
    let b = help_box(&lines, 80, 30);
    assert_eq!((b.width, b.height, b.x, b.y, b.shown), (50, 21, 15, 4, 19));
    let b = help_box(&lines, 30, 10);
    assert_eq!((b.width, b.height, b.x, b.y, b.shown), (28, 8, 1, 1, 6));
    let b = help_box(&lines, 2, 2);
    assert_eq!((b.width, b.height, b.shown), (0, 0, 0));
}

#[test]
fn words_split_on_whitespace() {
    assert_eq!(split_words("  one two\tthree\n\nfour  "), vec!["one", "two", "three", "four"]);
    assert!(split_words(" \n\t ").is_empty());
    assert_eq!(split_words("x"), vec!["x"]);
    assert_eq!(split_words("a\u{3000}b"), vec!["a", "b"]);
}

#[test]
fn whitespace_matches_std() {
    for c in 0..=0x10FFFFu32 {
        if let Some(ch) = char::from_u32(c) {
            assert_eq!(is_whitespace(ch), ch.is_whitespace(), "{c:#x}");
        }
    }
}
