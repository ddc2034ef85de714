use vstd::prelude::*;

use crate::picker::{move_keeps_cursor_on_a_word, moved_cursor, Move, Picker};
use crate::orp::{anchor_index, spec_anchor_index};
use crate::text::{
    alphanumeric, ascii_alphanumeric, chars_of, char_is_whitespace, decimal, is_alphanumeric, is_whitespace, padded,
    pad_right, push_decimal, push_str, repeat_char, slice_range, string_of,
};

verus! {

/// Step by which the arrow keys change the speed.
pub const WPM_STEP: u32 = 25;
/// Slowest speed, in words per minute.
pub const WPM_MIN: u32 = 60;
/// Fastest speed, in words per minute.
pub const WPM_MAX: u32 = 2000;
/// Words skipped by `b` and `f`.
pub const JUMP_WORDS: i32 = 10;
/// Narrowest terminal the reader draws in.
pub const MIN_COLS: u16 = 24;
/// Lowest terminal the reader draws in.
pub const MIN_ROWS: u16 = 6;

/// Where on the line the anchor letter sits.
#[derive(Debug, Clone, Copy, PartialEq, Eq)]
pub enum Focal {
    Left,
    Middle,
    Right,
}

/// How much longer words before a pause are shown.
#[derive(Debug, Clone, Copy, PartialEq, Eq)]
pub enum PauseLevel {
    Off,
    Low,
    Medium,
    High,
}

/// `v` bounded to `[lo, hi]`.
pub open spec fn clamp_int(v: int, lo: int, hi: int) -> int {
    if v < lo { lo } else if v > hi { hi } else { v }
}

/// The word index after skipping `delta` words from `idx` in a text of
/// `len` words: never before the first word nor past the last.
pub fn clamp_skip(idx: usize, len: usize, delta: i32) -> (r: usize)
    requires
        1 <= len,
    ensures
        r as int == clamp_int(idx + delta, 0, len - 1),
        r < len,
{
    let new: i128 = idx as i128 + delta as i128;
    let hi: i128 = (len - 1) as i128;
    if new < 0 {
        0
    } else if new > hi {
        len - 1
    } else {
        new as usize
    }
}

/// The speed after changing `wpm` by `delta`, kept within
/// [`WPM_MIN`, `WPM_MAX`].
pub fn adjust_wpm(wpm: u32, delta: i32) -> (r: u32)
    ensures
        r as int == clamp_int(wpm + delta, WPM_MIN as int, WPM_MAX as int),
        WPM_MIN <= r <= WPM_MAX,
{
    let next: i64 = wpm as i64 + delta as i64;
    if next < WPM_MIN as i64 {
        WPM_MIN
    } else if next > WPM_MAX as i64 {
        WPM_MAX
    } else {
        next as u32
    }
}

/// Milliseconds one word is shown at `wpm` words per minute.
pub open spec fn spec_per_word(wpm: nat) -> nat {
    60_000nat / wpm
}

/// How long one word is shown at `wpm` words per minute, in milliseconds.
pub fn per_word(wpm: u32) -> (ms: u64)
    requires
        wpm > 0,
    ensures
        ms as nat == spec_per_word(wpm as nat),
{
    60_000 / wpm as u64
}

impl Focal {
    /// The column the anchor letter sits in on a line `cols` wide.
    pub open spec fn spec_anchor_col(self, cols: nat) -> nat {
        match self {
            Focal::Left => cols / 4,
            Focal::Middle => cols / 2,
            Focal::Right => cols * 3 / 4,
        }
    }

    /// The column the anchor letter sits in on a line `cols` wide.
    pub fn anchor_col(self, cols: usize) -> (r: usize)
        requires
            cols * 3 <= usize::MAX,
        ensures
            r as nat == self.spec_anchor_col(cols as nat),
            r <= cols,
    {
        match self {
            Focal::Left => cols / 4,
            Focal::Middle => cols / 2,
            Focal::Right => cols * 3 / 4,
        }
    }
}

/// The run of non-alphanumeric characters that ends `s`.
pub open spec fn trailing_punctuation(s: Seq<char>) -> Seq<char>
    decreases s.len(),
{
    if s.len() == 0 || alphanumeric(s.last()) {
        seq![]
    } else {
        trailing_punctuation(s.drop_last()).push(s.last())
    }
}

/// Whether the trailing punctuation of `word` ends a sentence.
pub open spec fn ends_sentence(word: Seq<char>) -> bool {
    let t = trailing_punctuation(word);
    t.contains('.') || t.contains('!') || t.contains('?')
}

/// Whether the trailing punctuation of `word` ends a clause.
pub open spec fn ends_clause(word: Seq<char>) -> bool {
    let t = trailing_punctuation(word);
    t.contains(',') || t.contains(';') || t.contains(':')
}

impl PauseLevel {
    /// How many word-times `word` stays on screen at this pause level.
    pub open spec fn spec_multiplier(self, word: Seq<char>) -> nat {
        match self {
            PauseLevel::Off => 1,
            PauseLevel::Low => if ends_sentence(word) { 2 } else { 1 },
            PauseLevel::Medium => if ends_sentence(word) { 3 } else if ends_clause(word) { 2 } else { 1 },
            PauseLevel::High => if ends_sentence(word) { 5 } else if ends_clause(word) { 3 } else { 1 },
        }
    }

    /// How many word-times `word` stays on screen at this pause level.
    pub fn multiplier(self, word: &str) -> (r: u32)
        ensures
            r as nat == self.spec_multiplier(word@),
            1 <= r <= 5,
    {
        let tail = trailing_punctuation_of(word);
        let has_sentence = contains_char(&tail, '.') || contains_char(&tail, '!') || contains_char(&tail, '?');
        let has_clause = contains_char(&tail, ',') || contains_char(&tail, ';') || contains_char(&tail, ':');
        match self {
            PauseLevel::Off => 1,
            PauseLevel::Low => if has_sentence { 2 } else { 1 },
            PauseLevel::Medium => if has_sentence { 3 } else if has_clause { 2 } else { 1 },
            PauseLevel::High => if has_sentence { 5 } else if has_clause { 3 } else { 1 },
        }
    }
}

/// Whether `c` occurs in `v`.
fn contains_char(v: &Vec<char>, c: char) -> (r: bool)
    ensures
        r == v@.contains(c),
{
    for i in 0..v.len()
        invariant
            forall|j: int| 0 <= j < i ==> v@[j] != c,
    {
        if v[i] == c {
            return true;
        }
    }
    false
}

/// Peeling one non-alphanumeric character off the end moves it into the
/// trailing punctuation.
proof fn lemma_trailing_step(s: Seq<char>, i: int)
    requires
        0 < i <= s.len(),
        !alphanumeric(s[i - 1]),
    ensures
        trailing_punctuation(s.take(i)) == trailing_punctuation(s.take(i - 1)).push(s[i - 1]),
{
    assert(s.take(i).drop_last() =~= s.take(i - 1));
}

/// The run of non-alphanumeric characters at the end of `word`.
fn trailing_punctuation_of(word: &str) -> (t: Vec<char>)
    ensures
        t@ == trailing_punctuation(word@),
{
    let cs = chars_of(word);
    let n = cs.len();
    let mut i = n;
    assert(word@.take(n as int) =~= word@);
    assert(word@ + word@.subrange(n as int, n as int) =~= word@);
    while i > 0 && !is_alphanumeric(cs[i - 1])
        invariant
            cs@ == word@,
            n == cs@.len(),
            i <= n,
            trailing_punctuation(word@) == trailing_punctuation(word@.take(i as int)) + word@.subrange(i as int, n as int),
        decreases i,
    {
        proof {
            lemma_trailing_step(word@, i as int);
            assert(word@.subrange(i - 1, n as int) =~= seq![word@[i - 1]] + word@.subrange(i as int, n as int));
            assert(trailing_punctuation(word@.take(i - 1)).push(word@[i - 1]) + word@.subrange(i as int, n as int)
                =~= trailing_punctuation(word@.take(i - 1)) + word@.subrange(i - 1, n as int));
        }
        i = i - 1;
    }
    proof {
        assert(word@.take(n as int) =~= word@);
        if i == 0 {
            assert(word@.take(0) =~= Seq::<char>::empty());
        } else {
            assert(word@.take(i as int).last() == word@[i - 1]);
        }
        assert(trailing_punctuation(word@.take(i as int)) =~= Seq::<char>::empty());
    }
    let mut t: Vec<char> = Vec::new();
    let mut k = i;
    while k < n
        invariant
            cs@ == word@,
            n == cs@.len(),
            i <= k <= n,
            t@ == word@.subrange(i as int, k as int),
        decreases n - k,
    {
        t.push(cs[k]);
        assert(word@.subrange(i as int, k + 1) =~= word@.subrange(i as int, k as int).push(word@[k as int]));
        k = k + 1;
    }
    assert(trailing_punctuation(word@) =~= t@);
    t
}

/// How long `word` stays on screen at `wpm` with pause level `pauses`, in
/// milliseconds.
pub fn frame_budget(wpm: u32, word: &str, pauses: PauseLevel) -> (ms: u64)
    requires
        wpm > 0,
    ensures
        ms as nat == spec_per_word(wpm as nat) * pauses.spec_multiplier(word@),
{
    let m = pauses.multiplier(word);
    let p = per_word(wpm);
    assert(p * m <= 60_000 * 5) by (nonlinear_arith)
        requires p <= 60_000, m <= 5;
    p * m as u64
}


/// A key, as far as the reader tells keys apart.
#[derive(Debug, Clone, Copy, PartialEq, Eq)]
pub enum Key {
    Char(char),
    Esc,
    Enter,
    Left,
    Right,
    Up,
    Down,
    PageUp,
    PageDown,
    Home,
    End,
    Other,
}

/// A terminal input event.
#[derive(Debug, Clone, Copy, PartialEq, Eq)]
pub enum InputEvent {
    /// The terminal changed size.
    Resize,
    /// A key was pressed, repeated (`release == false`) or let go.
    Key { key: Key, ctrl: bool, release: bool },
    /// Anything else (mouse, focus, paste).
    Other,
}

/// What the reader does next.
#[derive(Debug, Clone, Copy, PartialEq, Eq)]
pub enum Tick {
    Advance,
    TogglePause,
    Skip(i32),
    JumpStart,
    AdjustWpm(i32),
    ToggleHelp,
    OpenPicker,
    CancelPicker,
    CommitPicker,
    MovePicker(Move),
    Quit,
    Resize,
}

/// The tick a key gives: in the picker, or during playback.
pub open spec fn key_tick(key: Key, ctrl: bool, in_picker: bool) -> Option<Tick> {
    if in_picker {
        match key {
            Key::Esc => Some(Tick::CancelPicker),
            Key::Enter => Some(Tick::CommitPicker),
            Key::Char(c) => if c == 'c' && ctrl {
                Some(Tick::Quit)
            } else if c == 'b' {
                Some(Tick::MovePicker(Move::JumpBack(10)))
            } else if c == 'f' {
                Some(Tick::MovePicker(Move::JumpForward(10)))
            } else {
                None
            },
            Key::Left => Some(Tick::MovePicker(Move::Prev)),
            Key::Right => Some(Tick::MovePicker(Move::Next)),
            Key::Up => Some(Tick::MovePicker(Move::Up)),
            Key::Down => Some(Tick::MovePicker(Move::Down)),
            Key::PageUp => Some(Tick::MovePicker(Move::JumpBack(50))),
            Key::PageDown => Some(Tick::MovePicker(Move::JumpForward(50))),
            Key::Home => Some(Tick::MovePicker(Move::Start)),
            Key::End => Some(Tick::MovePicker(Move::End)),
            Key::Other => None,
        }
    } else {
        match key {
            Key::Char(c) => if c == ' ' {
                Some(Tick::TogglePause)
            } else if c == 'q' {
                Some(Tick::Quit)
            } else if c == 'c' && ctrl {
                Some(Tick::Quit)
            } else if c == '?' || c == 'h' {
                Some(Tick::ToggleHelp)
            } else if c == '/' {
                Some(Tick::OpenPicker)
            } else if c == 'r' {
                Some(Tick::JumpStart)
            } else if c == 'b' {
                Some(Tick::Skip((-JUMP_WORDS) as i32))
            } else if c == 'f' {
                Some(Tick::Skip(JUMP_WORDS))
            } else {
                None
            },
            Key::Esc => Some(Tick::Quit),
            Key::Home => Some(Tick::JumpStart),
            Key::Left => Some(Tick::Skip(-1i32)),
            Key::Right => Some(Tick::Skip(1)),
            Key::PageUp => Some(Tick::Skip((-JUMP_WORDS * 5) as i32)),
            Key::PageDown => Some(Tick::Skip((JUMP_WORDS * 5) as i32)),
            Key::Up => Some(Tick::AdjustWpm(WPM_STEP as i32)),
            Key::Down => Some(Tick::AdjustWpm((-(WPM_STEP as int)) as i32)),
            Key::Enter => None,
            Key::End => None,
            Key::Other => None,
        }
    }
}

/// The tick an input event gives, if any.
pub open spec fn event_tick(ev: InputEvent, in_picker: bool) -> Option<Tick> {
    match ev {
        InputEvent::Resize => Some(Tick::Resize),
        InputEvent::Key { key, ctrl, release } => if release { None } else { key_tick(key, ctrl, in_picker) },
        InputEvent::Other => None,
    }
}

/// The tick an input event gives: resizes redraw, key releases and other
/// events are ignored, and keys map as the help screen lists.
pub fn tick_for_event(ev: InputEvent, in_picker: bool) -> (r: Option<Tick>)
    ensures
        r == event_tick(ev, in_picker),
{
    match ev {
        InputEvent::Resize => Some(Tick::Resize),
        InputEvent::Other => None,
        InputEvent::Key { key, ctrl, release } => {
            if release {
                return None;
            }
            if in_picker {
                match key {
                    Key::Esc => Some(Tick::CancelPicker),
                    Key::Enter => Some(Tick::CommitPicker),
                    Key::Char(c) => if c == 'c' && ctrl {
                        Some(Tick::Quit)
                    } else if c == 'b' {
                        Some(Tick::MovePicker(Move::JumpBack(10)))
                    } else if c == 'f' {
                        Some(Tick::MovePicker(Move::JumpForward(10)))
                    } else {
                        None
                    },
                    Key::Left => Some(Tick::MovePicker(Move::Prev)),
                    Key::Right => Some(Tick::MovePicker(Move::Next)),
                    Key::Up => Some(Tick::MovePicker(Move::Up)),
                    Key::Down => Some(Tick::MovePicker(Move::Down)),
                    Key::PageUp => Some(Tick::MovePicker(Move::JumpBack(50))),
                    Key::PageDown => Some(Tick::MovePicker(Move::JumpForward(50))),
                    Key::Home => Some(Tick::MovePicker(Move::Start)),
                    Key::End => Some(Tick::MovePicker(Move::End)),
                    Key::Other => None,
                }
            } else {
                match key {
                    Key::Char(c) => if c == ' ' {
                        Some(Tick::TogglePause)
                    } else if c == 'q' {
                        Some(Tick::Quit)
                    } else if c == 'c' && ctrl {
                        Some(Tick::Quit)
                    } else if c == '?' || c == 'h' {
                        Some(Tick::ToggleHelp)
                    } else if c == '/' {
                        Some(Tick::OpenPicker)
                    } else if c == 'r' {
                        Some(Tick::JumpStart)
                    } else if c == 'b' {
                        Some(Tick::Skip(-JUMP_WORDS))
                    } else if c == 'f' {
                        Some(Tick::Skip(JUMP_WORDS))
                    } else {
                        None
                    },
                    Key::Esc => Some(Tick::Quit),
                    Key::Home => Some(Tick::JumpStart),
                    Key::Left => Some(Tick::Skip(-1)),
                    Key::Right => Some(Tick::Skip(1)),
                    Key::PageUp => Some(Tick::Skip(-JUMP_WORDS * 5)),
                    Key::PageDown => Some(Tick::Skip(JUMP_WORDS * 5)),
                    Key::Up => Some(Tick::AdjustWpm(WPM_STEP as i32)),
                    Key::Down => Some(Tick::AdjustWpm(-(WPM_STEP as i32))),
                    Key::Enter => None,
                    Key::End => None,
                    Key::Other => None,
                }
            }
        },
    }
}


/// What to tell the narrator.
#[derive(Debug, Clone, Copy, PartialEq, Eq)]
pub enum Narration {
    /// Leave it as it is.
    Keep,
    /// Start speaking from word `from` at `wpm` words per minute.
    Start { from: usize, wpm: u32 },
    /// Use `wpm` for the next utterance.
    SetWpm(u32),
    /// Stop speaking.
    Stop,
}

/// How the reader answers a tick.
#[derive(Debug, Clone, Copy, PartialEq, Eq)]
pub struct Reaction {
    pub narration: Narration,
    pub redraw: bool,
    pub quit: bool,
}

/// The reader's playback state over a text of some number of words.
pub struct Playback {
    /// Index of the word on screen.
    pub idx: usize,
    pub paused: bool,
    pub wpm: u32,
    pub focal: Focal,
    pub show_help: bool,
    /// Playback ran past the last word.
    pub finished: bool,
    /// The word picker, while it is open.
    pub picker: Option<Picker>,
}

/// Narration from `idx` at `wpm` if playback is running, else nothing.
pub open spec fn resume(paused: bool, idx: usize, wpm: u32) -> Narration {
    if paused { Narration::Keep } else { Narration::Start { from: idx, wpm } }
}

impl Playback {
    /// The state a reader over `total` words keeps between ticks.
    pub open spec fn wf(&self, total: nat) -> bool {
        &&& self.idx < total
        &&& WPM_MIN <= self.wpm <= WPM_MAX
        &&& (self.picker matches Some(p) ==> p.cursor < total && (p.placed@.len() == 0 || p.placed@.len() == total))
    }

    /// Whether the reader sits waiting for a key (no word timer runs).
    pub open spec fn spec_blocking(&self) -> bool {
        self.finished || self.paused || self.show_help || self.picker is Some
    }

    /// Playback at the first word, speed bounded to [`WPM_MIN`, `WPM_MAX`].
    pub fn new(start_wpm: u32, start_paused: bool, focal: Focal) -> (p: Self)
        ensures
            p.idx == 0,
            p.paused == start_paused,
            p.wpm as int == clamp_int(start_wpm as int, WPM_MIN as int, WPM_MAX as int),
            p.focal == focal,
            !p.show_help,
            !p.finished,
            p.picker is None,
            forall|total: nat| total >= 1 ==> p.wf(total),
    {
        let wpm = if start_wpm < WPM_MIN { WPM_MIN } else if start_wpm > WPM_MAX { WPM_MAX } else { start_wpm };
        Playback { idx: 0, paused: start_paused, wpm, focal, show_help: false, finished: false, picker: None }
    }

    /// The narration to begin with: speak from the first word unless paused.
    pub fn opening(&self) -> (n: Narration)
        ensures
            n == resume(self.paused, self.idx, self.wpm),
    {
        if self.paused { Narration::Keep } else { Narration::Start { from: self.idx, wpm: self.wpm } }
    }

    /// Whether the reader sits waiting for a key (no word timer runs).
    pub fn blocking(&self) -> (b: bool)
        ensures
            b == self.spec_blocking(),
    {
        self.finished || self.paused || self.show_help || self.picker.is_some()
    }

    /// How long to show `word` before advancing, in milliseconds; `None`
    /// while the reader is waiting for a key.
    pub fn wait_budget(&self, word: &str, pauses: PauseLevel) -> (r: Option<u64>)
        requires
            self.wpm > 0,
        ensures
            r == (if self.spec_blocking() {
                None
            } else {
                Some((spec_per_word(self.wpm as nat) * pauses.spec_multiplier(word@)) as u64)
            }),
    {
        if self.blocking() { None } else { Some(frame_budget(self.wpm, word, pauses)) }
    }

    /// Applies `tick` to the playback of a text of `total` words and says
    /// what to do about narration, drawing and quitting.
    pub fn step(&mut self, tick: Tick, total: usize) -> (r: Reaction)
        requires
            old(self).wf(total as nat),
            1 <= total,
        ensures
            final(self).wf(total as nat),
            final(self).focal == old(self).focal,
            r.quit == (tick is Quit),
            r.redraw == !(tick is Quit),
            stepped(*old(self), *final(self), tick, total as nat, r.narration),
    {
        let total_words = total;
        match tick {
            Tick::Quit => {
                return Reaction { narration: Narration::Stop, redraw: false, quit: true };
            },
            Tick::Resize => {
                return Reaction { narration: Narration::Keep, redraw: true, quit: false };
            },
            Tick::OpenPicker => {
                self.picker = Some(Picker::new(self.idx));
                return Reaction { narration: Narration::Stop, redraw: true, quit: false };
            },
            Tick::CancelPicker => {
                self.picker = None;
                let n = self.opening();
                return Reaction { narration: n, redraw: true, quit: false };
            },
            Tick::CommitPicker => {
                match self.picker.take() {
                    Some(p) => {
                        self.idx = p.cursor;
                        self.finished = false;
                        self.paused = true;
                    },
                    None => {},
                }
                return Reaction { narration: Narration::Keep, redraw: true, quit: false };
            },
            Tick::MovePicker(m) => {
                match self.picker.take() {
                    Some(mut p) => {
                        p.move_cursor(m, total_words);
                        proof {
                            move_keeps_cursor_on_a_word(old(self).picker->0.cursor, old(self).picker->0.placed@, m, total as nat);
                        }
                        self.picker = Some(p);
                    },
                    None => {},
                }
                return Reaction { narration: Narration::Keep, redraw: true, quit: false };
            },
            Tick::ToggleHelp => {
                self.show_help = !self.show_help;
                let n = if self.show_help { Narration::Stop } else { self.opening() };
                return Reaction { narration: n, redraw: true, quit: false };
            },
            Tick::TogglePause => {
                if self.finished {
                    self.idx = 0;
                    self.finished = false;
                    self.paused = false;
                    return Reaction { narration: Narration::Start { from: 0, wpm: self.wpm }, redraw: true, quit: false };
                } else {
                    self.paused = !self.paused;
                    let n = if self.paused { Narration::Stop } else { self.opening() };
                    return Reaction { narration: n, redraw: true, quit: false };
                }
            },
            Tick::Skip(delta) => {
                self.idx = clamp_skip(self.idx, total_words, delta);
                self.finished = false;
                let n = self.opening();
                return Reaction { narration: n, redraw: true, quit: false };
            },
            Tick::JumpStart => {
                self.idx = 0;
                self.finished = false;
                let n = self.opening();
                return Reaction { narration: n, redraw: true, quit: false };
            },
            Tick::AdjustWpm(delta) => {
                self.wpm = adjust_wpm(self.wpm, delta);
                let n = if !self.paused && !self.finished {
                    Narration::Start { from: self.idx, wpm: self.wpm }
                } else {
                    Narration::SetWpm(self.wpm)
                };
                return Reaction { narration: n, redraw: true, quit: false };
            },
            Tick::Advance => {
                if self.idx + 1 >= total_words {
                    self.finished = true;
                    return Reaction { narration: Narration::Stop, redraw: true, quit: false };
                } else {
                    self.idx = self.idx + 1;
                    return Reaction { narration: Narration::Keep, redraw: true, quit: false };
                }
            },
        }
    }
}

/// Whether `new` and `n` are what a tick does to `old` over `total` words.
pub open spec fn stepped(old: Playback, new: Playback, tick: Tick, total: nat, n: Narration) -> bool {
    // fields a tick does not mention keep their value
    let same_idx = new.idx == old.idx;
    let same_paused = new.paused == old.paused;
    let same_wpm = new.wpm == old.wpm;
    let same_help = new.show_help == old.show_help;
    let same_finished = new.finished == old.finished;
    let same_picker = new.picker == old.picker;
    match tick {
        Tick::Quit | Tick::Resize => {
            &&& same_idx && same_paused && same_wpm && same_help && same_finished && same_picker
            &&& n == (if tick is Quit { Narration::Stop } else { Narration::Keep })
        },
        Tick::OpenPicker => {
            &&& same_idx && same_paused && same_wpm && same_help && same_finished
            &&& new.picker matches Some(p) && p.cursor == old.idx && p.placed@.len() == 0
                && p.row_starts@.len() == 0 && p.top_row == 0 && p.viewport_rows == 0 && p.scroll == 0
            &&& n == Narration::Stop
        },
        Tick::CancelPicker => {
            &&& same_idx && same_paused && same_wpm && same_help && same_finished
            &&& new.picker is None
            &&& n == resume(old.paused, old.idx, old.wpm)
        },
        Tick::CommitPicker => {
            &&& same_wpm && same_help
            &&& new.picker is None
            &&& n == Narration::Keep
            &&& match old.picker {
                Some(p) => new.idx == p.cursor && !new.finished && new.paused,
                None => same_idx && same_paused && same_finished,
            }
        },
        Tick::MovePicker(m) => {
            &&& same_idx && same_paused && same_wpm && same_help && same_finished
            &&& n == Narration::Keep
            &&& match old.picker {
                Some(p) => new.picker matches Some(q) && q.placed@ == p.placed@
                    && q.row_starts@ == p.row_starts@ && q.top_row == p.top_row
                    && q.viewport_rows == p.viewport_rows && q.scroll == p.scroll
                    && q.cursor as nat == moved_cursor(p.cursor, p.placed@, m, total),
                None => new.picker is None,
            }
        },
        Tick::ToggleHelp => {
            &&& same_idx && same_paused && same_wpm && same_finished && same_picker
            &&& new.show_help == !old.show_help
            &&& n == (if new.show_help { Narration::Stop } else { resume(old.paused, old.idx, old.wpm) })
        },
        Tick::TogglePause => {
            &&& same_wpm && same_help && same_picker
            &&& if old.finished {
                new.idx == 0 && !new.finished && !new.paused && n == (Narration::Start { from: 0, wpm: old.wpm })
            } else {
                &&& same_idx && same_finished
                &&& new.paused == !old.paused
                &&& n == (if new.paused { Narration::Stop } else { Narration::Start { from: old.idx, wpm: old.wpm } })
            }
        },
        Tick::Skip(delta) => {
            &&& same_paused && same_wpm && same_help && same_picker
            &&& new.idx as int == clamp_int(old.idx + delta, 0, total - 1)
            &&& !new.finished
            &&& n == resume(old.paused, new.idx, old.wpm)
        },
        Tick::JumpStart => {
            &&& same_paused && same_wpm && same_help && same_picker
            &&& new.idx == 0 && !new.finished
            &&& n == resume(old.paused, 0, old.wpm)
        },
        Tick::AdjustWpm(delta) => {
            &&& same_idx && same_paused && same_help && same_finished && same_picker
            &&& new.wpm as int == clamp_int(old.wpm + delta, WPM_MIN as int, WPM_MAX as int)
            &&& n == (if !old.paused && !old.finished {
                Narration::Start { from: old.idx, wpm: new.wpm }
            } else {
                Narration::SetWpm(new.wpm)
            })
        },
        Tick::Advance => {
            &&& same_paused && same_wpm && same_help && same_picker
            &&& if old.idx + 1 >= total {
                same_idx && new.finished && n == Narration::Stop
            } else {
                new.idx == old.idx + 1 && same_finished && n == Narration::Keep
            }
        },
    }
}


/// Whether a terminal of `cols` by `rows` cells is large enough to draw in.
pub fn fits_terminal(cols: u16, rows: u16) -> (r: bool)
    ensures
        r == (cols >= MIN_COLS && rows >= MIN_ROWS),
{
    !(cols < MIN_COLS || rows < MIN_ROWS)
}

/// The state shown in the status line.
pub open spec fn status_label(finished: bool, paused: bool) -> Seq<char> {
    if finished { "DONE"@ } else if paused { "PAUSED"@ } else { "PLAYING"@ }
}

/// How far into the text word `idx` is, in whole percent.
pub open spec fn percent(idx: nat, total: nat) -> nat {
    if total == 0 { 100 } else { (idx + 1) * 100 / total }
}

/// The status line: speed, state, position and whether narration is on.
pub open spec fn header_text(wpm: nat, finished: bool, paused: bool, idx: nat, total: nat, narrating: bool) -> Seq<char> {
    " echo · "@ + decimal(wpm) + " wpm · "@ + status_label(finished, paused) + " · "@ + decimal(idx + 1) + "/"@
        + decimal(total) + " ("@ + decimal(percent(idx, total)) + "%)"@ + (if narrating { " · TTS"@ } else { ""@ })
        + " · ? help "@
}

impl Playback {
    /// The status line for a text of `total` words, cut or padded to `cols`.
    pub fn header_line(&self, total: usize, narrating: bool, cols: usize) -> (r: String)
        requires
            (self.idx + 1) * 100 <= usize::MAX,
        ensures
            r@ == padded(
                header_text(self.wpm as nat, self.finished, self.paused, self.idx as nat, total as nat, narrating),
                cols as nat,
            ),
    {
        let pct: usize = if total == 0 { 100 } else { (self.idx + 1) * 100 / total };
        let mut h = String::new();
        push_str(&mut h, " echo · ");
        push_decimal(&mut h, self.wpm as usize);
        push_str(&mut h, " wpm · ");
        if self.finished {
            push_str(&mut h, "DONE");
        } else if self.paused {
            push_str(&mut h, "PAUSED");
        } else {
            push_str(&mut h, "PLAYING");
        }
        push_str(&mut h, " · ");
        push_decimal(&mut h, self.idx + 1);
        push_str(&mut h, "/");
        push_decimal(&mut h, total);
        push_str(&mut h, " (");
        push_decimal(&mut h, pct);
        push_str(&mut h, "%)");
        if narrating {
            push_str(&mut h, " · TTS");
        } else {
            proof {
                reveal_strlit("");
                assert(h@ + ""@ =~= h@);
            }
        }
        push_str(&mut h, " · ? help ");
        pad_right(h.as_str(), cols)
    }
}

/// Where the parts of the current word and its guide rules go on screen.
pub struct WordLayout {
    /// Screen row of the word.
    pub row: u16,
    /// Screen column of the anchor letter.
    pub anchor_col: usize,
    /// Screen column of the word's first letter.
    pub start_col: usize,
    /// First column of the guide rules.
    pub rule_start: usize,
    /// Column just past the guide rules.
    pub rule_end: usize,
    /// Row of the rule above the word.
    pub rule_above: u16,
    /// Row of the rule below the word.
    pub rule_below: u16,
    /// The letters before the anchor.
    pub left: String,
    /// The anchor letter (empty for an empty word).
    pub anchor: String,
    /// The letters after the anchor.
    pub right: String,
}

/// Half the length of a guide rule, not counting its notch.
pub const RULE_HALF: usize = 10;

/// Index of the anchor letter in a word of `len` characters.
pub open spec fn anchor_pos(len: nat) -> nat {
    let a = spec_anchor_index(len);
    if len == 0 { 0 } else if a < len - 1 { a } else { (len - 1) as nat }
}

/// `a - b`, or 0 when `b` is larger.
pub open spec fn sat_sub(a: int, b: int) -> nat {
    if a > b { (a - b) as nat } else { 0 }
}

/// Lays out `word` on a screen `cols` by `rows`, its anchor letter in the
/// column `focal` asks for.
pub fn word_layout(word: &str, focal: Focal, cols: u16, rows: u16) -> (l: WordLayout)
    ensures
        ({
            let n = word@.len();
            let a = anchor_pos(n);
            let ac = focal.spec_anchor_col(cols as nat);
            &&& l.row as nat == rows as nat / 2
            &&& l.anchor_col as nat == ac
            &&& l.start_col as nat == sat_sub(ac as int, a as int)
            &&& l.rule_start as nat == sat_sub(ac as int, RULE_HALF as int)
            &&& l.rule_end as nat == (if ac + RULE_HALF + 1 < cols { ac + RULE_HALF + 1 } else { cols as int })
            &&& l.rule_above as nat == sat_sub(l.row as int, 1)
            &&& l.rule_below == l.row + 1
            &&& l.left@ == word@.take(a as int)
            &&& l.anchor@ == (if n == 0 { Seq::<char>::empty() } else { seq![word@[a as int]] })
            &&& l.right@ == word@.subrange(if a + 1 < n { (a + 1) as int } else { n as int }, n as int)
        }),
        l.left@ + l.anchor@ + l.right@ == word@,
{
    let chars = chars_of(word);
    let n = chars.len();
    let ai = anchor_index(n);
    let a = if n == 0 { 0 } else if ai < n - 1 { ai } else { n - 1 };
    let row: u16 = rows / 2;
    let anchor_col = focal.anchor_col(cols as usize);
    let rule_start = if anchor_col > RULE_HALF { anchor_col - RULE_HALF } else { 0 };
    let rule_end = if anchor_col + RULE_HALF + 1 < cols as usize { anchor_col + RULE_HALF + 1 } else { cols as usize };
    let left_chars = slice_range(chars.as_slice(), 0, a);
    let anchor_chars = if n == 0 { slice_range(chars.as_slice(), 0, 0) } else { slice_range(chars.as_slice(), a, a + 1) };
    let right_from = if a + 1 < n { a + 1 } else { n };
    let right_chars = slice_range(chars.as_slice(), right_from, n);
    let l = WordLayout {
        row,
        anchor_col,
        start_col: if anchor_col > a { anchor_col - a } else { 0 },
        rule_start,
        rule_end,
        rule_above: if row > 1 { row - 1 } else { 0 },
        rule_below: row + 1,
        left: string_of(left_chars.as_slice()),
        anchor: string_of(anchor_chars.as_slice()),
        right: string_of(right_chars.as_slice()),
    };
    assert(word@.take(a as int) =~= word@.subrange(0, a as int));
    if n == 0 {
        assert(l.left@ + l.anchor@ + l.right@ =~= word@);
    } else {
        assert(seq![word@[a as int]] =~= word@.subrange(a as int, a + 1));
        assert(l.left@ + l.anchor@ + l.right@ =~= word@);
    }
    l
}

/// The note shown under the last word once playback is done.
pub const END_NOTE: &'static str = "— end — press space to restart, q to quit —";

/// Where the end note goes on a screen `cols` by `rows`: centred, four rows
/// from the bottom.
pub fn end_note_position(cols: u16, rows: u16) -> (r: (usize, u16))
    ensures
        r.0 as nat == sat_sub(cols as int, END_NOTE@.len() as int) / 2,
        r.1 as nat == sat_sub(rows as int, 4),
{
    let len = chars_of(END_NOTE).len();
    let col = if cols as usize > len { (cols as usize - len) / 2 } else { 0 };
    let row = if rows > 4 { rows - 4 } else { 0 };
    (col, row)
}

/// The filled and empty parts of a progress bar `width` cells wide at word
/// `cur` of `total`.
pub fn progress_bar_parts(cur: usize, total: usize, width: usize) -> (r: (String, String))
    requires
        cur * width <= usize::MAX,
        total > 0 ==> (cur * width) / (total as int) <= width,
    ensures
        width == 0 || total == 0 ==> r.0@.len() == 0 && r.1@.len() == 0,
        width > 0 && total > 0 ==> r.0@.len() + r.1@.len() == width,
        width > 0 && total > 0 ==> {
            let filled = (cur * width) / (total as int);
            &&& r.0@ == Seq::new(filled as nat, |_i: int| '█')
            &&& r.1@ == Seq::new((width - filled) as nat, |_i: int| '░')
        },
{
    if width == 0 || total == 0 {
        return (String::new(), String::new());
    }
    let filled = (cur * width) / total;
    let filled_s = repeat_char('█', filled);
    let empty_s = repeat_char('░', width - filled);
    (filled_s, empty_s)
}

/// The lines of the help screen.
pub open spec fn help_text() -> Seq<&'static str> {
    seq![
        "echo — keyboard reference",
        "",
        "space        play / pause (when done: restart)",
        "← / →        previous / next word",
        "b / f        jump back / forward 10 words",
        "PgUp/PgDn    jump back / forward 50 words",
        "r / Home     restart from first word",
        "↑ / ↓        increase / decrease wpm by 25",
        "/            open word picker",
        "? or h       toggle this help",
        "q / Esc      quit",
        "",
        "in picker:",
        "← → ↑ ↓      move cursor",
        "b / f        ± 10 words",
        "PgUp/PgDn    ± 50 words",
        "Home / End   first / last word",
        "Enter        jump playback to highlighted word",
        "Esc          cancel",
    ]
}

/// The lines of the help screen.
pub fn help_lines() -> (r: Vec<&'static str>)
    ensures
        r@ == help_text(),
{
    let r = vec![
        "echo — keyboard reference",
        "",
        "space        play / pause (when done: restart)",
        "← / →        previous / next word",
        "b / f        jump back / forward 10 words",
        "PgUp/PgDn    jump back / forward 50 words",
        "r / Home     restart from first word",
        "↑ / ↓        increase / decrease wpm by 25",
        "/            open word picker",
        "? or h       toggle this help",
        "q / Esc      quit",
        "",
        "in picker:",
        "← → ↑ ↓      move cursor",
        "b / f        ± 10 words",
        "PgUp/PgDn    ± 50 words",
        "Home / End   first / last word",
        "Enter        jump playback to highlighted word",
        "Esc          cancel",
    ];
    assert(r@ =~= help_text());
    r
}

/// The longest line among the first `k` of `lines`, in characters.
pub open spec fn longest(lines: Seq<&str>, k: nat) -> nat
    decreases k,
{
    if k == 0 {
        0
    } else {
        let m = longest(lines, (k - 1) as nat);
        let l = lines[k - 1]@.len();
        if l > m { l } else { m }
    }
}

/// The help box: its top-left corner, size, and how many lines fit in it.
#[derive(Debug, Clone, Copy, PartialEq, Eq)]
pub struct HelpBox {
    pub x: u16,
    pub y: u16,
    pub width: u16,
    pub height: u16,
    /// How many of the help lines are drawn, from the first.
    pub shown: usize,
}

/// Places a box for `lines` in the middle of a screen `cols` by `rows`:
/// two cells of margin around the text, at most the screen less two cells.
/// The box's size is kept in 16 bits, as the screen's is.
pub fn help_box(lines: &[&str], cols: u16, rows: u16) -> (b: HelpBox)
    requires
        lines@.len() + 2 <= usize::MAX,
        forall|i: int| 0 <= i < lines@.len() ==> #[trigger] lines@[i]@.len() + 4 <= usize::MAX,
    ensures
        ({
            let w = (longest(lines@, lines@.len()) + 4) % 65536;
            let h = (lines@.len() + 2) % 65536;
            let wmax = sat_sub(cols as int, 2);
            let hmax = sat_sub(rows as int, 2);
            let inner = sat_sub(sat_sub(b.height as int, 1) as int, 1);
            &&& b.width as nat == (if w < wmax { w } else { wmax })
            &&& b.height as nat == (if h < hmax { h } else { hmax })
            &&& b.x as nat == sat_sub(cols as int, b.width as int) / 2
            &&& b.y as nat == sat_sub(rows as int, b.height as int) / 2
            &&& b.shown as nat == (if lines@.len() < inner { lines@.len() } else { inner })
        }),
{
    let mut longest_len: usize = 0;
    let mut i: usize = 0;
    while i < lines.len()
        invariant
            i <= lines@.len(),
            forall|j: int| 0 <= j < lines@.len() ==> #[trigger] lines@[j]@.len() + 4 <= usize::MAX,
            longest_len as nat == longest(lines@, i as nat),
            longest_len + 4 <= usize::MAX,
        decreases lines@.len() - i,
    {
        let l = lines[i].unicode_len();
        if l > longest_len {
            longest_len = l;
        }
        i = i + 1;
    }
    let w: u16 = ((longest_len + 4) % 65536) as u16;
    let h: u16 = ((lines.len() + 2) % 65536) as u16;
    let wmax: u16 = if cols > 2 { cols - 2 } else { 0 };
    let hmax: u16 = if rows > 2 { rows - 2 } else { 0 };
    let width: u16 = if w < wmax { w } else { wmax };
    let height: u16 = if h < hmax { h } else { hmax };
    let x: u16 = if cols > width { (cols - width) / 2 } else { 0 };
    let y: u16 = if rows > height { (rows - height) / 2 } else { 0 };
    let h1: u16 = if height > 1 { height - 1 } else { 0 };
    let inner: u16 = if h1 > 1 { h1 - 1 } else { 0 };
    let shown: usize = if lines.len() < inner as usize { lines.len() } else { inner as usize };
    HelpBox { x, y, width, height, shown }
}

/// Words of `s` seen so far, and the word being read, after its first `k`
/// characters: words are the runs of characters between whitespace.
pub open spec fn words_scan(s: Seq<char>, k: nat) -> (Seq<Seq<char>>, Seq<char>)
    decreases k,
{
    if k == 0 {
        (seq![], seq![])
    } else {
        let (done, cur) = words_scan(s, (k - 1) as nat);
        let c = s[k - 1];
        if char_is_whitespace(c) {
            if cur.len() > 0 { (done.push(cur), seq![]) } else { (done, seq![]) }
        } else {
            (done, cur.push(c))
        }
    }
}

/// The words of `s`: its maximal runs of non-whitespace characters.
pub open spec fn words_of(s: Seq<char>) -> Seq<Seq<char>> {
    let (done, cur) = words_scan(s, s.len());
    if cur.len() > 0 { done.push(cur) } else { done }
}

/// Splits `text` into its whitespace-separated words.
pub fn split_words(text: &str) -> (r: Vec<String>)
    ensures
        r@.map_values(|w: String| w@) == words_of(text@),
{
    let cs = chars_of(text);
    let mut out: Vec<String> = Vec::new();
    let mut cur: Vec<char> = Vec::new();
    let mut i: usize = 0;
    while i < cs.len()
        invariant
            cs@ == text@,
            i <= cs@.len(),
            ({
                let (done, c) = words_scan(text@, i as nat);
                &&& out@.map_values(|w: String| w@) == done
                &&& cur@ == c
            }),
        decreases cs@.len() - i,
    {
        let c = cs[i];
        if is_whitespace(c) {
            if cur.len() > 0 {
                let w = string_of(cur.as_slice());
                let ghost before = out@;
                out.push(w);
                assert(out@.map_values(|w: String| w@) =~= before.map_values(|w: String| w@).push(cur@));
                cur = Vec::new();
            }
        } else {
            cur.push(c);
        }
        i = i + 1;
    }
    if cur.len() > 0 {
        let w = string_of(cur.as_slice());
        let ghost before = out@;
        out.push(w);
        assert(out@.map_values(|w: String| w@) =~= before.map_values(|w: String| w@).push(cur@));
    }
    out
}


/// Changing the speed by `delta` and back by `-delta` restores it when the
/// first change stays within [`WPM_MIN`, `WPM_MAX`].
pub proof fn adjust_wpm_undo(wpm: int, delta: int)
    requires
        WPM_MIN <= wpm <= WPM_MAX,
        WPM_MIN <= wpm + delta <= WPM_MAX,
    ensures
        clamp_int(clamp_int(wpm + delta, WPM_MIN as int, WPM_MAX as int) - delta, WPM_MIN as int, WPM_MAX as int) == wpm,
{
}

/// Pressing space twice before the end leaves the reader where it was.
pub proof fn toggle_pause_twice(s0: Playback, s1: Playback, s2: Playback, total: nat, n1: Narration, n2: Narration)
    requires
        !s0.finished,
        stepped(s0, s1, Tick::TogglePause, total, n1),
        stepped(s1, s2, Tick::TogglePause, total, n2),
    ensures
        s2.paused == s0.paused,
        s2.idx == s0.idx,
        s2.finished == s0.finished,
        s2.wpm == s0.wpm,
{
}

/// Toggling the help screen twice leaves it as it was.
pub proof fn toggle_help_twice(s0: Playback, s1: Playback, s2: Playback, total: nat, n1: Narration, n2: Narration)
    requires
        stepped(s0, s1, Tick::ToggleHelp, total, n1),
        stepped(s1, s2, Tick::ToggleHelp, total, n2),
    ensures
        s2.show_help == s0.show_help,
        s2.idx == s0.idx,
        s2.paused == s0.paused,
{
}

/// Once the text is done, space restarts playback from the first word.
pub proof fn space_restarts_when_done(s0: Playback, s1: Playback, total: nat, n: Narration)
    requires
        s0.finished,
        stepped(s0, s1, Tick::TogglePause, total, n),
    ensures
        s1.idx == 0,
        !s1.paused,
        !s1.finished,
        n == (Narration::Start { from: 0, wpm: s0.wpm }),
{
}

/// Advancing past the last word ends playback and stops the narrator.
pub proof fn advance_past_last_word_finishes(s0: Playback, s1: Playback, total: nat, n: Narration)
    requires
        s0.idx + 1 == total,
        stepped(s0, s1, Tick::Advance, total, n),
    ensures
        s1.finished,
        s1.idx == s0.idx,
        n == Narration::Stop,
{
}

/// Opening the picker and cancelling it leaves the reading position alone.
pub proof fn picker_cancel_keeps_position(s0: Playback, s1: Playback, s2: Playback, total: nat, n1: Narration, n2: Narration)
    requires
        stepped(s0, s1, Tick::OpenPicker, total, n1),
        stepped(s1, s2, Tick::CancelPicker, total, n2),
    ensures
        s2.idx == s0.idx,
        s2.paused == s0.paused,
        s2.finished == s0.finished,
        s2.picker is None,
        n2 == resume(s0.paused, s0.idx, s0.wpm),
{
}

/// Picking the word the picker opened on keeps the position and pauses.
pub proof fn picker_commit_in_place(s0: Playback, s1: Playback, s2: Playback, total: nat, n1: Narration, n2: Narration)
    requires
        stepped(s0, s1, Tick::OpenPicker, total, n1),
        stepped(s1, s2, Tick::CommitPicker, total, n2),
    ensures
        s2.idx == s0.idx,
        s2.paused,
        !s2.finished,
        s2.picker is None,
{
}

/// Longer pauses never shorten a word: the multiplier grows with the level.
pub proof fn multiplier_grows_with_level(word: Seq<char>)
    ensures
        PauseLevel::Off.spec_multiplier(word) == 1,
        PauseLevel::Off.spec_multiplier(word) <= PauseLevel::Low.spec_multiplier(word),
        PauseLevel::Low.spec_multiplier(word) <= PauseLevel::Medium.spec_multiplier(word),
        PauseLevel::Medium.spec_multiplier(word) <= PauseLevel::High.spec_multiplier(word),
{
}

/// The position shown in the status line never passes 100%.
pub proof fn percent_at_most_100(idx: nat, total: nat)
    requires
        idx < total,
    ensures
        percent(idx, total) <= 100,
{
    assert((idx + 1) * 100 <= total * 100) by (nonlinear_arith)
        requires idx + 1 <= total;
    assert((idx + 1) * 100 / total <= 100) by (nonlinear_arith)
        requires (idx + 1) * 100 <= total * 100, total > 0;
}

/// Every word of a text is non-empty and free of whitespace.
pub proof fn words_are_clean(s: Seq<char>)
    ensures
        forall|i: int| 0 <= i < words_of(s).len() ==> #[trigger] words_of(s)[i].len() > 0,
        forall|i: int, j: int| 0 <= i < words_of(s).len() && 0 <= j < words_of(s)[i].len()
            ==> !char_is_whitespace(#[trigger] words_of(s)[i][j]),
{
    lemma_words_scan_clean(s, s.len());
}

proof fn lemma_words_scan_clean(s: Seq<char>, k: nat)
    requires
        k <= s.len(),
    ensures
        ({
            let (done, cur) = words_scan(s, k);
            &&& forall|i: int| 0 <= i < done.len() ==> #[trigger] done[i].len() > 0
            &&& forall|i: int, j: int| 0 <= i < done.len() && 0 <= j < done[i].len()
                ==> !char_is_whitespace(#[trigger] done[i][j])
            &&& forall|j: int| 0 <= j < cur.len() ==> !char_is_whitespace(#[trigger] cur[j])
        }),
    decreases k,
{
    if k > 0 {
        lemma_words_scan_clean(s, (k - 1) as nat);
        let (done, cur) = words_scan(s, (k - 1) as nat);
        let c = s[k - 1];
        if !char_is_whitespace(c) {
            assert forall|j: int| 0 <= j < cur.push(c).len() implies !char_is_whitespace(#[trigger] cur.push(c)[j]) by {
                if j < cur.len() {
                    assert(cur.push(c)[j] == cur[j]);
                }
            }
        } else if cur.len() > 0 {
            let d2 = done.push(cur);
            assert forall|i: int, j: int| 0 <= i < d2.len() && 0 <= j < d2[i].len()
                implies !char_is_whitespace(#[trigger] d2[i][j]) by {
                if i < done.len() {
                    assert(d2[i] == done[i]);
                } else {
                    assert(d2[i] == cur);
                }
            }
        }
    }
}


/// The narrator is only ever started while playback runs, at the word on
/// screen and at the current speed.
pub proof fn narration_follows_playback(s0: Playback, s1: Playback, tick: Tick, total: nat, n: Narration)
    requires
        stepped(s0, s1, tick, total, n),
        n is Start,
    ensures
        !s1.paused,
        n->from == s1.idx,
        n->wpm == s1.wpm,
{
}


/// Every tick keeps the playback state well formed: the word on screen is a
/// word of the text, the speed stays within bounds, and an open picker's
/// cursor is on a word.
pub proof fn stepped_keeps_wf(s0: Playback, s1: Playback, tick: Tick, total: nat, n: Narration)
    requires
        s0.wf(total),
        stepped(s0, s1, tick, total, n),
    ensures
        s1.wf(total),
{
    if let Tick::MovePicker(m) = tick {
        if let Some(p) = s0.picker {
            move_keeps_cursor_on_a_word(p.cursor, p.placed@, m, total);
        }
    }
}

/// Whether tick `i` of a run takes state `i` to state `i + 1`.
pub open spec fn run_step(states: Seq<Playback>, ticks: Seq<Tick>, narrations: Seq<Narration>, total: nat, i: int) -> bool {
    stepped(states[i], states[i + 1], ticks[i], total, narrations[i])
}

/// Over any run of ticks from a well-formed start, every state shown is
/// well formed ([`Playback::wf`]): the status line's position `idx + 1`
/// lies in `1..=total` and the speed in [`WPM_MIN`, `WPM_MAX`].
pub proof fn run_keeps_wf(states: Seq<Playback>, ticks: Seq<Tick>, narrations: Seq<Narration>, total: nat)
    requires
        states.len() == ticks.len() + 1,
        narrations.len() == ticks.len(),
        states[0].wf(total),
        forall|i: int| 0 <= i < ticks.len() ==> #[trigger] run_step(states, ticks, narrations, total, i),
    ensures
        forall|i: int| 0 <= i < states.len() ==> #[trigger] states[i].wf(total),
{
    assert forall|i: int| 0 <= i < states.len() implies #[trigger] states[i].wf(total) by {
        lemma_run_prefix_wf(states, ticks, narrations, total, i);
    }
}

proof fn lemma_run_prefix_wf(states: Seq<Playback>, ticks: Seq<Tick>, narrations: Seq<Narration>, total: nat, i: int)
    requires
        states.len() == ticks.len() + 1,
        narrations.len() == ticks.len(),
        states[0].wf(total),
        forall|j: int| 0 <= j < ticks.len() ==> #[trigger] run_step(states, ticks, narrations, total, j),
        0 <= i < states.len(),
    ensures
        states[i].wf(total),
    decreases i,
{
    if i > 0 {
        lemma_run_prefix_wf(states, ticks, narrations, total, i - 1);
        assert(run_step(states, ticks, narrations, total, i - 1));
        stepped_keeps_wf(states[i - 1], states[i], ticks[i - 1], total, narrations[i - 1]);
    }
}


/// `r` / Home always restarts from the first word and leaves the finished
/// state, whatever state it is pressed in; the narrator restarts from the
/// first word exactly when playback is running.
pub proof fn jump_start_restarts(s0: Playback, s1: Playback, total: nat, n: Narration)
    requires
        stepped(s0, s1, Tick::JumpStart, total, n),
    ensures
        s1.idx == 0,
        !s1.finished,
        s1.paused == s0.paused,
        s1.wpm == s0.wpm,
        !s0.paused ==> n == (Narration::Start { from: 0, wpm: s0.wpm }),
        s0.paused ==> n == Narration::Keep,
{
}

/// A timer tick before the last word shows the next word and changes
/// nothing else about playback.
pub proof fn advance_shows_next_word(s0: Playback, s1: Playback, total: nat, n: Narration)
    requires
        s0.idx + 1 < total,
        stepped(s0, s1, Tick::Advance, total, n),
    ensures
        s1.idx == s0.idx + 1,
        s1.finished == s0.finished,
        s1.paused == s0.paused,
        s1.wpm == s0.wpm,
        n == Narration::Keep,
{
}

/// Skipping `delta` words and then `-delta` words comes back to the same
/// word when the first skip stays inside the text; the first skip moves
/// by exactly `delta` and clears the finished state.
pub proof fn skip_there_and_back(
    s0: Playback,
    s1: Playback,
    s2: Playback,
    delta: i32,
    back: i32,
    total: nat,
    n1: Narration,
    n2: Narration,
)
    requires
        back == -delta,
        s0.idx < total,
        0 <= s0.idx + delta < total,
        stepped(s0, s1, Tick::Skip(delta), total, n1),
        stepped(s1, s2, Tick::Skip(back), total, n2),
    ensures
        s1.idx == s0.idx + delta,
        !s1.finished,
        s2.idx == s0.idx,
        s2.paused == s0.paused,
{
}

/// A skip never leaves the text: it stops at the first or the last word.
pub proof fn skip_stops_at_the_ends(s0: Playback, s1: Playback, delta: i32, total: nat, n: Narration)
    requires
        total >= 1,
        stepped(s0, s1, Tick::Skip(delta), total, n),
    ensures
        s1.idx < total,
        s0.idx + delta < 0 ==> s1.idx == 0,
        s0.idx + delta >= total ==> s1.idx == total - 1,
{
}

/// Raising the speed by `d` and lowering it by `d` restores it when the
/// raised speed stays within bounds; each change moves the speed by exactly
/// `d` then.
pub proof fn speed_change_round_trip(
    s0: Playback,
    s1: Playback,
    s2: Playback,
    d: i32,
    back: i32,
    total: nat,
    n1: Narration,
    n2: Narration,
)
    requires
        back == -d,
        WPM_MIN <= s0.wpm <= WPM_MAX,
        WPM_MIN <= s0.wpm + d <= WPM_MAX,
        stepped(s0, s1, Tick::AdjustWpm(d), total, n1),
        stepped(s1, s2, Tick::AdjustWpm(back), total, n2),
    ensures
        s1.wpm == s0.wpm + d,
        s2.wpm == s0.wpm,
        s2.idx == s0.idx,
{
}

/// The keys of the help screen: space plays and pauses; `q`, Esc and
/// Ctrl-C quit; `?` and `h` toggle help; `/` opens the picker; `r` and Home
/// restart; the arrows step one word or change the speed by one step; `b`
/// and `f`, PgUp and PgDn jump the same distance in opposite directions,
/// forward being positive. Releasing a key does nothing.
pub proof fn playback_key_bindings(ctrl: bool)
    ensures
        key_tick(Key::Char(' '), ctrl, false) == Some(Tick::TogglePause),
        key_tick(Key::Char('q'), ctrl, false) == Some(Tick::Quit),
        key_tick(Key::Esc, ctrl, false) == Some(Tick::Quit),
        key_tick(Key::Char('c'), true, false) == Some(Tick::Quit),
        key_tick(Key::Char('c'), false, false) is None,
        key_tick(Key::Char('?'), ctrl, false) == Some(Tick::ToggleHelp),
        key_tick(Key::Char('h'), ctrl, false) == Some(Tick::ToggleHelp),
        key_tick(Key::Char('/'), ctrl, false) == Some(Tick::OpenPicker),
        key_tick(Key::Char('r'), ctrl, false) == Some(Tick::JumpStart),
        key_tick(Key::Home, ctrl, false) == Some(Tick::JumpStart),
        key_tick(Key::Left, ctrl, false) == Some(Tick::Skip(-1i32)),
        key_tick(Key::Right, ctrl, false) == Some(Tick::Skip(1i32)),
        key_tick(Key::Char('f'), ctrl, false) == Some(Tick::Skip(JUMP_WORDS)),
        key_tick(Key::Char('b'), ctrl, false) == Some(Tick::Skip((-JUMP_WORDS) as i32)),
        key_tick(Key::PageDown, ctrl, false) == Some(Tick::Skip((5 * JUMP_WORDS) as i32)),
        key_tick(Key::PageUp, ctrl, false) == Some(Tick::Skip((-5 * JUMP_WORDS) as i32)),
        key_tick(Key::Up, ctrl, false) == Some(Tick::AdjustWpm(WPM_STEP as i32)),
        key_tick(Key::Down, ctrl, false) == Some(Tick::AdjustWpm((-(WPM_STEP as int)) as i32)),
        JUMP_WORDS > 0 && WPM_STEP > 0,
        forall|key: Key, p: bool| #[trigger] event_tick(InputEvent::Key { key, ctrl, release: true }, p) is None,
        forall|p: bool| #[trigger] event_tick(InputEvent::Resize, p) == Some(Tick::Resize),
        forall|key: Key, p: bool| #[trigger] event_tick(InputEvent::Key { key, ctrl, release: false }, p)
            == key_tick(key, ctrl, p),
{
}

/// The picker's keys: Esc cancels, Enter picks, Ctrl-C quits; arrows move
/// one word or one line; `b`/`f` jump 10 words and PgUp/PgDn 50, back and
/// forward; Home and End go to the first and last word. Other letters,
/// `q` among them, do nothing there.
pub proof fn picker_key_bindings(ctrl: bool)
    ensures
        key_tick(Key::Esc, ctrl, true) == Some(Tick::CancelPicker),
        key_tick(Key::Enter, ctrl, true) == Some(Tick::CommitPicker),
        key_tick(Key::Char('c'), true, true) == Some(Tick::Quit),
        key_tick(Key::Left, ctrl, true) == Some(Tick::MovePicker(Move::Prev)),
        key_tick(Key::Right, ctrl, true) == Some(Tick::MovePicker(Move::Next)),
        key_tick(Key::Up, ctrl, true) == Some(Tick::MovePicker(Move::Up)),
        key_tick(Key::Down, ctrl, true) == Some(Tick::MovePicker(Move::Down)),
        key_tick(Key::Char('b'), ctrl, true) == Some(Tick::MovePicker(Move::JumpBack(10i32))),
        key_tick(Key::Char('f'), ctrl, true) == Some(Tick::MovePicker(Move::JumpForward(10i32))),
        key_tick(Key::PageUp, ctrl, true) == Some(Tick::MovePicker(Move::JumpBack(50i32))),
        key_tick(Key::PageDown, ctrl, true) == Some(Tick::MovePicker(Move::JumpForward(50i32))),
        key_tick(Key::Home, ctrl, true) == Some(Tick::MovePicker(Move::Start)),
        key_tick(Key::End, ctrl, true) == Some(Tick::MovePicker(Move::End)),
        key_tick(Key::Char('q'), ctrl, true) is None,
        key_tick(Key::Char(' '), ctrl, true) is None,
{
}


/// Every character of a word's trailing punctuation is a character of the
/// word.
proof fn lemma_trailing_from_word(w: Seq<char>)
    ensures
        forall|c: char| trailing_punctuation(w).contains(c) ==> w.contains(c),
    decreases w.len(),
{
    if w.len() > 0 && !alphanumeric(w.last()) {
        lemma_trailing_from_word(w.drop_last());
        let t = trailing_punctuation(w.drop_last());
        assert forall|c: char| trailing_punctuation(w).contains(c) implies w.contains(c) by {
            let i = choose|i: int| 0 <= i < t.push(w.last()).len() && t.push(w.last())[i] == c;
            if i < t.len() {
                assert(t.contains(c));
                assert(w.drop_last().contains(c));
                let j = choose|j: int| 0 <= j < w.drop_last().len() && w.drop_last()[j] == c;
                assert(w[j] == c);
            } else {
                assert(w[w.len() - 1] == c);
            }
        }
    }
}

/// A word that ends in `.`, `!` or `?` gets the sentence pause: 2, 3 and
/// 5 word-times at the low, medium and high levels, the same for all three
/// marks; with pauses off every word gets one word-time.
pub proof fn sentence_end_pause(word: Seq<char>, level: PauseLevel)
    requires
        word.len() > 0,
        word.last() == '.' || word.last() == '!' || word.last() == '?',
    ensures
        level.spec_multiplier(word) == match level {
            PauseLevel::Off => 1nat,
            PauseLevel::Low => 2nat,
            PauseLevel::Medium => 3nat,
            PauseLevel::High => 5nat,
        },
        level != PauseLevel::Off ==> level.spec_multiplier(word) > 1,
{
    let t = trailing_punctuation(word.drop_last());
    assert(!alphanumeric(word.last()));
    assert(trailing_punctuation(word) == t.push(word.last()));
    assert(t.push(word.last())[t.len() as int] == word.last());
}

/// A word that ends in `,`, `;` or `:` and holds no `.`, `!` or `?` gets
/// the clause pause: 2 and 3 word-times at the medium and high levels, none
/// extra at the low level.
pub proof fn clause_end_pause(word: Seq<char>, level: PauseLevel)
    requires
        word.len() > 0,
        word.last() == ',' || word.last() == ';' || word.last() == ':',
        !word.contains('.') && !word.contains('!') && !word.contains('?'),
    ensures
        level.spec_multiplier(word) == match level {
            PauseLevel::Off => 1nat,
            PauseLevel::Low => 1nat,
            PauseLevel::Medium => 2nat,
            PauseLevel::High => 3nat,
        },
{
    let t = trailing_punctuation(word.drop_last());
    assert(!alphanumeric(word.last()));
    assert(trailing_punctuation(word) == t.push(word.last()));
    assert(t.push(word.last())[t.len() as int] == word.last());
    lemma_trailing_from_word(word);
}

/// A word that ends in an ASCII letter or digit gets no pause, whatever
/// punctuation it holds inside.
pub proof fn plain_word_no_pause(word: Seq<char>, level: PauseLevel)
    requires
        word.len() > 0,
        ascii_alphanumeric(word.last()),
    ensures
        level.spec_multiplier(word) == 1,
{
    assert(trailing_punctuation(word) =~= Seq::<char>::empty());
}


proof fn lemma_scan_prefix(p: Seq<char>, q: Seq<char>, k: nat)
    requires
        k <= p.len(),
    ensures
        words_scan(p + q, k) == words_scan(p, k),
    decreases k,
{
    if k > 0 {
        lemma_scan_prefix(p, q, (k - 1) as nat);
        assert((p + q)[k - 1] == p[k - 1]);
    }
}

proof fn lemma_scan_append(p: Seq<char>, q: Seq<char>, j: nat)
    requires
        words_scan(p, p.len()).1.len() == 0,
        j <= q.len(),
    ensures
        words_scan(p + q, p.len() + j) == (words_scan(p, p.len()).0 + words_scan(q, j).0, words_scan(q, j).1),
    decreases j,
{
    let d = words_scan(p, p.len()).0;
    if j == 0 {
        lemma_scan_prefix(p, q, p.len());
        assert(d + Seq::<Seq<char>>::empty() =~= d);
        assert(words_scan(p, p.len()).1 =~= Seq::<char>::empty());
    } else {
        lemma_scan_append(p, q, (j - 1) as nat);
        assert((p + q)[p.len() + j - 1] == q[j - 1]);
        let (dq, cq) = words_scan(q, (j - 1) as nat);
        assert((d + dq).push(cq) =~= d + dq.push(cq));
    }
}

/// A whitespace character splits a text into two parts whose words are the
/// text's words: the words before it, then the words after it.
pub proof fn words_split_at_whitespace(a: Seq<char>, c: char, b: Seq<char>)
    requires
        char_is_whitespace(c),
    ensures
        words_of(a + seq![c] + b) == words_of(a) + words_of(b),
{
    let p = a.push(c);
    assert(a + seq![c] =~= p);
    lemma_scan_prefix(a, seq![c], a.len());
    assert(p[a.len() as int] == c);
    assert(words_scan(p, p.len()).0 == words_of(a));
    assert(words_scan(p, p.len()).1 =~= Seq::<char>::empty());
    lemma_scan_append(p, b, b.len());
    let (db, cb) = words_scan(b, b.len());
    assert((words_of(a) + db).push(cb) =~= words_of(a) + db.push(cb));
}

proof fn lemma_scan_one_word(s: Seq<char>, k: nat)
    requires
        k <= s.len(),
        forall|i: int| 0 <= i < s.len() ==> !char_is_whitespace(#[trigger] s[i]),
    ensures
        words_scan(s, k) == (Seq::<Seq<char>>::empty(), s.take(k as int)),
    decreases k,
{
    if k > 0 {
        lemma_scan_one_word(s, (k - 1) as nat);
        assert(!char_is_whitespace(s[k - 1]));
        assert(s.take(k - 1).push(s[k - 1]) =~= s.take(k as int));
    } else {
        assert(s.take(0) =~= Seq::<char>::empty());
    }
}

/// A non-empty run without whitespace is one word, exactly as written:
/// punctuation and hyphens inside it stay.
pub proof fn unbroken_text_is_one_word(s: Seq<char>)
    requires
        s.len() > 0,
        forall|i: int| 0 <= i < s.len() ==> !char_is_whitespace(#[trigger] s[i]),
    ensures
        words_of(s) == seq![s],
{
    lemma_scan_one_word(s, s.len());
    assert(s.take(s.len() as int) =~= s);
    assert(Seq::<Seq<char>>::empty().push(s) =~= seq![s]);
}

/// Text made only of whitespace, or no text, has no words.
pub proof fn blank_text_has_no_words(s: Seq<char>)
    requires
        forall|i: int| 0 <= i < s.len() ==> char_is_whitespace(#[trigger] s[i]),
    ensures
        words_of(s) == Seq::<Seq<char>>::empty(),
{
    lemma_scan_blank(s, s.len());
}

proof fn lemma_scan_blank(s: Seq<char>, k: nat)
    requires
        k <= s.len(),
        forall|i: int| 0 <= i < s.len() ==> char_is_whitespace(#[trigger] s[i]),
    ensures
        words_scan(s, k) == (Seq::<Seq<char>>::empty(), Seq::<char>::empty()),
    decreases k,
{
    if k > 0 {
        lemma_scan_blank(s, (k - 1) as nat);
        assert(char_is_whitespace(s[k - 1]));
    }
}

} // verus!
