use vstd::prelude::*;

use vstd::string::StrSliceExecFns;

use crate::text::{decimal, padded, pad_right, push_decimal, push_str};

verus! {

/// Columns left blank on each side of the word grid.
pub const MARGIN_X: u16 = 2;

/// Rows above the word grid (the title line and a blank line).
pub const HEADER_ROWS: u16 = 2;

/// Rows below the word grid (a blank line and the key legend).
pub const FOOTER_ROWS: u16 = 2;

/// The word picker: a cursor over the words of the text, and the grid the
/// words were last laid out in.
pub struct Picker {
    pub cursor: usize,
    /// For each word, its (row, column, shown width) in the grid.
    pub placed: Vec<(usize, u16, u16)>,
    /// For each grid row, the index of its first word.
    pub row_starts: Vec<usize>,
    /// The screen row of the grid's first visible row.
    pub top_row: u16,
    /// How many grid rows fit on the screen.
    pub viewport_rows: u16,
    /// The first grid row shown.
    pub scroll: usize,
}

/// A cursor movement in the picker.
#[derive(Clone, Copy, Debug, PartialEq, Eq)]
pub enum Move {
    Prev,
    Next,
    Up,
    Down,
    JumpBack(i32),
    JumpForward(i32),
    Start,
    End,
}

/// The magnitude of `n`.
pub open spec fn abs_i32(n: i32) -> nat {
    if n < 0 { (-(n as int)) as nat } else { n as nat }
}

/// `i32::unsigned_abs`, widened to `usize`.
fn unsigned_abs(n: i32) -> (r: usize)
    ensures
        r as nat == abs_i32(n),
{
    if n < 0 {
        let m: i64 = -(n as i64);
        m as usize
    } else {
        n as usize
    }
}

/// The distance between two columns.
pub open spec fn col_distance(a: int, b: int) -> nat {
    if a >= b { (a - b) as nat } else { (b - a) as nat }
}

/// The grid row one step up (`delta == -1`) or down (`delta == 1`) from
/// `row`, never above the first row.
pub open spec fn target_row(row: usize, delta: i32) -> nat {
    let t = row as int + delta as int;
    (if t < 0 { 0 } else { t }) as nat
}

/// Scans the first `k` placed words for the one on `row` nearest to column
/// `col`; on a tie the earlier word wins, and a distance of 65535 or more
/// never counts. Gives the best word so far and its distance.
pub open spec fn nearest_on_row(placed: Seq<(usize, u16, u16)>, row: nat, col: nat, k: nat) -> (Option<nat>, nat)
    decreases k,
{
    if k == 0 {
        (None, 65535)
    } else {
        let (best, best_dx) = nearest_on_row(placed, row, col, (k - 1) as nat);
        let p = placed[k - 1];
        let dx = col_distance(p.1 as int, col as int);
        if p.0 as nat == row && dx < best_dx {
            (Some((k - 1) as nat), dx)
        } else {
            (best, best_dx)
        }
    }
}

/// Where the cursor lands after moving a line up or down.
pub open spec fn line_move_target(cursor: usize, placed: Seq<(usize, u16, u16)>, delta: i32, total: nat) -> nat {
    if placed.len() == 0 {
        cursor as nat
    } else {
        let p = placed[cursor as int];
        let best = match nearest_on_row(placed, target_row(p.0, delta), p.1 as nat, placed.len()).0 {
            Some(i) => i,
            None => cursor as nat,
        };
        if best < total - 1 { best } else { (total - 1) as nat }
    }
}

/// Where the cursor lands after the move `m` among `total` words.
pub open spec fn moved_cursor(cursor: usize, placed: Seq<(usize, u16, u16)>, m: Move, total: nat) -> nat {
    if total == 0 {
        cursor as nat
    } else {
        let last = (total - 1) as nat;
        match m {
            Move::Prev => if cursor == 0 { 0 } else { (cursor - 1) as nat },
            Move::Next => if cursor + 1 < last { (cursor + 1) as nat } else { last },
            Move::JumpBack(n) => if cursor >= abs_i32(n) { (cursor - abs_i32(n)) as nat } else { 0 },
            Move::JumpForward(n) => if cursor + abs_i32(n) < last { (cursor + abs_i32(n)) as nat } else { last },
            Move::Start => 0,
            Move::End => last,
            Move::Up => line_move_target(cursor, placed, -1i32, total),
            Move::Down => line_move_target(cursor, placed, 1i32, total),
        }
    }
}

/// What `move_cursor` needs of the picker to move by `m` among `total`
/// words: a line move reads the cursor's own grid slot.
pub open spec fn can_move(cursor: usize, placed: Seq<(usize, u16, u16)>, m: Move, total: nat) -> bool {
    &&& ((m is Up || m is Down) && total > 0 && placed.len() > 0 ==> cursor < placed.len())
}

/// The width a word of `word_len` characters takes in the grid: its length
/// kept in 16 bits, cut to the usable width.
pub open spec fn display_width(word_len: nat, usable: nat) -> nat {
    let w = word_len % 65536;
    if w < usable { w } else { usable }
}

/// Greedy wrapping of the first `k` words (of `lens` characters each) into
/// rows `usable` columns wide, one space between neighbours. Gives the
/// (row, column, width) of each word, the first word of each row, and the
/// row and column where the next word would start.
pub open spec fn wrap(lens: Seq<nat>, usable: nat, k: nat) -> (Seq<(nat, nat, nat)>, Seq<nat>, nat, nat)
    decreases k,
{
    if k == 0 {
        (seq![], seq![0], 0, 0)
    } else {
        let (placed, starts, row, col) = wrap(lens, usable, (k - 1) as nat);
        let d = display_width(lens[k - 1], usable);
        let need = if col == 0 { d } else { d + 1 };
        let wraps = col + need > usable;
        let row2 = if wraps { row + 1 } else { row };
        let col2 = if wraps { 0 } else { col };
        let starts2 = if wraps { starts.push((k - 1) as nat) } else { starts };
        let start = if col2 > 0 { col2 + 1 } else { col2 };
        (placed.push((row2 as nat, start as nat, d)), starts2, row2 as nat, (start + d) as nat)
    }
}

/// The character counts of `words`.
pub open spec fn word_lens(words: Seq<&str>) -> Seq<nat> {
    words.map_values(|w: &str| w@.len())
}

/// Grid columns available to words on a screen `cols` wide.
pub open spec fn usable_cols(cols: u16) -> nat {
    if cols > 2 * MARGIN_X + 1 { (cols - 2 * MARGIN_X) as nat } else { 1 }
}

/// Grid rows visible on a screen `rows` high.
pub open spec fn viewport_rows_for(rows: u16) -> nat {
    if rows > HEADER_ROWS + FOOTER_ROWS + 1 { (rows - HEADER_ROWS - FOOTER_ROWS) as nat } else { 1 }
}

/// The first visible row after scrolling just enough to show `cur_row`.
pub open spec fn scrolled(scroll: nat, cur_row: nat, viewport: nat) -> nat {
    if cur_row < scroll {
        cur_row
    } else if cur_row >= scroll + viewport {
        (cur_row + 1 - viewport) as nat
    } else {
        scroll
    }
}

/// Whether the exec triples equal the spec triples.
pub open spec fn same_placement(a: Seq<(usize, u16, u16)>, b: Seq<(nat, nat, nat)>) -> bool {
    &&& a.len() == b.len()
    &&& forall|i: int| 0 <= i < a.len() ==> {
        &&& a[i].0 as nat == b[i].0
        &&& a[i].1 as nat == b[i].1
        &&& a[i].2 as nat == b[i].2
    }
}

/// The picker's title line: position, count and percentage.
pub open spec fn picker_title_text(cursor: nat, total: nat) -> Seq<char> {
    let pct: nat = if total == 0 { 100 } else { (cursor + 1) * 100 / total };
    " pick a word — "@ + decimal(cursor + 1) + "/"@ + decimal(total) + " ("@ + decimal(pct)
        + "%) — ↵ jump · Esc cancel "@
}

/// The picker's title line, cut or padded to `cols` characters.
pub fn picker_title(cursor: usize, total: usize, cols: u16) -> (r: String)
    requires
        (cursor + 1) * 100 <= usize::MAX,
    ensures
        r@ == padded(picker_title_text(cursor as nat, total as nat), cols as nat),
{
    let pct: usize = if total == 0 { 100 } else { (cursor + 1) * 100 / total };
    let mut t = String::new();
    push_str(&mut t, " pick a word — ");
    push_decimal(&mut t, cursor + 1);
    push_str(&mut t, "/");
    push_decimal(&mut t, total);
    push_str(&mut t, " (");
    push_decimal(&mut t, pct);
    push_str(&mut t, "%) — ↵ jump · Esc cancel ");
    pad_right(t.as_str(), cols as usize)
}

impl Picker {
    /// A picker whose cursor is on word `start_idx`, not yet laid out.
    pub fn new(start_idx: usize) -> (p: Self)
        ensures
            p.cursor == start_idx,
            p.placed@.len() == 0,
            p.row_starts@.len() == 0,
            p.top_row == 0,
            p.viewport_rows == 0,
            p.scroll == 0,
    {
        Picker {
            cursor: start_idx,
            placed: Vec::new(),
            row_starts: Vec::new(),
            top_row: 0,
            viewport_rows: 0,
            scroll: 0,
        }
    }

    /// Lays the words out in a grid for a screen of `cols` by `rows` cells
    /// and scrolls so that the cursor's word is visible.
    pub fn layout(&mut self, words: &[&str], cols: u16, rows: u16)
        requires
            old(self).cursor < words@.len(),
        ensures
            final(self).cursor == old(self).cursor,
            final(self).placed@.len() == words@.len(),
            ({
                let (placed, starts, _r, _c) = wrap(word_lens(words@), usable_cols(cols), words@.len());
                &&& same_placement(final(self).placed@, placed)
                &&& final(self).row_starts@.map_values(|i: usize| i as nat) == starts
            }),
            final(self).top_row == HEADER_ROWS,
            final(self).viewport_rows as nat == viewport_rows_for(rows),
            final(self).scroll as nat == scrolled(
                old(self).scroll as nat,
                final(self).placed@[old(self).cursor as int].0 as nat,
                viewport_rows_for(rows),
            ),
            // every word fits in the usable width
            forall|i: int| 0 <= i < final(self).placed@.len() ==>
                #[trigger] final(self).placed@[i].1 + final(self).placed@[i].2 <= usable_cols(cols),
            // words run left to right without overlapping; a new row starts at the left edge
            forall|j: int| 0 < j < final(self).placed@.len() ==> {
                let (r0, c0, w0) = #[trigger] final(self).placed@[j - 1];
                let (r1, c1, _w1) = final(self).placed@[j];
                ||| r1 == r0 && c1 >= c0 + w0
                ||| r1 == r0 + 1 && c1 == 0
            },
            // row `r` begins with word `row_starts[r]`
            final(self).row_starts@.len() >= 1,
            final(self).row_starts@[0] == 0,
            forall|r: int| 0 < r < final(self).row_starts@.len() ==> {
                let k = #[trigger] final(self).row_starts@[r] as int;
                &&& 0 < k < final(self).placed@.len()
                &&& final(self).placed@[k].0 == r
                &&& final(self).placed@[k].1 == 0
                &&& final(self).placed@[k - 1].0 == r - 1
            },
            // the cursor's word is on screen
            final(self).scroll <= final(self).placed@[final(self).cursor as int].0
                < final(self).scroll + final(self).viewport_rows,
    {
        let usable: u16 = if cols > 2 * MARGIN_X + 1 { cols - 2 * MARGIN_X } else { 1 };
        let viewport: u16 = if rows > HEADER_ROWS + FOOTER_ROWS + 1 { rows - HEADER_ROWS - FOOTER_ROWS } else { 1 };
        self.top_row = HEADER_ROWS;
        self.viewport_rows = viewport;
        let ghost lens = word_lens(words@);
        let mut placed: Vec<(usize, u16, u16)> = Vec::new();
        let mut starts: Vec<usize> = Vec::new();
        starts.push(0);
        let mut row: usize = 0;
        let mut col: u16 = 0;
        let mut i: usize = 0;
        while i < words.len()
            invariant
                i <= words@.len(),
                lens == word_lens(words@),
                usable as nat == usable_cols(cols),
                ({
                    let (sp, ss, sr, sc) = wrap(lens, usable as nat, i as nat);
                    &&& same_placement(placed@, sp)
                    &&& starts@.map_values(|j: usize| j as nat) == ss
                    &&& row as nat == sr
                    &&& col as nat == sc
                }),
                placed@.len() == i,
                usable >= 1,
                col <= usable,
                i == 0 ==> col == 0,
                i == 0 || row < i,
                forall|j: int| 0 <= j < placed@.len() ==> #[trigger] placed@[j].1 + placed@[j].2 <= usable,
                i > 0 ==> row == placed@[i - 1].0 && col == placed@[i - 1].1 + placed@[i - 1].2,
                starts@.len() == row + 1,
                starts@[0] == 0,
                forall|r: int| 0 < r < starts@.len() ==> {
                    let k = #[trigger] starts@[r] as int;
                    &&& 0 < k < placed@.len()
                    &&& placed@[k].0 == r
                    &&& placed@[k].1 == 0
                    &&& placed@[k - 1].0 == r - 1
                },
                forall|j: int| 0 < j < placed@.len() ==> {
                    let (r0, c0, w0) = #[trigger] placed@[j - 1];
                    let (r1, c1, _w1) = placed@[j];
                    ||| r1 == r0 && c1 >= c0 + w0
                    ||| r1 == r0 + 1 && c1 == 0
                },
            decreases words@.len() - i,
        {
            let n = words[i].unicode_len();
            let wlen: u16 = (n % 65536) as u16;
            let d: u16 = if wlen < usable { wlen } else { usable };
            let need: u32 = if col == 0 { d as u32 } else { d as u32 + 1 };
            let ghost old_starts = starts@;
            if col as u32 + need > usable as u32 {
                row = row + 1;
                col = 0;
                starts.push(i);
                assert(starts@.map_values(|j: usize| j as nat) =~= old_starts.map_values(|j: usize| j as nat).push(i as nat));
            }
            if col > 0 {
                col = col + 1;
            }
            placed.push((row, col, d));
            col = col + d;
            i = i + 1;
        }
        self.placed = placed;
        self.row_starts = starts;
        let cur_row = self.placed[self.cursor].0;
        if cur_row < self.scroll {
            self.scroll = cur_row;
        } else if cur_row - self.scroll >= viewport as usize {
            self.scroll = cur_row - (viewport as usize - 1);
        }
    }

    /// Screen (column, row) of word `i`, if its grid row is visible.
    pub fn screen_position(&self, i: usize) -> (r: Option<(usize, usize)>)
        requires
            i < self.placed@.len(),
        ensures
            ({
                let (row, col, _w) = self.placed@[i as int];
                if self.scroll <= row < self.scroll + self.viewport_rows {
                    r == Some(((MARGIN_X + col) as usize, (HEADER_ROWS + row - self.scroll) as usize))
                } else {
                    r is None
                }
            }),
    {
        let (row, col, _w) = self.placed[i];
        if row >= self.scroll && row - self.scroll < self.viewport_rows as usize {
            Some((MARGIN_X as usize + col as usize, HEADER_ROWS as usize + (row - self.scroll)))
        } else {
            None
        }
    }

    /// Moves the cursor by `m` among `total` words; nothing happens when
    /// there are no words.
    pub fn move_cursor(&mut self, m: Move, total: usize)
        requires
            can_move(old(self).cursor, old(self).placed@, m, total as nat),
        ensures
            final(self).cursor as nat == moved_cursor(old(self).cursor, old(self).placed@, m, total as nat),
            final(self).placed@ == old(self).placed@,
            final(self).row_starts@ == old(self).row_starts@,
            final(self).top_row == old(self).top_row,
            final(self).viewport_rows == old(self).viewport_rows,
            final(self).scroll == old(self).scroll,
    {
        if total == 0 {
            return;
        }
        let last = total - 1;
        let c = self.cursor;
        let next = match m {
            Move::Prev => if c == 0 { 0 } else { c - 1 },
            Move::Next => if c < last { c + 1 } else { last },
            Move::JumpBack(n) => {
                let a = unsigned_abs(n);
                if c >= a { c - a } else { 0 }
            },
            Move::JumpForward(n) => {
                let a = unsigned_abs(n);
                if c >= last || a >= last - c { last } else { c + a }
            },
            Move::Start => 0,
            Move::End => last,
            Move::Up => self.cursor_on_line_delta(-1, total),
            Move::Down => self.cursor_on_line_delta(1, total),
        };
        self.cursor = next;
    }

    /// The word on the row `delta` lines away that is nearest in column to
    /// the cursor's word; the cursor itself when there is none.
    pub fn cursor_on_line_delta(&self, delta: i32, total: usize) -> (r: usize)
        requires
            total >= 1,
            delta == 1 || delta == -1,
            self.placed@.len() > 0 ==> self.cursor < self.placed@.len(),
        ensures
            r as nat == line_move_target(self.cursor, self.placed@, delta, total as nat),
    {
        if self.placed.len() == 0 {
            return self.cursor;
        }
        let (cur_row, cur_col, _w) = self.placed[self.cursor];
        if delta > 0 && cur_row == usize::MAX {
            // no grid row lies below the last representable one
            proof {
                nearest_on_row_is_nearest(self.placed@, target_row(cur_row, delta), cur_col as nat, self.placed@.len());
            }
            return if self.cursor < total - 1 { self.cursor } else { total - 1 };
        }
        let target: usize = if delta < 0 { if cur_row == 0 { 0 } else { cur_row - 1 } } else { cur_row + 1 };
        assert(target as nat == target_row(cur_row, delta));
        let mut best = self.cursor;
        let mut best_dx: u16 = 65535;
        let mut i: usize = 0;
        while i < self.placed.len()
            invariant
                i <= self.placed@.len(),
                ({
                    let (b, d) = nearest_on_row(self.placed@, target as nat, cur_col as nat, i as nat);
                    &&& best_dx as nat == d
                    &&& best as nat == match b { Some(j) => j, None => self.cursor as nat }
                }),
            decreases self.placed@.len() - i,
        {
            let (r, c, _w) = self.placed[i];
            if r == target {
                let dx: u16 = if c >= cur_col { c - cur_col } else { cur_col - c };
                if dx < best_dx {
                    best_dx = dx;
                    best = i;
                }
            }
            i = i + 1;
        }
        if best < total - 1 { best } else { total - 1 }
    }
}


/// Moving a line up or down lands on the word of that row nearest in
/// column (the first of equally near ones); when the row holds no word
/// within reach, the cursor stays.
pub proof fn nearest_on_row_is_nearest(placed: Seq<(usize, u16, u16)>, row: nat, col: nat, k: nat)
    requires
        k <= placed.len(),
    ensures
        ({
            let (best, dx) = nearest_on_row(placed, row, col, k);
            match best {
                Some(i) => {
                    &&& i < k
                    &&& placed[i as int].0 as nat == row
                    &&& col_distance(placed[i as int].1 as int, col as int) == dx
                    &&& forall|j: int| 0 <= j < k && placed[j].0 as nat == row
                        ==> col_distance(placed[j].1 as int, col as int) >= dx
                    &&& forall|j: int| 0 <= j < i && placed[j].0 as nat == row
                        ==> col_distance(placed[j].1 as int, col as int) > dx
                },
                None => {
                    &&& dx == 65535
                    &&& forall|j: int| 0 <= j < k && placed[j].0 as nat == row
                        ==> col_distance(placed[j].1 as int, col as int) >= 65535
                },
            }
        }),
    decreases k,
{
    if k > 0 {
        nearest_on_row_is_nearest(placed, row, col, (k - 1) as nat);
    }
}

/// The cursor stays on a word whatever the move.
pub proof fn move_keeps_cursor_on_a_word(cursor: usize, placed: Seq<(usize, u16, u16)>, m: Move, total: nat)
    requires
        cursor < total,
    ensures
        moved_cursor(cursor, placed, m, total) < total,
{
}


/// With a grid laid out for the `total` words (or none yet) and the cursor
/// on a word, every move may be made and leaves the cursor on a word; with
/// no words, or a line move before any layout, the cursor stays.
pub proof fn move_cursor_stays_on_word(cursor: usize, placed: Seq<(usize, u16, u16)>, m: Move, total: nat)
    requires
        placed.len() == 0 || placed.len() == total,
        total == 0 || cursor < total,
    ensures
        can_move(cursor, placed, m, total),
        total > 0 ==> moved_cursor(cursor, placed, m, total) < total,
        total == 0 ==> moved_cursor(cursor, placed, m, total) == cursor,
        (m is Up || m is Down) && placed.len() == 0 ==> moved_cursor(cursor, placed, m, total) == cursor,
{
}

/// A line move on a laid-out grid: when no word lies on the target row the
/// cursor stays; otherwise it lands on that row, on the word nearest in
/// column to the cursor's word, the earliest of equally near ones.
pub proof fn line_move_lands_on_nearest(cursor: usize, placed: Seq<(usize, u16, u16)>, delta: i32, total: nat)
    requires
        placed.len() == total,
        cursor < total,
        forall|i: int| 0 <= i < placed.len() ==> #[trigger] placed[i].1 < 65535,
    ensures
        ({
            let t = target_row(placed[cursor as int].0, delta);
            let col = placed[cursor as int].1 as int;
            let r = line_move_target(cursor, placed, delta, total);
            &&& r < total
            &&& (forall|i: int| 0 <= i < total ==> placed[i].0 != t) ==> r == cursor
            &&& (exists|i: int| 0 <= i < total && placed[i].0 == t) ==> {
                &&& placed[r as int].0 == t
                &&& forall|j: int| 0 <= j < total && placed[j].0 == t
                    ==> col_distance(placed[j].1 as int, col) >= col_distance(placed[r as int].1 as int, col)
                &&& forall|j: int| 0 <= j < r && placed[j].0 == t
                    ==> col_distance(placed[j].1 as int, col) > col_distance(placed[r as int].1 as int, col)
            }
        }),
{
    let t = target_row(placed[cursor as int].0, delta);
    let col = placed[cursor as int].1 as nat;
    nearest_on_row_is_nearest(placed, t, col, placed.len());
    let (best, dx) = nearest_on_row(placed, t, col, placed.len());
    if exists|i: int| 0 <= i < total && placed[i].0 == t {
        let i = choose|i: int| 0 <= i < total && placed[i].0 == t;
        assert(placed[i].1 < 65535);
        assert(col_distance(placed[i].1 as int, col as int) < 65535);
        assert(best is Some);
    }
}


/// Jumping back `n` words from word `cursor` lands `|n|` words earlier, or
/// on the first word when there are fewer than `|n|` before it; jumping
/// forward lands `|n|` words later, or on the last word.
pub proof fn jumps_move_by_n(cursor: usize, placed: Seq<(usize, u16, u16)>, n: i32, total: nat)
    requires
        cursor < total,
    ensures
        cursor >= abs_i32(n) ==> moved_cursor(cursor, placed, Move::JumpBack(n), total) == cursor - abs_i32(n),
        cursor < abs_i32(n) ==> moved_cursor(cursor, placed, Move::JumpBack(n), total) == 0,
        cursor + abs_i32(n) < total ==> moved_cursor(cursor, placed, Move::JumpForward(n), total) == cursor + abs_i32(n),
        cursor + abs_i32(n) >= total ==> moved_cursor(cursor, placed, Move::JumpForward(n), total) == total - 1,
{
}

/// Jumping back and then forward by the same distance returns to the word
/// the cursor started on, when the jumps stay inside the text; likewise
/// forward then back, and one step back then forward.
pub proof fn jumps_undo_each_other(cursor: usize, placed: Seq<(usize, u16, u16)>, n: i32, total: nat)
    requires
        cursor < total <= usize::MAX,
    ensures
        cursor >= abs_i32(n) ==> moved_cursor(
            moved_cursor(cursor, placed, Move::JumpBack(n), total) as usize, placed, Move::JumpForward(n), total,
        ) == cursor,
        cursor + abs_i32(n) < total ==> moved_cursor(
            moved_cursor(cursor, placed, Move::JumpForward(n), total) as usize, placed, Move::JumpBack(n), total,
        ) == cursor,
        cursor > 0 ==> moved_cursor(
            moved_cursor(cursor, placed, Move::Prev, total) as usize, placed, Move::Next, total,
        ) == cursor,
        cursor + 1 < total ==> moved_cursor(
            moved_cursor(cursor, placed, Move::Next, total) as usize, placed, Move::Prev, total,
        ) == cursor,
{
}

/// Prev and Next move one word, stopping at the ends; Start and End go to
/// the first and the last word.
pub proof fn steps_and_ends(cursor: usize, placed: Seq<(usize, u16, u16)>, total: nat)
    requires
        cursor < total,
    ensures
        moved_cursor(cursor, placed, Move::Prev, total) == if cursor > 0 { cursor - 1 } else { 0 },
        moved_cursor(cursor, placed, Move::Next, total) == if cursor + 1 < total { cursor + 1 } else { total - 1 },
        moved_cursor(cursor, placed, Move::Start, total) == 0,
        moved_cursor(cursor, placed, Move::End, total) == total - 1,
{
}

} // verus!
