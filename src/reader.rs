use vstd::prelude::*;
use crate::action::{Action, Key};
use crate::bible::{passage_of, Bible, Verse};
use crate::text::{trim_end, trim_end_of};

verus! {

/// Rows kept visible above and below the cursor, together.
pub const VIEW_SPAN: usize = 6;

/// Length of row `r` of `lines`, or 0 past the end.
pub open spec fn line_len(lines: Seq<Seq<char>>, r: int) -> int {
    if 0 <= r < lines.len() {
        lines[r].len() as int
    } else {
        0
    }
}

/// The largest column the cursor may take on row `r`.
pub open spec fn last_col(lines: Seq<Seq<char>>, r: int) -> int {
    if line_len(lines, r) > 0 {
        line_len(lines, r) - 1
    } else {
        0
    }
}

pub open spec fn clamp(x: int, lo: int, hi: int) -> int {
    if x < lo {
        lo
    } else if x > hi {
        hi
    } else {
        x
    }
}

pub open spec fn min(a: int, b: int) -> int {
    if a <= b {
        a
    } else {
        b
    }
}

/// The cursor after a row motion by `dy`, as (row, column).
pub open spec fn row_motion(lines: Seq<Seq<char>>, row: int, col: int, dy: int) -> (int, int) {
    let nr = clamp(row + dy, 0, lines.len() - 1);
    if lines.len() == 0 {
        (row, col)
    } else if dy > 0 && nr > row && col >= line_len(lines, row) {
        (nr, 0)
    } else if dy < 0 && nr < row && col == 0 {
        (nr, last_col(lines, nr))
    } else {
        (nr, min(col, last_col(lines, nr)))
    }
}

/// The cursor after a column motion by `dx`, as (row, column).
pub open spec fn col_motion(lines: Seq<Seq<char>>, row: int, col: int, dx: int) -> (int, int) {
    if dx > 0 {
        if col < last_col(lines, row) {
            (row, col + 1)
        } else if row + 1 < lines.len() {
            (row + 1, 0)
        } else {
            (row, col)
        }
    } else if dx < 0 {
        if col > 0 {
            (row, col - 1)
        } else if row > 0 {
            (row - 1, last_col(lines, row - 1))
        } else {
            (row, col)
        }
    } else {
        (row, col)
    }
}

/// The scroll offset that keeps `row` inside the seven visible rows.
pub open spec fn scroll_for(row: int, scroll: int) -> int {
    if row < scroll {
        row
    } else if row > scroll + VIEW_SPAN {
        row - VIEW_SPAN
    } else {
        scroll
    }
}

/// The reading pane as plain values.
pub struct ReaderView {
    pub corpus: Seq<Verse>,
    pub book: Seq<char>,
    pub chapter: u16,
    pub row: int,
    pub col: int,
    pub scroll: int,
    pub visual: bool,
    pub anchor_row: int,
    pub anchor_col: int,
}

impl ReaderView {
    /// The texts of the open passage, one per row.
    pub open spec fn lines(self) -> Seq<Seq<char>> {
        passage_of(self.corpus, self.book, self.chapter).map_values(|v: Verse| v.text@)
    }

    /// A position that the cursor may take.
    pub open spec fn valid_pos(self, r: int, c: int) -> bool {
        if self.lines().len() == 0 {
            r == 0 && c == 0
        } else {
            0 <= r < self.lines().len() && 0 <= c <= last_col(self.lines(), r)
        }
    }

    pub open spec fn wf(self) -> bool {
        &&& self.valid_pos(self.row, self.col)
        &&& 0 <= self.scroll <= self.row <= self.scroll + VIEW_SPAN
        &&& self.visual ==> self.valid_pos(self.anchor_row, self.anchor_col)
    }

    /// Whether the anchor comes first in row-major order.
    pub open spec fn anchor_first(self) -> bool {
        self.anchor_row < self.row || (self.anchor_row == self.row && self.anchor_col <= self.col)
    }

    /// First row of the selection (the cursor row outside visual mode).
    pub open spec fn start_row(self) -> int {
        if self.visual && self.anchor_first() {
            self.anchor_row
        } else {
            self.row
        }
    }

    pub open spec fn start_col(self) -> int {
        if self.visual && self.anchor_first() {
            self.anchor_col
        } else {
            self.col
        }
    }

    /// Last row of the selection (the cursor row outside visual mode).
    pub open spec fn end_row(self) -> int {
        if self.visual && !self.anchor_first() {
            self.anchor_row
        } else {
            self.row
        }
    }

    pub open spec fn end_col(self) -> int {
        if self.visual && !self.anchor_first() {
            self.anchor_col
        } else {
            self.col
        }
    }

    /// Selected columns `[start, end)` of row `r`; the whole line outside visual mode.
    pub open spec fn span(self, r: int) -> (int, int) {
        if !self.visual {
            (0, line_len(self.lines(), r))
        } else {
            (
                if r == self.start_row() { self.start_col() } else { 0 },
                if r == self.end_row() { self.end_col() + 1 } else { line_len(self.lines(), r) },
            )
        }
    }

    /// The selected text of row `r`, with the span cut to the line.
    pub open spec fn piece(self, r: int) -> Seq<char> {
        let n = line_len(self.lines(), r);
        self.lines()[r].subrange(min(self.span(r).0, n), min(self.span(r).1, n))
    }

    /// The pieces of rows `start_row()..=r`, separated by line breaks.
    pub open spec fn joined_to(self, r: int) -> Seq<char>
        decreases r - self.start_row(),
    {
        if r <= self.start_row() {
            self.piece(self.start_row())
        } else {
            self.joined_to(r - 1) + seq!['\n'] + self.piece(r)
        }
    }

    /// The selected text, one line per selected row.
    pub open spec fn selection(self) -> Seq<char> {
        self.joined_to(self.end_row())
    }

    pub open spec fn with_cursor(self, pos: (int, int)) -> ReaderView {
        ReaderView {
            row: pos.0,
            col: pos.1,
            scroll: scroll_for(pos.0, self.scroll),
            ..self
        }
    }

    /// The state after `a` has been applied.
    pub open spec fn step(self, a: Action) -> ReaderView {
        match a {
            Action::OpenPassage { book, chapter } => ReaderView {
                book: book@,
                chapter,
                row: 0,
                col: 0,
                scroll: 0,
                visual: false,
                ..self
            },
            Action::MoveRow(dy) => self.with_cursor(
                row_motion(self.lines(), self.row, self.col, dy as int),
            ),
            Action::MoveCol(dx) => self.with_cursor(
                col_motion(self.lines(), self.row, self.col, dx as int),
            ),
            Action::ToggleVisual => if self.visual {
                ReaderView { visual: false, ..self }
            } else {
                ReaderView { visual: true, anchor_row: self.row, anchor_col: self.col, ..self }
            },
            Action::Yank => self,
            Action::Yanked => ReaderView { visual: false, ..self },
        }
    }
}

/// The intent that a key press asks of the reading pane.
pub open spec fn reader_intent(k: Key) -> Option<Action> {
    match k {
        Key::Char('j') | Key::Down => Some(Action::MoveRow(1i32)),
        Key::Char('k') | Key::Up => Some(Action::MoveRow(-1i32)),
        Key::Char('h') | Key::Left => Some(Action::MoveCol(-1i32)),
        Key::Char('l') | Key::Right => Some(Action::MoveCol(1i32)),
        Key::Char('v') | Key::Esc => Some(Action::ToggleVisual),
        Key::Char('y') => Some(Action::Yank),
        _ => None,
    }
}

/// The reading pane: a cursor, an optional selection and a scroll offset
/// over one chapter of the corpus. Columns count characters.
pub struct Reader {
    bible: Bible,
    book: String,
    chapter: u16,
    row: usize,
    col: usize,
    scroll: usize,
    visual: bool,
    anchor_row: usize,
    anchor_col: usize,
}

impl View for Reader {
    type V = ReaderView;

    closed spec fn view(&self) -> ReaderView {
        ReaderView {
            corpus: self.bible.verses@,
            book: self.book@,
            chapter: self.chapter,
            row: self.row as int,
            col: self.col as int,
            scroll: self.scroll as int,
            visual: self.visual,
            anchor_row: self.anchor_row as int,
            anchor_col: self.anchor_col as int,
        }
    }
}

impl Reader {
    /// A pane over `bible`, at the start of Genesis 1.
    pub fn new(bible: Bible) -> (r: Reader)
        ensures
            r@.wf(),
            r@.corpus == bible.verses@,
            r@.book == seq!['G', 'e', 'n', 'e', 's', 'i', 's'],
            r@.chapter == 1,
            r@.row == 0 && r@.col == 0 && r@.scroll == 0,
            !r@.visual,
    {
        let book = String::from_str("Genesis");
        proof {
            reveal_strlit("Genesis");
        }
        Reader {
            bible,
            book,
            chapter: 1,
            row: 0,
            col: 0,
            scroll: 0,
            visual: false,
            anchor_row: 0,
            anchor_col: 0,
        }
    }

    fn cur_line_len(&self) -> (r: usize)
        ensures
            r == line_len(self@.lines(), self@.row),
    {
        let p = self.bible.passage(self.book.as_str(), self.chapter);
        let ghost lines = self@.lines();
        assert(lines.len() == p@.len());
        if self.row < p.len() {
            assert(lines[self.row as int] == p@[self.row as int].text@);
            p[self.row].text.unicode_len()
        } else {
            0
        }
    }

    fn ensure_visible(&mut self)
        ensures
            final(self)@ == old(self)@.with_cursor((old(self)@.row, old(self)@.col)),
    {
        if self.row < self.scroll {
            self.scroll = self.row;
        } else if self.row - self.scroll > VIEW_SPAN {
            self.scroll = self.row - VIEW_SPAN;
        }
    }

    fn move_row(&mut self, dy: i32)
        requires
            old(self)@.wf(),
        ensures
            final(self)@ == old(self)@.step(Action::MoveRow(dy)),
    {
        let p = self.bible.passage(self.book.as_str(), self.chapter);
        let ghost lines = self@.lines();
        let total = p.len();
        if total == 0 {
            return;
        }
        let row = self.row;
        let new_row: usize = if dy >= 0 {
            let d = dy as usize;
            if d >= total - 1 - row {
                total - 1
            } else {
                row + d
            }
        } else {
            let d = (-(dy as i64)) as usize;
            if d >= row {
                0
            } else {
                row - d
            }
        };
        assert(new_row as int == clamp(row + dy, 0, lines.len() - 1));
        assert(lines[row as int] == p@[row as int].text@);
        assert(lines[new_row as int] == p@[new_row as int].text@);
        let old_len = p[row].text.unicode_len();
        let new_len = p[new_row].text.unicode_len();
        let new_last = if new_len > 0 {
            new_len - 1
        } else {
            0
        };
        if dy > 0 && new_row > row && self.col >= old_len {
            self.col = 0;
        } else if dy < 0 && new_row < row && self.col == 0 {
            self.col = new_last;
        } else if self.col > new_last {
            self.col = new_last;
        }
        self.row = new_row;
        self.ensure_visible();
    }

    fn move_col(&mut self, dx: i32)
        requires
            old(self)@.wf(),
        ensures
            final(self)@ == old(self)@.step(Action::MoveCol(dx)),
    {
        let len = self.cur_line_len();
        let last = if len > 0 {
            len - 1
        } else {
            0
        };
        let total = self.bible.passage(self.book.as_str(), self.chapter).len();
        if dx > 0 {
            if self.col < last {
                self.col = self.col + 1;
            } else if self.row + 1 < total {
                self.row = self.row + 1;
                self.col = 0;
                self.ensure_visible();
            }
        } else if dx < 0 {
            if self.col > 0 {
                self.col = self.col - 1;
            } else if self.row > 0 {
                self.row = self.row - 1;
                let prev = self.cur_line_len();
                self.col = if prev > 0 {
                    prev - 1
                } else {
                    0
                };
                self.ensure_visible();
            }
        }
    }

    /// Applies `a` to the pane. For `Yank` the state is left as it is and the
    /// text to copy is returned; `Yanked` then ends visual mode.
    pub fn update(&mut self, a: Action) -> (r: Option<String>)
        requires
            old(self)@.wf(),
        ensures
            final(self)@ == old(self)@.step(a),
            final(self)@.wf(),
            a is Yank ==> r is Some && r->0@ == trim_end_of(old(self)@.selection()),
            !(a is Yank) ==> r is None,
    {
        match a {
            Action::OpenPassage { book, chapter } => {
                self.book = book;
                self.chapter = chapter;
                self.row = 0;
                self.col = 0;
                self.scroll = 0;
                self.visual = false;
                None
            },
            Action::MoveRow(dy) => {
                self.move_row(dy);
                None
            },
            Action::MoveCol(dx) => {
                self.move_col(dx);
                None
            },
            Action::ToggleVisual => {
                self.visual = !self.visual;
                if self.visual {
                    self.anchor_row = self.row;
                    self.anchor_col = self.col;
                }
                None
            },
            Action::Yank => Some(self.yank_text()),
            Action::Yanked => {
                self.visual = false;
                None
            },
        }
    }

    /// The rows of the selection, each with its column span `[start, end)`.
    pub fn normalized_range(&self) -> (r: Vec<(usize, usize, usize)>)
        requires
            self@.wf(),
        ensures
            r@.len() == self@.end_row() - self@.start_row() + 1,
            forall|j: int|
                #![trigger r@[j]]
                0 <= j < r@.len() ==> {
                    let rw = self@.start_row() + j;
                    r@[j].0 == rw && r@[j].1 == self@.span(rw).0 && r@[j].2 == self@.span(rw).1
                },
    {
        if !self.visual {
            let n = self.cur_line_len();
            return vec![(self.row, 0, n)];
        }
        let (ar, ac, br, bc) = if self.anchor_row < self.row || (self.anchor_row == self.row
            && self.anchor_col <= self.col) {
            (self.anchor_row, self.anchor_col, self.row, self.col)
        } else {
            (self.row, self.col, self.anchor_row, self.anchor_col)
        };
        let p = self.bible.passage(self.book.as_str(), self.chapter);
        let ghost lines = self@.lines();
        let mut out: Vec<(usize, usize, usize)> = Vec::new();
        let mut r = ar;
        while r <= br
            invariant
                self@.wf(),
                self@.visual,
                lines == self@.lines(),
                p@.len() == lines.len(),
                forall|i: int| 0 <= i < lines.len() ==> #[trigger] lines[i] == p@[i].text@,
                ar == self@.start_row(),
                ac == self@.start_col(),
                br == self@.end_row(),
                bc == self@.end_col(),
                ar <= r <= br + 1,
                br < lines.len() || br == 0,
                out@.len() == r - ar,
                forall|j: int|
                    #![trigger out@[j]]
                    0 <= j < out@.len() ==> {
                        let rw = self@.start_row() + j;
                        out@[j].0 == rw && out@[j].1 == self@.span(rw).0 && out@[j].2 == self@.span(rw).1
                    },
            decreases br + 1 - r,
        {
            let n = if r < p.len() {
                p[r].text.unicode_len()
            } else {
                0
            };
            let s = if r == ar {
                ac
            } else {
                0
            };
            let e = if r == br {
                bc + 1
            } else {
                n
            };
            out.push((r, s, e));
            r = r + 1;
        }
        out
    }

    /// The selected text: each selected row's span, rows separated by line breaks.
    pub fn selection_text(&self) -> (r: String)
        requires
            self@.wf(),
        ensures
            r@ == self@.selection(),
    {
        let ranges = self.normalized_range();
        let p = self.bible.passage(self.book.as_str(), self.chapter);
        let ghost lines = self@.lines();
        let ghost sr = self@.start_row();
        let mut buf = String::new();
        let mut k: usize = 0;
        while k < ranges.len()
            invariant
                self@.wf(),
                lines == self@.lines(),
                sr == self@.start_row(),
                p@.len() == lines.len(),
                forall|i: int| 0 <= i < lines.len() ==> #[trigger] lines[i] == p@[i].text@,
                ranges@.len() == self@.end_row() - sr + 1,
                forall|j: int|
                    #![trigger ranges@[j]]
                    0 <= j < ranges@.len() ==> {
                        let rw = sr + j;
                        ranges@[j].0 == rw && ranges@[j].1 == self@.span(rw).0 && ranges@[j].2 == self@.span(rw).1
                    },
                k <= ranges@.len(),
                k == 0 ==> buf@.len() == 0,
                k > 0 ==> buf@ == self@.joined_to(sr + k - 1),
            decreases ranges@.len() - k,
        {
            let (r, s, e) = ranges[k];
            let ghost rw = sr + k;
            let ghost before = buf@;
            if k > 0 {
                buf.append("\n");
                proof {
                    reveal_strlit("\n");
                }
            }
            let ghost mid = buf@;
            if r < p.len() {
                let t = p[r].text.as_str();
                let n = t.unicode_len();
                let a = if s < n {
                    s
                } else {
                    n
                };
                let b = if e < n {
                    e
                } else {
                    n
                };
                buf.append(t.substring_char(a, b));
            } else {
                assert(self@.piece(rw) =~= Seq::<char>::empty());
            }
            assert(buf@ =~= mid + self@.piece(rw));
            if k > 0 {
                assert(mid =~= before + seq!['\n']);
            }
            k = k + 1;
        }
        buf
    }

    /// The text that a yank copies: the selection without trailing whitespace.
    pub fn yank_text(&self) -> (r: String)
        requires
            self@.wf(),
        ensures
            r@ == trim_end_of(self@.selection()),
    {
        let t = self.selection_text();
        trim_end(t.as_str())
    }

    /// The intent that key `k` asks for.
    pub fn handle_key_event(&self, k: Key) -> (r: Option<Action>)
        ensures
            r == reader_intent(k),
    {
        match k {
            Key::Char('j') | Key::Down => Some(Action::MoveRow(1)),
            Key::Char('k') | Key::Up => Some(Action::MoveRow(-1)),
            Key::Char('h') | Key::Left => Some(Action::MoveCol(-1)),
            Key::Char('l') | Key::Right => Some(Action::MoveCol(1)),
            Key::Char('v') | Key::Esc => Some(Action::ToggleVisual),
            Key::Char('y') => Some(Action::Yank),
            _ => None,
        }
    }

    pub fn book(&self) -> (r: &String)
        ensures
            r@ == self@.book,
    {
        &self.book
    }

    pub fn chapter(&self) -> (r: u16)
        ensures
            r == self@.chapter,
    {
        self.chapter
    }

    /// The cursor as (row, column).
    pub fn cursor(&self) -> (r: (usize, usize))
        ensures
            r.0 == self@.row && r.1 == self@.col,
    {
        (self.row, self.col)
    }

    /// The topmost visible row.
    pub fn scroll(&self) -> (r: usize)
        ensures
            r == self@.scroll,
    {
        self.scroll
    }

    pub fn is_visual(&self) -> (r: bool)
        ensures
            r == self@.visual,
    {
        self.visual
    }

    /// The records of the open passage.
    pub fn verses(&self) -> (r: Vec<&Verse>)
        ensures
            r@.map_values(|v: &Verse| *v) == passage_of(self@.corpus, self@.book, self@.chapter),
    {
        self.bible.passage(self.book.as_str(), self.chapter)
    }
}


/// Every action keeps the cursor on a valid position of the open passage,
/// the anchor too while selecting, and the cursor inside the view.
pub proof fn lemma_step_keeps_wf(v: ReaderView, a: Action)
    requires
        v.wf(),
    ensures
        v.step(a).wf(),
{
}

/// After a row motion the cursor row lies within `[scroll, scroll + 6]`.
pub proof fn lemma_row_motion_in_view(v: ReaderView, dy: i32)
    requires
        v.wf(),
    ensures
        v.step(Action::MoveRow(dy)).scroll <= v.step(Action::MoveRow(dy)).row
            <= v.step(Action::MoveRow(dy)).scroll + VIEW_SPAN,
{
    lemma_step_keeps_wf(v, Action::MoveRow(dy));
}

/// Outside visual mode the selection is the whole cursor row.
pub proof fn lemma_plain_selection_is_row(v: ReaderView)
    requires
        v.wf(),
        !v.visual,
        v.lines().len() > 0,
    ensures
        v.selection() == v.lines()[v.row],
{
    assert(v.piece(v.row) =~= v.lines()[v.row]);
}


/// A visual selection within one row is that row from the first selected
/// column through the last, both included.
pub proof fn lemma_visual_one_row(v: ReaderView)
    requires
        v.wf(),
        v.visual,
        v.start_row() == v.end_row(),
        line_len(v.lines(), v.row) > 0,
    ensures
        v.selection() == v.lines()[v.row].subrange(v.start_col(), v.end_col() + 1),
{
}


/// In a visual selection over several rows, the first row is taken from the
/// start column to its end, every row in between whole, the last row from
/// column 0 through the end column, joined by line breaks.
pub proof fn lemma_visual_rows(v: ReaderView)
    requires
        v.wf(),
        v.visual,
        v.start_row() < v.end_row(),
    ensures
        v.piece(v.start_row()) == v.lines()[v.start_row()].subrange(
            v.start_col(),
            line_len(v.lines(), v.start_row()),
        ),
        forall|r: int| v.start_row() < r < v.end_row() ==> #[trigger] v.piece(r) == v.lines()[r],
        v.piece(v.end_row()) == v.lines()[v.end_row()].subrange(
            0,
            min(v.end_col() + 1, line_len(v.lines(), v.end_row())),
        ),
        v.selection() == v.joined_to(v.end_row() - 1) + seq!['\n'] + v.piece(v.end_row()),
{
    assert forall|r: int| v.start_row() < r < v.end_row() implies #[trigger] v.piece(r) == v.lines()[r] by {
        assert(v.piece(r) =~= v.lines()[r]);
    }
}

} // verus!
