//! The source buffer that a program is written in: lines of text, a cursor
//! and a selection.

use vstd::prelude::*;

verus! {

/// A position in the buffer: line, then column.
pub type Position = (usize, usize);

/// `a` comes before `b` in reading order.
pub open spec fn precedes(a: Position, b: Position) -> bool {
    a.0 < b.0 || (a.0 == b.0 && a.1 < b.1)
}

fn before(a: Position, b: Position) -> (r: bool)
    ensures
        r == precedes(a, b),
{
    a.0 < b.0 || (a.0 == b.0 && a.1 < b.1)
}

/// The first visible line after scrolling so that line `row` shows in a
/// window of `height` lines that started at `top`: a line below the window
/// or above it is brought to the middle.
pub open spec fn scrolled_top(row: int, top: int, height: int) -> int {
    let half = height / 2;
    if row >= top + height {
        row - half
    } else if row < top {
        if half <= row {
            row - half
        } else {
            0
        }
    } else {
        top
    }
}

/// The characters of each line.
pub open spec fn line_views(lines: Seq<String>) -> Seq<Seq<char>> {
    lines.map_values(|l: String| l@)
}

/// The earlier of two positions.
pub open spec fn first_of(a: Position, b: Position) -> Position {
    if precedes(b, a) {
        b
    } else {
        a
    }
}

/// The later of two positions.
pub open spec fn last_of(a: Position, b: Position) -> Position {
    if precedes(b, a) {
        a
    } else {
        b
    }
}

/// The text with everything from `x` up to `y` taken out.
pub open spec fn without(text: Seq<Seq<char>>, x: Position, y: Position) -> Seq<Seq<char>> {
    text.take(x.0 as int) + seq![text[x.0 as int].take(x.1 as int) + text[y.0 as int].skip(y.1 as int)]
        + text.skip(y.0 + 1)
}

/// The lines of text from `x` up to `y`.
pub open spec fn between(text: Seq<Seq<char>>, x: Position, y: Position) -> Seq<Seq<char>> {
    if x.0 == y.0 {
        seq![text[x.0 as int].subrange(x.1 as int, y.1 as int)]
    } else {
        seq![text[x.0 as int].skip(x.1 as int)] + text.subrange(x.0 + 1, y.0 as int) + seq![
            text[y.0 as int].take(y.1 as int),
        ]
    }
}

/// The text with the lines `clip` put in at `p`.
pub open spec fn pasted(text: Seq<Seq<char>>, p: Position, clip: Seq<Seq<char>>) -> Seq<
    Seq<char>,
> {
    let line = text[p.0 as int];
    if clip.len() == 1 {
        text.update(p.0 as int, line.take(p.1 as int) + clip[0] + line.skip(p.1 as int))
    } else {
        text.take(p.0 as int) + seq![line.take(p.1 as int) + clip[0]] + clip.subrange(
            1,
            clip.len() - 1,
        ) + seq![clip.last() + line.skip(p.1 as int)] + text.skip(p.0 + 1)
    }
}

proof fn lemma_line_view(lines: Seq<String>, i: int)
    ensures
        line_views(lines).len() == lines.len(),
        0 <= i < lines.len() ==> line_views(lines)[i] == lines[i]@,
{
}

proof fn lemma_views_concat(a: Seq<String>, b: Seq<String>)
    ensures
        line_views(a + b) == line_views(a) + line_views(b),
{
    assert(line_views(a + b) =~= line_views(a) + line_views(b));
}

/// The lines `lines[a..b]`, copied.
fn copy_lines(lines: &Vec<String>, a: usize, b: usize) -> (r: Vec<String>)
    requires
        a <= b <= lines@.len(),
    ensures
        line_views(r@) == line_views(lines@).subrange(a as int, b as int),
{
    let mut r: Vec<String> = Vec::new();
    let mut k: usize = a;
    while k < b
        invariant
            a <= k <= b <= lines@.len(),
            line_views(r@) == line_views(lines@).subrange(a as int, k as int),
        decreases b - k,
    {
        let ghost prev = line_views(r@);
        r.push(lines[k].clone());
        assert(line_views(r@) =~= prev.push(lines@[k as int]@));
        assert(line_views(lines@).subrange(a as int, k + 1) =~= line_views(lines@).subrange(
            a as int,
            k as int,
        ).push(lines@[k as int]@));
        k += 1;
    }
    r
}

/// The text with lines `a` to `b` (both included) indented by two spaces.
pub open spec fn indented(text: Seq<Seq<char>>, a: int, b: int) -> Seq<Seq<char>> {
    Seq::new(
        text.len(),
        |k: int|
            if a <= k <= b {
                seq![' ', ' '] + text[k]
            } else {
                text[k]
            },
    )
}

/// Characters `from..to` of `s`, as a string of its own.
fn piece(s: &String, from: usize, to: usize) -> (r: String)
    requires
        from <= to <= s@.len(),
    ensures
        r@ == s@.subrange(from as int, to as int),
{
    String::from_str(s.as_str().substring_char(from, to))
}

/// Relies on `String::push`: the character goes at the end.
#[verifier::external_body]
fn push_char(s: &mut String, c: char)
    ensures
        final(s)@ == old(s)@.push(c),
{
    s.push(c)
}

/// The lines `lines[..a]`, then `middle`, then `lines[b..]`.
fn splice(lines: &Vec<String>, a: usize, b: usize, middle: Vec<String>) -> (r: Vec<String>)
    requires
        a <= b <= lines@.len(),
    ensures
        line_views(r@) == line_views(lines@).take(a as int) + line_views(middle@) + line_views(
            lines@,
        ).skip(b as int),
{
    let mut r: Vec<String> = Vec::new();
    let mut k: usize = 0;
    while k < a
        invariant
            k <= a <= b <= lines@.len(),
            line_views(r@) == line_views(lines@).take(k as int),
        decreases a - k,
    {
        r.push(lines[k].clone());
        assert(line_views(lines@).take(k + 1) =~= line_views(lines@).take(k as int).push(
            lines@[k as int]@,
        ));
        assert(line_views(r@) =~= line_views(lines@).take(k as int).push(lines@[k as int]@));
        k += 1;
    }
    let ghost head = line_views(r@);
    let mut k: usize = 0;
    while k < middle.len()
        invariant
            k <= middle@.len(),
            line_views(r@) == head + line_views(middle@).take(k as int),
        decreases middle@.len() - k,
    {
        let ghost prev = line_views(r@);
        r.push(middle[k].clone());
        assert(line_views(r@) =~= prev.push(middle@[k as int]@));
        assert(head + line_views(middle@).take(k + 1) =~= (head + line_views(middle@).take(
            k as int,
        )).push(middle@[k as int]@));
        k += 1;
    }
    assert(line_views(middle@).take(middle@.len() as int) =~= line_views(middle@));
    let ghost front = line_views(r@);
    let mut k: usize = b;
    while k < lines.len()
        invariant
            b <= k <= lines@.len(),
            line_views(r@) == front + line_views(lines@).subrange(b as int, k as int),
        decreases lines@.len() - k,
    {
        let ghost prev = line_views(r@);
        r.push(lines[k].clone());
        assert(line_views(r@) =~= prev.push(lines@[k as int]@));
        assert(front + line_views(lines@).subrange(b as int, k + 1) =~= (front + line_views(
            lines@,
        ).subrange(b as int, k as int)).push(lines@[k as int]@));
        k += 1;
    }
    assert(line_views(lines@).subrange(b as int, lines@.len() as int) =~= line_views(lines@).skip(
        b as int,
    ));
    r
}

pub struct Editor {
    /// Where the text is kept, if anywhere.
    pub filepath: Option<String>,
    pub lines: Vec<String>,
    pub cursor: Position,
    /// The other end of the selection; the cursor is one end.
    pub selection: Option<Position>,
    pub clipboard: Option<Vec<String>>,
    pub window_height: usize,
    pub window_top_line: usize,
    /// The column that vertical moves try to keep.
    pub pinned_col: usize,
    pub dirty: bool,
}

#[derive(Clone, Copy, Debug, PartialEq, Eq, Structural)]
pub enum CursorMove {
    Up,
    Down,
    Left,
    Right,
}

impl Editor {
    /// Number of characters of line `i`.
    pub open spec fn line_len(&self, i: int) -> int {
        self.lines@[i]@.len() as int
    }

    /// `p` is a place in the text: a line, and a column up to its end.
    pub open spec fn holds(&self, p: Position) -> bool {
        p.0 < self.lines@.len() && p.1 <= self.line_len(p.0 as int)
    }

    /// At least one line; cursor and selection lie in the text; a clipboard
    /// holds at least one line.
    pub open spec fn wf(&self) -> bool {
        &&& self.lines@.len() > 0
        &&& self.holds(self.cursor)
        &&& self.selection matches Some(s) ==> self.holds(s)
        &&& self.clipboard matches Some(c) ==> c@.len() > 0
    }

    /// The characters of each line.
    pub open spec fn text(&self) -> Seq<Seq<char>> {
        line_views(self.lines@)
    }

    /// The text once the selection is deleted.
    pub open spec fn text_unselected(&self) -> Seq<Seq<char>> {
        match self.selection {
            Some(s) => without(self.text(), first_of(s, self.cursor), last_of(s, self.cursor)),
            None => self.text(),
        }
    }

    /// The cursor once the selection is deleted: at the selection's start.
    pub open spec fn cursor_unselected(&self) -> Position {
        match self.selection {
            Some(s) => first_of(s, self.cursor),
            None => self.cursor,
        }
    }

    /// The window's first line once the selection is deleted.
    pub open spec fn top_unselected(&self) -> int {
        match self.selection {
            Some(s) => scrolled_top(
                first_of(s, self.cursor).0 as int,
                self.window_top_line as int,
                self.window_height as int,
            ),
            None => self.window_top_line as int,
        }
    }

    /// The first and the last line that an indent covers: those from the
    /// cursor to the selection's other end, but for a last line that the
    /// range only reaches at its first column.
    pub open spec fn indent_rows(&self) -> (int, int) {
        let s = match self.selection {
            Some(s) => s,
            None => self.cursor,
        };
        let c = self.cursor;
        let xi = vstd::math::min(s.0 as int, c.0 as int);
        let yi = vstd::math::max(s.0 as int, c.0 as int);
        let yj = vstd::math::max(s.1 as int, c.1 as int);
        (xi, if xi != yi && yj == 0 {
            yi - 1
        } else {
            yi
        })
    }

    /// The selection after a move: kept, or started at the cursor, when
    /// `extend` is set; dropped otherwise.
    pub open spec fn selection_after(&self, extend: bool) -> Option<Position> {
        if extend {
            match self.selection {
                Some(s) => Some(s),
                None => Some(self.cursor),
            }
        } else {
            None
        }
    }

    /// Where a move takes the cursor.
    pub open spec fn cursor_after(&self, m: CursorMove) -> Position {
        let (row, col) = self.cursor;
        match m {
            CursorMove::Up => if row == 0 {
                self.cursor
            } else {
                (
                    (row - 1) as usize,
                    vstd::math::min(self.pinned_col as int, self.line_len(row - 1)) as usize,
                )
            },
            CursorMove::Down => if row + 1 >= self.lines@.len() {
                self.cursor
            } else {
                (
                    (row + 1) as usize,
                    vstd::math::min(self.pinned_col as int, self.line_len(row + 1)) as usize,
                )
            },
            CursorMove::Left => if col > 0 {
                (row, (col - 1) as usize)
            } else if row > 0 {
                ((row - 1) as usize, self.line_len(row - 1) as usize)
            } else {
                self.cursor
            },
            CursorMove::Right => if col < self.line_len(row as int) {
                (row, (col + 1) as usize)
            } else if row + 1 < self.lines@.len() {
                ((row + 1) as usize, 0)
            } else {
                self.cursor
            },
        }
    }

    /// The cell `(i, j)` of the text lies between the cursor and the other
    /// end of the selection; the end of a line is never selected.
    pub open spec fn selects(&self, i: int, j: int) -> bool {
        if self.line_len(i) == j {
            false
        } else {
            match self.selection {
                None => false,
                Some(s) => {
                    let c = self.cursor;
                    let p = (i as usize, j as usize);
                    if precedes(c, s) {
                        !precedes(p, c) && precedes(p, s)
                    } else {
                        !precedes(p, s) && precedes(p, c)
                    }
                },
            }
        }
    }

    /// An empty buffer: one empty line, cursor at its start.
    pub fn new() -> (r: Editor)
        ensures
            r.wf(),
            r.lines@.len() == 1,
            r.lines@[0]@.len() == 0,
            r.cursor == (0usize, 0usize),
            r.selection is None,
            r.clipboard is None,
            r.filepath is None,
            r.window_height == 1,
            r.window_top_line == 0,
            r.pinned_col == 0,
            !r.dirty,
    {
        Editor {
            filepath: None,
            lines: vec![String::new()],
            cursor: (0, 0),
            selection: None,
            clipboard: None,
            window_height: 1,
            window_top_line: 0,
            pinned_col: 0,
            dirty: false,
        }
    }

    pub fn line_chars(&self, i: usize) -> (r: usize)
        requires
            i < self.lines@.len(),
        ensures
            r == self.line_len(i as int),
    {
        self.lines[i].as_str().unicode_len()
    }

    /// Puts the cursor at `(row, col)` and pins that column.
    pub fn set_pinned_cursor(&mut self, row: usize, col: usize)
        ensures
            final(self).cursor == (row, col),
            final(self).pinned_col == col,
            final(self).lines == old(self).lines,
            final(self).selection == old(self).selection,
            final(self).clipboard == old(self).clipboard,
            final(self).filepath == old(self).filepath,
            final(self).window_height == old(self).window_height,
            final(self).window_top_line == old(self).window_top_line,
            final(self).dirty == old(self).dirty,
    {
        self.cursor = (row, col);
        self.pinned_col = col;
    }

    /// Moves the cursor one place, keeping or starting the selection when
    /// `selection` is set and dropping it otherwise. Vertical moves keep
    /// the pinned column as far as the line allows and scroll the cursor
    /// into view; horizontal moves pin the new column.
    pub fn move_cursor(&mut self, cursor_move: CursorMove, selection: bool)
        requires
            old(self).wf(),
        ensures
            final(self).wf(),
            final(self).cursor == old(self).cursor_after(cursor_move),
            final(self).selection == old(self).selection_after(selection),
            (cursor_move == CursorMove::Left || cursor_move == CursorMove::Right)
                ==> final(self).pinned_col == (if final(self).cursor == old(self).cursor {
                old(self).pinned_col
            } else {
                final(self).cursor.1
            }) && final(self).window_top_line == old(self).window_top_line,
            (cursor_move == CursorMove::Up || cursor_move == CursorMove::Down)
                ==> final(self).pinned_col == old(self).pinned_col && final(self).window_top_line
                == (if final(self).cursor == old(self).cursor {
                old(self).window_top_line as int
            } else {
                scrolled_top(
                    final(self).cursor.0 as int,
                    old(self).window_top_line as int,
                    old(self).window_height as int,
                )
            }),
            final(self).lines == old(self).lines,
            final(self).clipboard == old(self).clipboard,
            final(self).filepath == old(self).filepath,
            final(self).window_height == old(self).window_height,
            final(self).dirty == old(self).dirty,
    {
        let (row, col) = self.cursor;
        self.selection = if selection {
            match self.selection {
                Some(s) => Some(s),
                None => Some(self.cursor),
            }
        } else {
            None
        };
        match cursor_move {
            CursorMove::Up => {
                if row == 0 {
                    return ;
                }
                let row = row - 1;
                let len = self.line_chars(row);
                let clamped_col = if self.pinned_col < len {
                    self.pinned_col
                } else {
                    len
                };
                self.cursor = (row, clamped_col);
                self.scroll_into_view();
            },
            CursorMove::Down => {
                if row >= self.lines.len() - 1 {
                    return ;
                }
                let row = row + 1;
                let len = self.line_chars(row);
                let clamped_col = if self.pinned_col < len {
                    self.pinned_col
                } else {
                    len
                };
                self.cursor = (row, clamped_col);
                self.scroll_into_view();
            },
            CursorMove::Left => {
                if col > 0 {
                    self.set_pinned_cursor(row, col - 1);
                } else if row > 0 {
                    let len = self.line_chars(row - 1);
                    self.set_pinned_cursor(row - 1, len);
                }
            },
            CursorMove::Right => {
                if col < self.line_chars(row) {
                    self.set_pinned_cursor(row, col + 1);
                } else if row < self.lines.len() - 1 {
                    self.set_pinned_cursor(row + 1, 0);
                }
            },
        }
    }

    /// Deletes the selected text, leaving the cursor where it began.
    pub fn delete_selection(&mut self)
        requires
            old(self).wf(),
        ensures
            final(self).wf(),
            old(self).selection is None ==> *final(self) == *old(self),
            old(self).selection is Some ==> final(self).selection is None
                && final(self).window_top_line == old(self).top_unselected(),
            final(self).text() == old(self).text_unselected(),
            final(self).cursor == old(self).cursor_unselected(),
            final(self).clipboard == old(self).clipboard,
            final(self).filepath == old(self).filepath,
            final(self).window_height == old(self).window_height,
            final(self).pinned_col == old(self).pinned_col,
            final(self).dirty == old(self).dirty,
    {
        let c = self.cursor;
        let s = match self.selection {
            Some(s) => s,
            None => return ,
        };
        let (x, y) = if before(s, c) {
            (s, c)
        } else {
            (c, s)
        };
        proof {
            assert(self.lines.len() == self.lines@.len());
        }
        let len_y = self.line_chars(y.0);
        let mut joined = piece(&self.lines[x.0], 0, x.1);
        let tail = piece(&self.lines[y.0], y.1, len_y);
        joined.append(tail.as_str());
        let ghost joined_view = joined@;
        let lines = splice(&self.lines, x.0, y.0 + 1, vec![joined]);
        assert(line_views(seq![joined]) =~= seq![joined_view]);
        self.lines = lines;
        self.selection = None;
        self.cursor = x;
        assert(self.text()[x.0 as int] == joined_view);
        proof {
            lemma_line_view(self.lines@, x.0 as int);
        }
        assert(self.lines@.len() == self.text().len());
        self.scroll_into_view();
    }

    /// Puts the selected text on the clipboard, one entry per line.
    pub fn copy_selection(&mut self)
        requires
            old(self).wf(),
        ensures
            final(self).wf(),
            old(self).selection is None ==> final(self).clipboard == old(self).clipboard,
            old(self).selection matches Some(s) ==> final(self).clipboard matches Some(clip)
                && line_views(clip@) == between(
                old(self).text(),
                first_of(s, old(self).cursor),
                last_of(s, old(self).cursor),
            ),
            final(self).lines == old(self).lines,
            final(self).cursor == old(self).cursor,
            final(self).selection == old(self).selection,
            final(self).filepath == old(self).filepath,
            final(self).window_height == old(self).window_height,
            final(self).window_top_line == old(self).window_top_line,
            final(self).pinned_col == old(self).pinned_col,
            final(self).dirty == old(self).dirty,
    {
        let c = self.cursor;
        let s = match self.selection {
            Some(s) => s,
            None => return ,
        };
        let (x, y) = if before(s, c) {
            (s, c)
        } else {
            (c, s)
        };
        if x.0 == y.0 {
            let line = piece(&self.lines[x.0], x.1, y.1);
            let ghost v = line@;
            let clip = vec![line];
            assert(line_views(clip@) =~= seq![v]);
            self.clipboard = Some(clip);
        } else {
            let len_x = self.line_chars(x.0);
            let first = piece(&self.lines[x.0], x.1, len_x);
            let last = piece(&self.lines[y.0], 0, y.1);
            let ghost (fv, lv) = (first@, last@);
            let mut clip = vec![first];
            let mut middle = copy_lines(&self.lines, x.0 + 1, y.0);
            let ghost mv = middle@;
            clip.append(&mut middle);
            clip.push(last);
            proof {
                lemma_views_concat(seq![first], mv);
                assert(line_views(seq![first]) =~= seq![fv]);
                assert(line_views(clip@) =~= line_views(seq![first] + mv).push(lv));
            }
            self.clipboard = Some(clip);
        }
    }

    /// Copies the selection to the clipboard, then deletes it.
    pub fn cut_selection(&mut self)
        requires
            old(self).wf(),
        ensures
            final(self).wf(),
            old(self).selection matches Some(s) ==> final(self).clipboard matches Some(clip)
                && line_views(clip@) == between(
                old(self).text(),
                first_of(s, old(self).cursor),
                last_of(s, old(self).cursor),
            ),
            old(self).selection is None ==> *final(self) == *old(self),
            final(self).text() == old(self).text_unselected(),
            final(self).cursor == old(self).cursor_unselected(),
            final(self).selection is None,
    {
        self.copy_selection();
        self.delete_selection();
    }

    /// Puts the clipboard's lines in at the cursor, which stays where it
    /// was. A selection that no longer lies in the text is dropped.
    pub fn paste(&mut self)
        requires
            old(self).wf(),
        ensures
            final(self).wf(),
            old(self).clipboard is None ==> *final(self) == *old(self),
            old(self).clipboard matches Some(clip) ==> final(self).text() == pasted(
                old(self).text(),
                old(self).cursor,
                line_views(clip@),
            ) && final(self).window_top_line == scrolled_top(
                old(self).cursor.0 as int,
                old(self).window_top_line as int,
                old(self).window_height as int,
            ),
            old(self).selection matches Some(s) ==> final(self).selection == (if final(self).holds(
                s,
            ) {
                Some(s)
            } else {
                None
            }),
            old(self).selection is None ==> final(self).selection is None,
            final(self).cursor == old(self).cursor,
            final(self).clipboard == old(self).clipboard,
            final(self).filepath == old(self).filepath,
            final(self).window_height == old(self).window_height,
            final(self).pinned_col == old(self).pinned_col,
            final(self).dirty == old(self).dirty,
    {
        let (i, j) = self.cursor;
        let len = self.line_chars(i);
        proof {
            assert(self.lines.len() == self.lines@.len());
        }
        let lines = match &self.clipboard {
            None => return ,
            Some(clip) => {
                let n = clip.len();
                let mut first = piece(&self.lines[i], 0, j);
                let end = piece(&self.lines[i], j, len);
                let ghost (head_v, end_v) = (first@, end@);
                if n == 1 {
                    first.append(clip[0].as_str());
                    first.append(end.as_str());
                    let ghost v = first@;
                    let r = splice(&self.lines, i, i + 1, vec![first]);
                    proof {
                        assert(line_views(seq![first]) =~= seq![v]);
                        assert(line_views(self.lines@).update(i as int, v) =~= line_views(
                            self.lines@,
                        ).take(i as int) + seq![v] + line_views(self.lines@).skip(i + 1));
                    }
                    r
                } else {
                    first.append(clip[0].as_str());
                    let mut last = clip[n - 1].clone();
                    last.append(end.as_str());
                    let ghost (fv, lv) = (first@, last@);
                    let mut middle = vec![first];
                    let mut inner = copy_lines(clip, 1, n - 1);
                    let ghost iv = inner@;
                    middle.append(&mut inner);
                    middle.push(last);
                    proof {
                        lemma_views_concat(seq![first], iv);
                        assert(line_views(seq![first]) =~= seq![fv]);
                        assert(line_views(middle@) =~= line_views(seq![first] + iv).push(lv));
                    }
                    splice(&self.lines, i, i + 1, middle)
                }
            },
        };
        self.lines = lines;
        assert(self.lines@.len() == self.text().len());
        proof {
            lemma_line_view(self.lines@, i as int);
        }
        if let Some((si, sj)) = self.selection {
            if !(si < self.lines.len() && sj <= self.line_chars(si)) {
                self.selection = None;
            }
        }
        self.scroll_into_view();
    }

    /// Types a character at the cursor, in place of the selection if there
    /// is one.
    pub fn insert_char(&mut self, c: char)
        requires
            old(self).wf(),
        ensures
            final(self).wf(),
            ({
                let t = old(self).text_unselected();
                let p = old(self).cursor_unselected();
                &&& final(self).text() == t.update(
                    p.0 as int,
                    t[p.0 as int].take(p.1 as int).push(c) + t[p.0 as int].skip(p.1 as int),
                )
                &&& final(self).cursor == (p.0, (p.1 + 1) as usize)
                &&& final(self).pinned_col == p.1 + 1
            }),
            final(self).selection is None,
            final(self).window_top_line == old(self).top_unselected(),
            final(self).clipboard == old(self).clipboard,
            final(self).filepath == old(self).filepath,
            final(self).window_height == old(self).window_height,
            final(self).dirty,
    {
        self.delete_selection();
        let (row, col) = self.cursor;
        let len = self.line_chars(row);
        let mut line = piece(&self.lines[row], 0, col);
        push_char(&mut line, c);
        let rest = piece(&self.lines[row], col, len);
        line.append(rest.as_str());
        let new_len = line.as_str().unicode_len();
        let ghost v = line@;
        self.lines.set(row, line);
        assert(self.text() =~= old(self).text_unselected().update(row as int, v));
        proof {
            lemma_line_view(self.lines@, row as int);
        }
        self.set_pinned_cursor(row, col + 1);
        self.dirty = true;
    }

    /// Splits the line at the cursor, in place of the selection if there is
    /// one, and moves to the start of the new line.
    pub fn newline(&mut self)
        requires
            old(self).wf(),
        ensures
            final(self).wf(),
            ({
                let t = old(self).text_unselected();
                let p = old(self).cursor_unselected();
                &&& final(self).text() == t.take(p.0 as int) + seq![
                    t[p.0 as int].take(p.1 as int),
                    t[p.0 as int].skip(p.1 as int),
                ] + t.skip(p.0 + 1)
                &&& final(self).cursor == ((p.0 + 1) as usize, 0usize)
                &&& final(self).window_top_line == scrolled_top(
                    p.0 + 1,
                    old(self).top_unselected(),
                    old(self).window_height as int,
                )
            }),
            final(self).pinned_col == 0,
            final(self).selection is None,
            final(self).clipboard == old(self).clipboard,
            final(self).filepath == old(self).filepath,
            final(self).window_height == old(self).window_height,
            final(self).dirty,
    {
        self.delete_selection();
        let (row, col) = self.cursor;
        proof {
            assert(self.lines.len() == self.lines@.len());
        }
        let len = self.line_chars(row);
        let head = piece(&self.lines[row], 0, col);
        let tail = piece(&self.lines[row], col, len);
        let ghost (hv, tv) = (head@, tail@);
        let lines = splice(&self.lines, row, row + 1, vec![head, tail]);
        assert(line_views(seq![head, tail]) =~= seq![hv, tv]);
        self.lines = lines;
        proof {
            assert(self.lines.len() == self.lines@.len());
        }
        assert(self.text()[row + 1] == tv);
        proof {
            lemma_line_view(self.lines@, row + 1);
        }
        assert(self.lines@.len() == self.text().len());
        self.set_pinned_cursor(row + 1, 0);
        self.dirty = true;
        self.scroll_into_view();
    }

    /// Deletes the selection, or else the character before the cursor,
    /// joining the line to the one above at its start.
    pub fn backward_delete(&mut self)
        requires
            old(self).wf(),
        ensures
            final(self).wf(),
            old(self).selection is Some ==> final(self).text() == old(self).text_unselected()
                && final(self).cursor == old(self).cursor_unselected() && final(self).selection is None
                && final(self).window_top_line == old(self).top_unselected() && final(self).dirty
                == old(self).dirty,
            old(self).selection is None ==> ({
                let t = old(self).text();
                let (row, col) = old(self).cursor;
                &&& col > 0 ==> final(self).text() == t.update(
                    row as int,
                    t[row as int].take(col - 1) + t[row as int].skip(col as int),
                ) && final(self).cursor == (row, (col - 1) as usize) && final(self).dirty
                &&& col == 0 && row > 0 ==> final(self).text() == t.take(row - 1) + seq![
                    t[row - 1] + t[row as int],
                ] + t.skip(row + 1) && final(self).cursor == (
                    (row - 1) as usize,
                    t[row - 1].len() as usize,
                ) && final(self).dirty
                &&& col == 0 && row == 0 ==> final(self).text() == t && final(self).cursor
                    == old(self).cursor && final(self).dirty == old(self).dirty
                &&& final(self).window_top_line == scrolled_top(
                    final(self).cursor.0 as int,
                    old(self).window_top_line as int,
                    old(self).window_height as int,
                )
                &&& final(self).selection is None
            }),
            final(self).clipboard == old(self).clipboard,
            final(self).filepath == old(self).filepath,
            final(self).window_height == old(self).window_height,
    {
        if self.selection.is_some() {
            self.delete_selection();
            return ;
        }
        let (row, col) = self.cursor;
        proof {
            assert(self.lines.len() == self.lines@.len());
        }
        if col > 0 {
            let len = self.line_chars(row);
            let mut line = piece(&self.lines[row], 0, col - 1);
            let rest = piece(&self.lines[row], col, len);
            line.append(rest.as_str());
            let ghost v = line@;
            self.lines.set(row, line);
            assert(self.text() =~= old(self).text().update(row as int, v));
            proof {
            lemma_line_view(self.lines@, row as int);
        }
            self.set_pinned_cursor(row, col - 1);
            self.dirty = true;
        } else if row > 0 {
            let prev_len = self.line_chars(row - 1);
            let mut joined = self.lines[row - 1].clone();
            joined.append(self.lines[row].as_str());
            let ghost v = joined@;
            let lines = splice(&self.lines, row - 1, row + 1, vec![joined]);
            assert(line_views(seq![joined]) =~= seq![v]);
            self.lines = lines;
            assert(self.text()[row - 1] == v);
            proof {
                lemma_line_view(self.lines@, row - 1);
            }
            assert(self.lines@.len() == self.text().len());
            self.set_pinned_cursor(row - 1, prev_len);
            self.dirty = true;
        }
        self.scroll_into_view();
    }

    /// Deletes the selection, or else the character at the cursor, joining
    /// the next line at a line's end.
    pub fn forward_delete(&mut self)
        requires
            old(self).wf(),
        ensures
            final(self).wf(),
            old(self).selection is Some ==> final(self).text() == old(self).text_unselected()
                && final(self).cursor == old(self).cursor_unselected() && final(self).selection is None
                && final(self).window_top_line == old(self).top_unselected() && final(self).dirty
                == old(self).dirty,
            old(self).selection is None ==> ({
                let t = old(self).text();
                let (row, col) = old(self).cursor;
                &&& col < t[row as int].len() ==> final(self).text() == t.update(
                    row as int,
                    t[row as int].take(col as int) + t[row as int].skip(col + 1),
                ) && final(self).dirty
                &&& col == t[row as int].len() && row + 1 < t.len() ==> final(self).text()
                    == t.take(row as int) + seq![t[row as int] + t[row + 1]] + t.skip(row + 2)
                    && final(self).dirty
                &&& col == t[row as int].len() && row + 1 == t.len() ==> final(self).text() == t
                    && final(self).dirty == old(self).dirty
                &&& final(self).cursor == old(self).cursor
                &&& final(self).window_top_line == scrolled_top(
                    row as int,
                    old(self).window_top_line as int,
                    old(self).window_height as int,
                )
                &&& final(self).selection is None
            }),
            final(self).clipboard == old(self).clipboard,
            final(self).filepath == old(self).filepath,
            final(self).window_height == old(self).window_height,
    {
        if self.selection.is_some() {
            self.delete_selection();
            return ;
        }
        let (row, col) = self.cursor;
        let len = self.line_chars(row);
        if col < len {
            let mut line = piece(&self.lines[row], 0, col);
            let rest = piece(&self.lines[row], col + 1, len);
            line.append(rest.as_str());
            let ghost v = line@;
            self.lines.set(row, line);
            assert(self.text() =~= old(self).text().update(row as int, v));
            proof {
            lemma_line_view(self.lines@, row as int);
        }
            self.dirty = true;
        } else if row < self.lines.len() - 1 {
            let mut joined = self.lines[row].clone();
            joined.append(self.lines[row + 1].as_str());
            let ghost v = joined@;
            let lines = splice(&self.lines, row, row + 2, vec![joined]);
            assert(line_views(seq![joined]) =~= seq![v]);
            self.lines = lines;
            assert(self.text()[row as int] == v);
            proof {
            lemma_line_view(self.lines@, row as int);
        }
            assert(self.lines@.len() == self.text().len());
            self.dirty = true;
        }
        self.scroll_into_view();
    }

    /// Indents by two spaces each line from the cursor to the selection's
    /// other end; cursor and selection move with their text.
    pub fn indent(&mut self)
        requires
            old(self).wf(),
        ensures
            final(self).wf(),
            final(self).text() == indented(
                old(self).text(),
                old(self).indent_rows().0,
                old(self).indent_rows().1,
            ),
            old(self).selection matches Some(s) ==> final(self).selection == Some(
                if s.0 > old(self).cursor.0 && s.1 == 0 {
                    s
                } else {
                    (s.0, (s.1 + 2) as usize)
                },
            ),
            old(self).selection is None ==> final(self).selection is None,
            final(self).cursor == ({
                let (c, s) = (
                    old(self).cursor,
                    match old(self).selection {
                        Some(s) => s,
                        None => old(self).cursor,
                    },
                );
                if c.0 > s.0 && c.1 == 0 {
                    c
                } else {
                    (c.0, (c.1 + 2) as usize)
                }
            }),
            final(self).clipboard == old(self).clipboard,
            final(self).filepath == old(self).filepath,
            final(self).window_height == old(self).window_height,
            final(self).window_top_line == old(self).window_top_line,
            final(self).pinned_col == old(self).pinned_col,
            final(self).dirty,
    {
        let (ci, cj) = self.cursor;
        let (si, sj) = match self.selection {
            Some(s) => s,
            None => self.cursor,
        };
        let xi = if si < ci {
            si
        } else {
            ci
        };
        let mut yi = if si < ci {
            ci
        } else {
            si
        };
        let yj = if sj < cj {
            cj
        } else {
            sj
        };
        if xi != yi && yj == 0 {
            yi -= 1;
        }
        let ghost text = self.text();
        proof {
            assert(self.lines.len() == self.lines@.len());
        }
        let mut k: usize = xi;
        while k <= yi
            invariant
                xi <= k <= yi + 1,
                yi < self.lines@.len(),
                self.lines@.len() <= usize::MAX,
                self.cursor == old(self).cursor,
                self.selection == old(self).selection,
                self.clipboard == old(self).clipboard,
                self.filepath == old(self).filepath,
                self.window_height == old(self).window_height,
                self.window_top_line == old(self).window_top_line,
                self.pinned_col == old(self).pinned_col,
                self.dirty == old(self).dirty,
                text.len() == self.lines@.len(),
                forall|m: int|
                    0 <= m < text.len() ==> #[trigger] self.text()[m] == if xi <= m < k {
                        seq![' ', ' '] + text[m]
                    } else {
                        text[m]
                    },
            decreases yi + 1 - k,
        {
            let mut line = String::from_str("  ");
            proof {
                reveal_strlit("  ");
                lemma_line_view(self.lines@, k as int);
            }
            assert(line@ =~= seq![' ', ' ']);
            line.append(self.lines[k].as_str());
            let ghost prev = self.text();
            let ghost v = line@;
            self.lines.set(k, line);
            assert(self.text() =~= prev.update(k as int, v));
            assert(v == seq![' ', ' '] + text[k as int]);
            k += 1;
        }
        assert(self.text() =~= indented(text, xi as int, yi as int));
        proof {
            lemma_line_view(self.lines@, si as int);
            lemma_line_view(self.lines@, ci as int);
            lemma_line_view(old(self).lines@, si as int);
            lemma_line_view(old(self).lines@, ci as int);
        }
        if let Some(_) = self.selection {
            if !(si > ci && sj == 0) {
                assert(xi <= si <= yi);
                let _indented_len = self.line_chars(si);
                self.selection = Some((si, sj + 2));
            }
        }
        if !(ci > si && cj == 0) {
            assert(xi <= ci <= yi);
            let _indented_len = self.line_chars(ci);
            self.cursor = (ci, cj + 2);
        }
        self.dirty = true;
    }

    /// Whether the character at line `i`, column `j` is selected.
    pub fn in_selection(&self, i: usize, j: usize) -> (r: bool)
        requires
            i < self.lines@.len(),
        ensures
            r == self.selects(i as int, j as int),
    {
        if self.line_chars(i) == j {
            return false;
        }
        let (si, sj) = match self.selection {
            Some(s) => s,
            None => return false,
        };
        let (ci, cj) = self.cursor;
        if before((ci, cj), (si, sj)) {
            !before((i, j), (ci, cj)) && before((i, j), (si, sj))
        } else {
            !before((i, j), (si, sj)) && before((i, j), (ci, cj))
        }
    }

    pub fn set_window_height(&mut self, height: usize)
        ensures
            final(self).window_height == height,
            final(self).lines == old(self).lines,
            final(self).cursor == old(self).cursor,
            final(self).selection == old(self).selection,
            final(self).clipboard == old(self).clipboard,
            final(self).filepath == old(self).filepath,
            final(self).window_top_line == old(self).window_top_line,
            final(self).pinned_col == old(self).pinned_col,
            final(self).dirty == old(self).dirty,
    {
        self.window_height = height;
    }

    /// Scrolls the window so that the cursor's line shows.
    pub fn scroll_into_view(&mut self)
        ensures
            final(self).window_top_line == scrolled_top(
                old(self).cursor.0 as int,
                old(self).window_top_line as int,
                old(self).window_height as int,
            ),
            final(self).lines == old(self).lines,
            final(self).cursor == old(self).cursor,
            final(self).selection == old(self).selection,
            final(self).clipboard == old(self).clipboard,
            final(self).filepath == old(self).filepath,
            final(self).window_height == old(self).window_height,
            final(self).pinned_col == old(self).pinned_col,
            final(self).dirty == old(self).dirty,
    {
        let (row, _) = self.cursor;
        let half_window_height = self.window_height / 2;
        if row >= self.window_top_line && row - self.window_top_line >= self.window_height {
            self.window_top_line = row - half_window_height;
        } else if row < self.window_top_line {
            self.window_top_line = if half_window_height <= row {
                row - half_window_height
            } else {
                0
            };
        }
    }
}

} // verus!
