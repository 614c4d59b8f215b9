//! Windows: positioned, sized surfaces that hold styled lines.
//!
//! A window has a place on the screen, a priority, lines of text, and may have
//! a border, a title on the border and a style laid over all of its cells.
//! What it shows in each of its cells is [`WindowView::local_cell`]. A window
//! also keeps track of the lines that changed since it was last drawn.

use vstd::prelude::*;
use crate::style::{tokens_cells, Cell, ColorType, Span, Style, TokenView};

verus! {

/// A rectangle of cells, or, with `x` and `y` at 0, the size of the terminal.
#[derive(Clone, Copy, PartialEq, Eq, Structural, Debug)]
pub struct Rect {
    pub x: u16,
    pub y: u16,
    pub width: u16,
    pub height: u16,
}

impl Rect {
    /// Whether the cell in column `col` and row `row` lies in the rectangle.
    pub open spec fn covers(self, col: int, row: int) -> bool {
        &&& self.x <= col < self.x + self.width
        &&& self.y <= row < self.y + self.height
    }

    /// The rectangle with its corner at (`x`, `y`).
    pub fn new(x: u16, y: u16, width: u16, height: u16) -> (r: Rect)
        ensures
            r == (Rect { x, y, width, height }),
    {
        Rect { x, y, width, height }
    }

    /// The rectangle of the size given with its corner at (0, 0).
    pub fn sized(width: u16, height: u16) -> (r: Rect)
        ensures
            r == (Rect { x: 0, y: 0, width, height }),
    {
        Rect { x: 0, y: 0, width, height }
    }

    /// Computes [`Rect::covers`].
    pub fn contains(&self, col: u16, row: u16) -> (b: bool)
        ensures
            b == self.covers(col as int, row as int),
    {
        self.x <= col && (col as u32) < self.x as u32 + self.width as u32 && self.y <= row && (
        row as u32) < self.y as u32 + self.height as u32
    }
}

impl Default for Rect {
    fn default() -> (r: Rect)
        ensures
            r == (Rect { x: 0, y: 0, width: 0, height: 0 }),
    {
        Rect { x: 0, y: 0, width: 0, height: 0 }
    }
}

/// What a list of lines is: the tokens of each.
pub open spec fn lines_view(lines: Seq<Span>) -> Seq<Seq<TokenView>> {
    Seq::new(lines.len(), |i: int| lines[i]@)
}

/// Whether line `i` differs between two contents: it is in one and not in the
/// other, or it is in both and is not the same value.
pub open spec fn line_changed(
    before: Seq<Seq<TokenView>>,
    after: Seq<Seq<TokenView>>,
    i: int,
) -> bool {
    &&& 0 <= i
    &&& i < before.len() || i < after.len()
    &&& !(i < before.len() && i < after.len() && before[i] == after[i])
}

/// What a window is.
pub struct WindowView {
    /// Where the window is, and how large.
    pub rect: Rect,
    /// Of two windows that cover a cell, the one with the higher priority
    /// shows.
    pub priority: u16,
    /// The lines, first to last. There may be more or fewer than fit.
    pub lines: Seq<Seq<TokenView>>,
    pub bordered: bool,
    pub title: Option<Seq<TokenView>>,
    /// The style laid over every cell.
    pub color: Style,
    /// The lines that changed since the window was last drawn.
    pub dirty: Seq<usize>,
    /// The whole window is to be taken as changed.
    pub all_dirty: bool,
}

impl WindowView {
    /// Whether the cell of the window in column `c` and row `r`, counted from
    /// the window's corner, is on the border.
    pub open spec fn on_border(self, c: int, r: int) -> bool {
        self.bordered && (c == 0 || r == 0 || c == self.rect.width - 1 || r == self.rect.height
            - 1)
    }

    /// The character of the border in a cell on it.
    pub open spec fn border_char(self, c: int, r: int) -> char {
        if r == 0 {
            if c == 0 {
                '┌'
            } else if c == self.rect.width - 1 {
                '┐'
            } else {
                '─'
            }
        } else if r == self.rect.height - 1 {
            if c == 0 {
                '└'
            } else if c == self.rect.width - 1 {
                '┘'
            } else {
                '─'
            }
        } else {
            '│'
        }
    }

    /// The cells of the title, left to right; none where there is no title.
    pub open spec fn title_cells(self) -> Seq<Cell> {
        match self.title {
            Some(t) => tokens_cells(t),
            None => Seq::empty(),
        }
    }

    /// `cell` with the window's style laid over it.
    pub open spec fn overlaid(self, cell: Cell) -> Cell {
        Cell { ch: cell.ch, style: cell.style.join(self.color) }
    }

    /// What the interior shows in its column `c` and row `r`: the character
    /// of the line, where line `r` has one there, and a blank otherwise.
    pub open spec fn content_cell(self, c: int, r: int) -> Cell {
        if 0 <= r < self.lines.len() && 0 <= c < tokens_cells(self.lines[r]).len() {
            self.overlaid(tokens_cells(self.lines[r])[c])
        } else {
            Cell::blank(self.color)
        }
    }

    /// What the window shows in column `c` and row `r`, counted from its
    /// corner.
    ///
    /// A border takes the outermost rows and columns, and the title lies on
    /// the upper border from its second cell on, leaving the corners. The
    /// lines fill the interior from its upper left cell, cut off where they
    /// do not fit and padded with blanks where they end.
    pub open spec fn local_cell(self, c: int, r: int) -> Cell {
        if self.on_border(c, r) {
            if r == 0 && 1 <= c < self.rect.width - 1 && c - 1 < self.title_cells().len() {
                self.overlaid(self.title_cells()[c - 1])
            } else {
                Cell { ch: self.border_char(c, r), style: self.color }
            }
        } else if self.bordered {
            self.content_cell(c - 1, r - 1)
        } else {
            self.content_cell(c, r)
        }
    }

    /// Whether the window lies over the cell of the screen in column `col`
    /// and row `row`.
    pub open spec fn covers(self, col: int, row: int) -> bool {
        self.rect.covers(col, row)
    }

    /// What the window shows in the cell of the screen in column `col` and
    /// row `row`.
    pub open spec fn cell_at(self, col: int, row: int) -> Cell {
        self.local_cell(col - self.rect.x, row - self.rect.y)
    }

    /// Whether line `i` counts as changed since the window was last drawn.
    pub open spec fn line_dirty(self, i: usize) -> bool {
        self.all_dirty || self.dirty.contains(i)
    }

    /// Whether nothing counts as changed since the window was last drawn.
    pub open spec fn is_clean(self) -> bool {
        !self.all_dirty && self.dirty.len() == 0
    }

    /// The window with everything taken as changed.
    pub open spec fn touched(self) -> WindowView {
        WindowView { all_dirty: true, ..self }
    }

    /// Whether two windows show the same in every cell: they differ at most
    /// in what they take as changed.
    pub open spec fn same_picture(self, other: WindowView) -> bool {
        &&& self.rect == other.rect
        &&& self.priority == other.priority
        &&& self.lines == other.lines
        &&& self.bordered == other.bordered
        &&& self.title == other.title
        &&& self.color == other.color
    }
}

/// Whether `dirty` marks line `j` as it should once the lines before `upto`
/// have been compared: `j` is in it exactly if it was in `old_dirty` or is a
/// line before `upto` that changed.
pub open spec fn marked_at(
    dirty: Seq<usize>,
    old_dirty: Seq<usize>,
    before: Seq<Seq<TokenView>>,
    after: Seq<Seq<TokenView>>,
    upto: int,
    j: usize,
) -> bool {
    dirty.contains(j) <==> old_dirty.contains(j) || (j < upto && line_changed(
        before,
        after,
        j as int,
    ))
}

/// [`marked_at`] of every line.
pub open spec fn marked(
    dirty: Seq<usize>,
    old_dirty: Seq<usize>,
    before: Seq<Seq<TokenView>>,
    after: Seq<Seq<TokenView>>,
    upto: int,
) -> bool {
    forall|j: usize| #[trigger] marked_at(dirty, old_dirty, before, after, upto, j)
}

proof fn lemma_marked_step(
    dirty: Seq<usize>,
    next: Seq<usize>,
    old_dirty: Seq<usize>,
    before: Seq<Seq<TokenView>>,
    after: Seq<Seq<TokenView>>,
    i: usize,
)
    requires
        marked(dirty, old_dirty, before, after, i as int),
        next == (if line_changed(before, after, i as int) {
            dirty.push(i)
        } else {
            dirty
        }),
    ensures
        marked(next, old_dirty, before, after, i + 1),
{
    assert forall|j: usize| #[trigger] marked_at(next, old_dirty, before, after, i + 1, j) by {
        assert(marked_at(dirty, old_dirty, before, after, i as int, j));
        if line_changed(before, after, i as int) {
            assert(next[dirty.len() as int] == i);
            if dirty.contains(j) {
                let k = choose|k: int| 0 <= k < dirty.len() && dirty[k] == j;
                assert(next[k] == j);
            }
            if next.contains(j) && j != i {
                let k = choose|k: int| 0 <= k < next.len() && next[k] == j;
                assert(dirty[k] == j);
            }
        }
    }
}

/// A positioned, sized surface that holds styled lines.
#[derive(Debug)]
pub struct Window {
    pub x: u16,
    pub y: u16,
    pub width: u16,
    pub height: u16,
    pub priority: u16,
    pub lines: Vec<Span>,
    pub border: bool,
    pub title: Option<Span>,
    pub color: Style,
    pub dirty: Vec<usize>,
    pub all_dirty: bool,
}

impl View for Window {
    type V = WindowView;

    open spec fn view(&self) -> WindowView {
        WindowView {
            rect: Rect { x: self.x, y: self.y, width: self.width, height: self.height },
            priority: self.priority,
            lines: lines_view(self.lines@),
            bordered: self.border,
            title: match self.title {
                Some(t) => Some(t@),
                None => None,
            },
            color: self.color,
            dirty: self.dirty@,
            all_dirty: self.all_dirty,
        }
    }
}

impl Window {
    /// An empty window at `position` (column, row) of `size` (width,
    /// height): no line, no border, no title, no style. It is new, so all of
    /// it counts as changed.
    pub fn new(position: (u16, u16), priority: u16, size: (u16, u16)) -> (w: Window)
        ensures
            w@ == (WindowView {
                rect: Rect { x: position.0, y: position.1, width: size.0, height: size.1 },
                priority,
                lines: Seq::empty(),
                bordered: false,
                title: None,
                color: Style { bits: 0 },
                dirty: Seq::empty(),
                all_dirty: true,
            }),
    {
        let w = Window {
            x: position.0,
            y: position.1,
            width: size.0,
            height: size.1,
            priority,
            lines: Vec::new(),
            border: false,
            title: None,
            color: Style::plain(),
            dirty: Vec::new(),
            all_dirty: true,
        };
        assert(w@.lines =~= Seq::empty());
        w
    }

    /// Where the window is, and how large.
    pub fn rect(&self) -> (r: Rect)
        ensures
            r == self@.rect,
    {
        Rect { x: self.x, y: self.y, width: self.width, height: self.height }
    }

    /// Gives the window a new size. A window that has that size already is
    /// left as it is; one that changes counts as changed as a whole.
    pub fn resize(&mut self, size: (u16, u16))
        ensures
            final(self)@.rect == (Rect { width: size.0, height: size.1, ..old(self)@.rect }),
            final(self)@.all_dirty == (old(self)@.all_dirty || size.0 != old(self)@.rect.width
                || size.1 != old(self)@.rect.height),
            final(self)@ == (WindowView {
                rect: final(self)@.rect,
                all_dirty: final(self)@.all_dirty,
                ..old(self)@
            }),
    {
        if self.width != size.0 || self.height != size.1 {
            self.width = size.0;
            self.height = size.1;
            self.all_dirty = true;
        }
    }

    /// Puts the window elsewhere. A window that is there already is left as
    /// it is; one that moves counts as changed as a whole.
    pub fn move_to(&mut self, position: (u16, u16))
        ensures
            final(self)@.rect == (Rect { x: position.0, y: position.1, ..old(self)@.rect }),
            final(self)@.all_dirty == (old(self)@.all_dirty || position.0 != old(self)@.rect.x
                || position.1 != old(self)@.rect.y),
            final(self)@ == (WindowView {
                rect: final(self)@.rect,
                all_dirty: final(self)@.all_dirty,
                ..old(self)@
            }),
    {
        if self.x != position.0 || self.y != position.1 {
            self.x = position.0;
            self.y = position.1;
            self.all_dirty = true;
        }
    }

    /// Appends a line, which counts as changed.
    pub fn add_line(&mut self, span: Span)
        ensures
            final(self)@ == (WindowView {
                lines: old(self)@.lines.push(span@),
                dirty: old(self)@.dirty.push(old(self)@.lines.len() as usize),
                ..old(self)@
            }),
    {
        let n = self.lines.len();
        self.lines.push(span);
        self.dirty.push(n);
        assert(self@.lines =~= old(self)@.lines.push(span@));
    }

    /// Replaces the lines. The window counts as changed as a whole.
    pub fn from_lines(&mut self, spans: Vec<Span>)
        ensures
            final(self)@ == (WindowView {
                lines: lines_view(spans@),
                all_dirty: true,
                ..old(self)@
            }),
    {
        self.lines = spans;
        self.all_dirty = true;
    }

    /// Replaces the lines, and marks as changed those that differ from the
    /// line that stood in their place, and no others. Lines that were marked
    /// before stay marked. With the lines that the window has already,
    /// nothing is marked.
    pub fn try_update_lines(&mut self, spans: Vec<Span>)
        ensures
            final(self)@.lines == lines_view(spans@),
            final(self)@ == (WindowView {
                lines: final(self)@.lines,
                dirty: final(self)@.dirty,
                ..old(self)@
            }),
            forall|i: usize|
                final(self)@.dirty.contains(i) <==> old(self)@.dirty.contains(i) || line_changed(
                    old(self)@.lines,
                    final(self)@.lines,
                    i as int,
                ),
            lines_view(spans@) == old(self)@.lines ==> final(self)@ == old(self)@,
    {
        let before = self.lines.len();
        let after = spans.len();
        let n = if before > after {
            before
        } else {
            after
        };
        let ghost old_lines = self@.lines;
        let ghost new_lines = lines_view(spans@);
        let ghost old_dirty = self.dirty@;
        let mut i: usize = 0;
        while i < n
            invariant
                i <= n,
                before == self.lines.len(),
                after == spans.len(),
                n == if before > after {
                    before
                } else {
                    after
                },
                old_lines == lines_view(self.lines@),
                new_lines == lines_view(spans@),
                self.x == old(self).x,
                self.y == old(self).y,
                self.width == old(self).width,
                self.height == old(self).height,
                self.priority == old(self).priority,
                self.border == old(self).border,
                self.title == old(self).title,
                self.color == old(self).color,
                self.all_dirty == old(self).all_dirty,
                self.lines == old(self).lines,
                marked(self.dirty@, old_dirty, old_lines, new_lines, i as int),
                old_lines == new_lines ==> self.dirty@ == old_dirty,
            decreases n - i,
        {
            let changed = i >= before || i >= after || !self.lines[i].same(&spans[i]);
            let ghost dirty_before = self.dirty@;
            if changed {
                self.dirty.push(i);
            }
            proof {
                if i < before && i < after {
                    assert(old_lines[i as int] == self.lines@[i as int]@);
                    assert(new_lines[i as int] == spans@[i as int]@);
                }
                assert(changed == line_changed(old_lines, new_lines, i as int));
                lemma_marked_step(dirty_before, self.dirty@, old_dirty, old_lines, new_lines, i);
            }
            i += 1;
        }
        self.lines = spans;
        proof {
            assert forall|j: usize|
                self@.dirty.contains(j) <==> old_dirty.contains(j) || line_changed(
                    old_lines,
                    new_lines,
                    j as int,
                ) by {
                assert(marked_at(self.dirty@, old_dirty, old_lines, new_lines, n as int, j));
            }
            if new_lines == old_lines {
                assert(self@ == old(self)@);
            }
        }
    }

    /// Gives the window a border, which takes its outermost rows and
    /// columns.
    pub fn bordered(&mut self)
        ensures
            final(self)@ == (WindowView { bordered: true, all_dirty: true, ..old(self)@ }),
    {
        self.border = true;
        self.all_dirty = true;
    }

    /// Lays one more attribute over every cell of the window.
    pub fn colorize(&mut self, attr: ColorType)
        ensures
            forall|a: ColorType|
                final(self)@.color.has(a) == (old(self)@.color.has(a) || a == attr),
            final(self)@ == (WindowView {
                color: final(self)@.color,
                all_dirty: true,
                ..old(self)@
            }),
    {
        self.color = self.color.with(attr);
        self.all_dirty = true;
    }

    /// Gives the window a title, which lies on the upper border.
    pub fn titled(&mut self, title: Span)
        ensures
            final(self)@ == (WindowView { title: Some(title@), all_dirty: true, ..old(self)@ }),
    {
        self.title = Some(title);
        self.all_dirty = true;
    }

    /// Takes the whole window as changed.
    pub fn update_all(&mut self)
        ensures
            final(self)@ == old(self)@.touched(),
    {
        self.all_dirty = true;
    }

    /// Takes the window as drawn: nothing counts as changed any more.
    pub fn mark_clean(&mut self)
        ensures
            final(self)@ == (WindowView { dirty: Seq::empty(), all_dirty: false, ..old(self)@ }),
            final(self)@.is_clean(),
            final(self)@.same_picture(old(self)@),
    {
        self.dirty = Vec::new();
        self.all_dirty = false;
    }

    /// Whether anything counts as changed since the window was last drawn.
    pub fn is_dirty(&self) -> (b: bool)
        ensures
            b == !self@.is_clean(),
    {
        self.all_dirty || self.dirty.len() > 0
    }

    fn border_cell(&self, c: u16, r: u16) -> (ch: char)
        requires
            c < self.width,
            r < self.height,
        ensures
            ch == self@.border_char(c as int, r as int),
    {
        if r == 0 {
            if c == 0 {
                '┌'
            } else if c == self.width - 1 {
                '┐'
            } else {
                '─'
            }
        } else if r == self.height - 1 {
            if c == 0 {
                '└'
            } else if c == self.width - 1 {
                '┘'
            } else {
                '─'
            }
        } else {
            '│'
        }
    }

    /// The cells of row `r` of the window, left to right.
    fn row(&self, r: u16, title: &Vec<Cell>) -> (v: Vec<Cell>)
        requires
            r < self.height,
            title@ == self@.title_cells(),
        ensures
            v@.len() == self.width,
            forall|c: int| 0 <= c < self.width ==> v@[c] == self@.local_cell(c, r as int),
    {
        let inset: u16 = if self.border {
            1
        } else {
            0
        };
        let edge_row = self.border && (r == 0 || r == self.height - 1);
        let line: Vec<Cell> = if !edge_row && ((r - inset) as usize) < self.lines.len() {
            self.lines[(r - inset) as usize].cells()
        } else {
            Vec::new()
        };
        let mut v: Vec<Cell> = Vec::new();
        let mut c: u16 = 0;
        while c < self.width
            invariant
                c <= self.width,
                r < self.height,
                v@.len() == c,
                title@ == self@.title_cells(),
                inset == (if self.border {
                    1u16
                } else {
                    0u16
                }),
                edge_row == (self.border && (r == 0 || r == self.height - 1)),
                !edge_row && r - inset < self.lines.len() ==> line@ == tokens_cells(
                    self@.lines[r - inset],
                ),
                forall|k: int| 0 <= k < c ==> v@[k] == self@.local_cell(k, r as int),
            decreases self.width - c,
        {
            let cell = if self.border && (c == 0 || r == 0 || c == self.width - 1 || r
                == self.height - 1) {
                if r == 0 && 1 <= c && c < self.width - 1 && ((c - 1) as usize) < title.len() {
                    let t = title[(c - 1) as usize];
                    Cell { ch: t.ch, style: t.style.union(self.color) }
                } else {
                    Cell { ch: self.border_cell(c, r), style: self.color }
                }
            } else {
                let ic = (c - inset) as usize;
                if ((r - inset) as usize) < self.lines.len() && ic < line.len() {
                    let t = line[ic];
                    Cell { ch: t.ch, style: t.style.union(self.color) }
                } else {
                    Cell { ch: ' ', style: self.color }
                }
            };
            assert(cell == self@.local_cell(c as int, r as int));
            v.push(cell);
            c += 1;
        }
        v
    }

    /// All the cells of the window: its rows from the top, each from the
    /// left.
    pub fn grid(&self) -> (g: Vec<Vec<Cell>>)
        ensures
            g@.len() == self@.rect.height,
            forall|r: int| 0 <= r < self@.rect.height ==> (#[trigger] g@[r])@.len() == self@.rect.width,
            forall|r: int, c: int|
                0 <= r < self@.rect.height && 0 <= c < self@.rect.width ==> (#[trigger] g@[r]@[c])
                    == self@.local_cell(c, r),
    {
        let title: Vec<Cell> = match &self.title {
            Some(t) => t.cells(),
            None => Vec::new(),
        };
        let mut g: Vec<Vec<Cell>> = Vec::new();
        let mut r: u16 = 0;
        while r < self.height
            invariant
                r <= self.height,
                g@.len() == r,
                title@ == self@.title_cells(),
                forall|k: int| 0 <= k < r ==> (#[trigger] g@[k])@.len() == self.width,
                forall|k: int, c: int|
                    0 <= k < r && 0 <= c < self.width ==> (#[trigger] g@[k]@[c])
                        == self@.local_cell(c, k),
            decreases self.height - r,
        {
            let row = self.row(r, &title);
            g.push(row);
            r += 1;
        }
        g
    }
}

} // verus!
