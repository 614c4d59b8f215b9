//! The compositor: named windows laid over one another, and the fewest writes
//! that bring the screen up to date.
//!
//! The compositor owns its windows. Where several cover a cell, the one with
//! the highest priority shows, and of several with that priority the one that
//! was added last. [`Compositor::render`] works out the frame that the windows
//! make, compares it cell by cell with the frame it emitted last, and returns
//! one [`Patch`] for each longest run of changed cells in a row.

use vstd::prelude::*;
use crate::style::Cell;
use crate::window::{Window, WindowView};

verus! {

/// Whether window `i` shows over window `j` where both cover a cell: it has
/// the higher priority, or the same and is no earlier in the sequence.
pub open spec fn outranks(ws: Seq<WindowView>, i: int, j: int) -> bool {
    ws[j].priority < ws[i].priority || (ws[j].priority == ws[i].priority && j <= i)
}

/// Whether window `i` is the one that shows in the cell: it covers the cell
/// and shows over every window that covers it.
pub open spec fn is_top(ws: Seq<WindowView>, i: int, col: int, row: int) -> bool {
    &&& 0 <= i < ws.len()
    &&& ws[i].covers(col, row)
    &&& forall|j: int| 0 <= j < ws.len() && (#[trigger] ws[j]).covers(col, row) ==> outranks(ws, i, j)
}

/// The window that shows in the cell, of the first `n` windows.
pub open spec fn top_among(ws: Seq<WindowView>, n: int, col: int, row: int) -> Option<int>
    decreases n,
{
    if n <= 0 {
        None
    } else {
        let rest = top_among(ws, n - 1, col, row);
        if ws[n - 1].covers(col, row) && (rest is None || ws[rest->0].priority <= ws[n
            - 1].priority) {
            Some(n - 1)
        } else {
            rest
        }
    }
}

/// The window that shows in the cell, if any covers it.
pub open spec fn top_window(ws: Seq<WindowView>, col: int, row: int) -> Option<int> {
    top_among(ws, ws.len() as int, col, row)
}

/// What the windows show in the cell: the cell of the window on top, or
/// nothing where no window covers it.
pub open spec fn composite_cell(ws: Seq<WindowView>, col: int, row: int) -> Option<Cell> {
    match top_window(ws, col, row) {
        Some(i) => Some(ws[i].cell_at(col, row)),
        None => None,
    }
}

/// Of the first `n` windows, [`top_among`] names one that covers the cell and
/// shows over every other that does, or none where none covers it.
pub proof fn lemma_top_among(ws: Seq<WindowView>, n: int, col: int, row: int)
    requires
        0 <= n <= ws.len(),
    ensures
        match top_among(ws, n, col, row) {
            Some(i) => {
                &&& 0 <= i < n
                &&& ws[i].covers(col, row)
                &&& forall|j: int|
                    0 <= j < n && (#[trigger] ws[j]).covers(col, row) ==> outranks(ws, i, j)
            },
            None => forall|j: int| 0 <= j < n ==> !(#[trigger] ws[j]).covers(col, row),
        },
    decreases n,
{
    if n > 0 {
        lemma_top_among(ws, n - 1, col, row);
    }
}

/// The window on top is the one of highest priority that covers the cell,
/// and of several such the last: [`top_window`] names window `i` exactly if
/// [`is_top`] holds of it, and none exactly if no window covers the cell.
pub proof fn lemma_top_is_highest(ws: Seq<WindowView>, col: int, row: int)
    ensures
        forall|i: int| top_window(ws, col, row) == Some(i) <==> is_top(ws, i, col, row),
        top_window(ws, col, row) is None <==> forall|j: int|
            0 <= j < ws.len() ==> !(#[trigger] ws[j]).covers(col, row),
{
    lemma_top_among(ws, ws.len() as int, col, row);
    assert forall|i: int| is_top(ws, i, col, row) implies top_window(ws, col, row) == Some(
        i,
    ) by {
        let t = top_window(ws, col, row);
        assert(ws[i].covers(col, row));
        assert(t is Some);
        let k = t->0;
        assert(ws[k].covers(col, row));
        assert(outranks(ws, k, i));
        assert(outranks(ws, i, k));
    }
}

/// What the windows show depends on where they are and what they hold, not
/// on what they take as changed.
pub proof fn lemma_composite_same_picture(
    a: Seq<WindowView>,
    b: Seq<WindowView>,
    col: int,
    row: int,
)
    requires
        a.len() == b.len(),
        forall|i: int| 0 <= i < a.len() ==> (#[trigger] a[i]).same_picture(b[i]),
    ensures
        composite_cell(a, col, row) == composite_cell(b, col, row),
{
    lemma_top_among_same_picture(a, b, a.len() as int, col, row);
    match top_window(a, col, row) {
        Some(i) => {
            lemma_top_among(a, a.len() as int, col, row);
            assert(a[i].same_picture(b[i]));
        },
        None => {},
    }
}

proof fn lemma_top_among_same_picture(
    a: Seq<WindowView>,
    b: Seq<WindowView>,
    n: int,
    col: int,
    row: int,
)
    requires
        0 <= n <= a.len(),
        a.len() == b.len(),
        forall|i: int| 0 <= i < a.len() ==> (#[trigger] a[i]).same_picture(b[i]),
    ensures
        top_among(a, n, col, row) == top_among(b, n, col, row),
    decreases n,
{
    if n > 0 {
        lemma_top_among_same_picture(a, b, n - 1, col, row);
        lemma_top_among(a, n - 1, col, row);
        assert(a[n - 1].same_picture(b[n - 1]));
        match top_among(a, n - 1, col, row) {
            Some(k) => {
                assert(a[k].same_picture(b[k]));
            },
            None => {},
        }
    }
}

/// A grid of cells: what the screen shows, or is to show. A cell that no
/// window covers holds nothing.
#[derive(Debug)]
pub struct Frame {
    pub width: u16,
    pub height: u16,
    pub rows: Vec<Vec<Option<Cell>>>,
}

/// What a frame is.
pub struct FrameView {
    pub width: u16,
    pub height: u16,
    /// The rows from the top, each from the left.
    pub rows: Seq<Seq<Option<Cell>>>,
}

impl FrameView {
    /// Whether the frame has `height` rows of `width` cells.
    pub open spec fn wf(self) -> bool {
        &&& self.rows.len() == self.height
        &&& forall|r: int| 0 <= r < self.height ==> (#[trigger] self.rows[r]).len() == self.width
    }

    /// Whether the cell lies in the frame.
    pub open spec fn in_bounds(self, col: int, row: int) -> bool {
        0 <= col < self.width && 0 <= row < self.height
    }

    /// What the frame holds in the cell.
    pub open spec fn at(self, col: int, row: int) -> Option<Cell> {
        self.rows[row][col]
    }

    /// Whether no cell of the frame holds anything.
    pub open spec fn is_blank(self) -> bool {
        &&& self.wf()
        &&& forall|col: int, row: int|
            self.in_bounds(col, row) ==> (#[trigger] self.at(col, row)) is None
    }

    /// Whether the frame is what the windows show.
    pub open spec fn shows(self, ws: Seq<WindowView>) -> bool {
        &&& self.wf()
        &&& forall|col: int, row: int|
            self.in_bounds(col, row) ==> (#[trigger] self.at(col, row)) == composite_cell(
                ws,
                col,
                row,
            )
    }

    /// Whether the two frames have the same size.
    pub open spec fn same_size(self, other: FrameView) -> bool {
        self.width == other.width && self.height == other.height
    }
}

/// Whether the cell differs between the two frames.
pub open spec fn changed(before: FrameView, after: FrameView, col: int, row: int) -> bool {
    before.at(col, row) != after.at(col, row)
}

impl View for Frame {
    type V = FrameView;

    open spec fn view(&self) -> FrameView {
        FrameView {
            width: self.width,
            height: self.height,
            rows: Seq::new(self.rows@.len(), |r: int| self.rows@[r]@),
        }
    }
}

impl Frame {
    /// A frame of the size given in which no cell holds anything.
    pub fn blank(width: u16, height: u16) -> (f: Frame)
        ensures
            f@.width == width,
            f@.height == height,
            f@.is_blank(),
    {
        let mut rows: Vec<Vec<Option<Cell>>> = Vec::new();
        let mut r: u16 = 0;
        while r < height
            invariant
                r <= height,
                rows@.len() == r,
                forall|k: int| 0 <= k < r ==> (#[trigger] rows@[k])@.len() == width,
                forall|k: int, c: int| 0 <= k < r && 0 <= c < width ==> (#[trigger] rows@[k]@[c]) is None,
            decreases height - r,
        {
            let mut line: Vec<Option<Cell>> = Vec::new();
            let mut c: u16 = 0;
            while c < width
                invariant
                    c <= width,
                    line@.len() == c,
                    forall|k: int| 0 <= k < c ==> (#[trigger] line@[k]) is None,
                decreases width - c,
            {
                line.push(None);
                c += 1;
            }
            rows.push(line);
            r += 1;
        }
        let f = Frame { width, height, rows };
        proof {
            assert forall|col: int, row: int| f@.in_bounds(col, row) implies (#[trigger] f@.at(
                col,
                row,
            )) is None by {
                assert(f@.rows[row] == f.rows@[row]@);
                assert(f.rows@[row]@[col] is None);
            }
        }
        f
    }

    /// What the frame holds in the cell.
    pub fn get(&self, col: u16, row: u16) -> (c: Option<Cell>)
        requires
            self@.wf(),
            self@.in_bounds(col as int, row as int),
        ensures
            c == self@.at(col as int, row as int),
    {
        assert(self@.rows[row as int] == self.rows@[row as int]@);
        self.rows[row as usize][col as usize]
    }
}

/// One write: cells to put on row `y` from column `x` on. A cell that holds
/// nothing is written as the background.
#[derive(Debug)]
pub struct Patch {
    pub x: u16,
    pub y: u16,
    pub cells: Vec<Option<Cell>>,
}

/// What a patch is.
pub struct PatchView {
    pub x: u16,
    pub y: u16,
    pub cells: Seq<Option<Cell>>,
}

impl View for Patch {
    type V = PatchView;

    open spec fn view(&self) -> PatchView {
        PatchView { x: self.x, y: self.y, cells: self.cells@ }
    }
}

impl PatchView {
    /// Whether the patch writes to the cell.
    pub open spec fn covers(self, col: int, row: int) -> bool {
        row == self.y && self.x <= col < self.x + self.cells.len()
    }

    /// Whether the patch is a longest run of changed cells: it is not empty
    /// and lies in the frame, each of its cells differs between the frames
    /// and holds what the new frame holds, and the cells next to it on its
    /// row, where there are any, do not differ.
    pub open spec fn is_run(self, before: FrameView, after: FrameView) -> bool {
        &&& self.cells.len() > 0
        &&& self.y < after.height
        &&& self.x + self.cells.len() <= after.width
        &&& forall|k: int|
            0 <= k < self.cells.len() ==> changed(before, after, self.x + k, self.y as int) && (
            #[trigger] self.cells[k]) == after.at(self.x + k, self.y as int)
        &&& self.x > 0 ==> !changed(before, after, self.x - 1, self.y as int)
        &&& self.x + self.cells.len() < after.width ==> !changed(
            before,
            after,
            self.x + self.cells.len(),
            self.y as int,
        )
    }

    /// Whether the patch ends before the cell: on a row above, or on the same
    /// row with a cell between its end and the cell, or at the end of the
    /// row where `col` is past the row.
    pub open spec fn ends_before(self, col: int, row: int, width: int) -> bool {
        self.y < row || (self.y == row && (self.x + self.cells.len() < col || (col >= width
            && self.x + self.cells.len() <= width)))
    }

    /// Whether the patch comes before `other` with a gap: on a row above, or
    /// on the same row with at least one cell between the two.
    pub open spec fn precedes(self, other: PatchView) -> bool {
        self.y < other.y || (self.y == other.y && self.x + self.cells.len() < other.x)
    }
}

/// What a list of patches is.
pub open spec fn patches_view(patches: Seq<Patch>) -> Seq<PatchView> {
    Seq::new(patches.len(), |i: int| patches[i]@)
}

/// Whether some patch writes to the cell.
pub open spec fn written(patches: Seq<PatchView>, col: int, row: int) -> bool {
    exists|i: int| 0 <= i < patches.len() && (#[trigger] patches[i]).covers(col, row)
}

/// Whether the patches are the difference of the two frames: every patch is
/// a longest run of changed cells, the patches come row by row from the top
/// and left to right, and every changed cell is written by one of them.
pub open spec fn is_diff(patches: Seq<PatchView>, before: FrameView, after: FrameView) -> bool {
    &&& forall|i: int| 0 <= i < patches.len() ==> (#[trigger] patches[i]).is_run(before, after)
    &&& forall|i: int, j: int|
        0 <= i < j < patches.len() ==> (#[trigger] patches[i]).precedes(#[trigger] patches[j])
    &&& forall|col: int, row: int|
        after.in_bounds(col, row) && #[trigger] changed(before, after, col, row) ==> written(
            patches,
            col,
            row,
        )
}

/// The patches write to the changed cells and to no others.
pub proof fn lemma_diff_writes_changes(
    patches: Seq<PatchView>,
    before: FrameView,
    after: FrameView,
    col: int,
    row: int,
)
    requires
        is_diff(patches, before, after),
    ensures
        written(patches, col, row) <==> after.in_bounds(col, row) && changed(
            before,
            after,
            col,
            row,
        ),
{
    if written(patches, col, row) {
        let i = choose|i: int| 0 <= i < patches.len() && (#[trigger] patches[i]).covers(col, row);
        let p = patches[i];
        assert(p.is_run(before, after));
        let k = col - p.x;
        assert(p.cells[k] == after.at(p.x + k, p.y as int));
    }
}

/// Where nothing differs, nothing is written: the difference of a frame and
/// itself is no patch at all.
pub proof fn lemma_diff_of_equal_is_empty(patches: Seq<PatchView>, frame: FrameView)
    requires
        is_diff(patches, frame, frame),
    ensures
        patches.len() == 0,
{
    if patches.len() > 0 {
        let p = patches[0];
        assert(p.is_run(frame, frame));
        assert(p.cells[0] == frame.at(p.x + 0, p.y as int));
        assert(changed(frame, frame, p.x + 0, p.y as int));
    }
}

/// The patches that turn `before` into `after`: one for each longest run of
/// cells in a row that differ between the two, row by row from the top and
/// left to right.
pub fn diff(before: &Frame, after: &Frame) -> (patches: Vec<Patch>)
    requires
        before@.wf(),
        after@.wf(),
        before@.same_size(after@),
    ensures
        is_diff(patches_view(patches@), before@, after@),
{
    let width = after.width;
    let height = after.height;
    let mut patches: Vec<Patch> = Vec::new();
    let mut row: u16 = 0;
    while row < height
        invariant
            row <= height,
            width == after.width,
            height == after.height,
            before@.wf(),
            after@.wf(),
            before@.same_size(after@),
            forall|i: int|
                0 <= i < patches@.len() ==> (#[trigger] patches_view(patches@)[i]).is_run(
                    before@,
                    after@,
                ),
            forall|i: int, j: int|
                0 <= i < j < patches@.len() ==> (#[trigger] patches_view(patches@)[i]).precedes(
                    #[trigger] patches_view(patches@)[j],
                ),
            forall|i: int|
                0 <= i < patches@.len() ==> (#[trigger] patches_view(patches@)[i]).y < row,
            forall|c: int, r: int|
                0 <= c < width && 0 <= r < row && #[trigger] changed(before@, after@, c, r)
                    ==> written(patches_view(patches@), c, r),
        decreases height - row,
    {
        let mut col: u16 = 0;
        while col < width
            invariant
                col <= width,
                row < height,
                width == after.width,
                height == after.height,
                before@.wf(),
                after@.wf(),
                before@.same_size(after@),
                forall|i: int|
                    0 <= i < patches@.len() ==> (#[trigger] patches_view(patches@)[i]).is_run(
                        before@,
                        after@,
                    ),
                forall|i: int, j: int|
                    0 <= i < j < patches@.len() ==> (#[trigger] patches_view(
                        patches@,
                    )[i]).precedes(#[trigger] patches_view(patches@)[j]),
                forall|i: int|
                    0 <= i < patches@.len() ==> (#[trigger] patches_view(patches@)[i]).ends_before(
                        col as int,
                        row as int,
                        width as int,
                    ),
                forall|c: int, r: int|
                    0 <= c < width && (0 <= r < row || (r == row && c < col)) && #[trigger] changed(
                        before@,
                        after@,
                        c,
                        r,
                    ) ==> written(patches_view(patches@), c, r),
            decreases width - col,
        {
            if before.get(col, row) == after.get(col, row) {
                col += 1;
            } else {
                let start = col;
                let mut cells: Vec<Option<Cell>> = Vec::new();
                while col < width && !(before.get(col, row) == after.get(col, row))
                    invariant
                        start <= col <= width,
                        start < width,
                        row < height,
                        width == after.width,
                        height == after.height,
                        before@.wf(),
                        after@.wf(),
                        before@.same_size(after@),
                        cells@.len() == col - start,
                        col == start ==> changed(before@, after@, start as int, row as int),
                        forall|k: int|
                            0 <= k < cells@.len() ==> (#[trigger] cells@[k]) == after@.at(
                                start + k,
                                row as int,
                            ),
                        forall|k: int|
                            start <= k < col ==> #[trigger] changed(before@, after@, k, row as int),
                    ensures
                        start < col <= width,
                        cells@.len() == col - start,
                        col < width ==> !changed(before@, after@, col as int, row as int),
                        forall|k: int|
                            0 <= k < cells@.len() ==> (#[trigger] cells@[k]) == after@.at(
                                start + k,
                                row as int,
                            ),
                        forall|k: int|
                            start <= k < col ==> #[trigger] changed(before@, after@, k, row as int),
                    decreases width - col,
                {
                    cells.push(after.get(col, row));
                    col += 1;
                }
                let ghost old_patches = patches_view(patches@);
                let patch = Patch { x: start, y: row, cells };
                let ghost p = patch@;
                proof {
                    if start > 0 {
                        if changed(before@, after@, start - 1, row as int) {
                            assert(written(old_patches, start - 1, row as int));
                            let i = choose|i: int|
                                0 <= i < old_patches.len() && (#[trigger] old_patches[i]).covers(
                                    start - 1,
                                    row as int,
                                );
                            assert(old_patches[i].ends_before(
                                start as int,
                                row as int,
                                width as int,
                            ));
                        }
                    }
                    assert(p.is_run(before@, after@));
                }
                patches.push(patch);
                proof {
                    let new_patches = patches_view(patches@);
                    assert(new_patches.len() == old_patches.len() + 1);
                    assert(new_patches[old_patches.len() as int] == p);
                    assert forall|i: int| 0 <= i < old_patches.len() implies new_patches[i]
                        == old_patches[i] by {}
                    assert forall|i: int, j: int|
                        0 <= i < j < new_patches.len() implies (#[trigger] new_patches[i]).precedes(
                        #[trigger] new_patches[j],
                    ) by {
                        if j == old_patches.len() {
                            assert(old_patches[i].ends_before(
                                start as int,
                                row as int,
                                width as int,
                            ));
                        } else {
                            assert(old_patches[i].precedes(old_patches[j]));
                        }
                    }
                    assert forall|c: int, r: int|
                        0 <= c < width && (0 <= r < row || (r == row && c < col))
                            && #[trigger] changed(before@, after@, c, r) implies written(
                        new_patches,
                        c,
                        r,
                    ) by {
                        if r == row && c >= start {
                            assert(new_patches[old_patches.len() as int].covers(c, r));
                        } else {
                            assert(written(old_patches, c, r));
                            let i = choose|i: int|
                                0 <= i < old_patches.len() && (#[trigger] old_patches[i]).covers(
                                    c,
                                    r,
                                );
                            assert(new_patches[i].covers(c, r));
                        }
                    }
                }
                if col < width {
                    col += 1;
                }
                proof {
                    let new_patches = patches_view(patches@);
                    assert forall|i: int| 0 <= i < new_patches.len() implies (
                    #[trigger] new_patches[i]).ends_before(col as int, row as int, width as int) by {
                        if i < old_patches.len() {
                            assert(old_patches[i].ends_before(
                                start as int,
                                row as int,
                                width as int,
                            ));
                        }
                    }
                }
            }
        }
        row += 1;
    }
    patches
}

/// A window with the name it goes by and the tags it was given. The tags say
/// what the window is for and change nothing in how it shows.
#[derive(Debug)]
pub struct Entry {
    pub name: String,
    pub tags: Vec<String>,
    pub window: Window,
}

/// What `render` hands back: whether the screen is to be cleared first, and
/// the writes that follow.
#[derive(Debug)]
pub struct Update {
    pub clear: bool,
    pub patches: Vec<Patch>,
}

/// The names of the entries, in order.
pub open spec fn names_of(entries: Seq<Entry>) -> Seq<Seq<char>> {
    Seq::new(entries.len(), |i: int| entries[i].name@)
}

/// The windows of the entries, in order.
pub open spec fn windows_of(entries: Seq<Entry>) -> Seq<WindowView> {
    Seq::new(entries.len(), |i: int| entries[i].window@)
}

/// The windows with nothing taken as changed.
pub open spec fn cleaned(ws: Seq<WindowView>) -> Seq<WindowView> {
    Seq::new(ws.len(), |i: int| WindowView { dirty: Seq::empty(), all_dirty: false, ..ws[i] })
}

/// What a compositor is.
pub struct CompositorView {
    /// The names of the windows, in the order in which they were added. No
    /// name occurs twice.
    pub names: Seq<Seq<char>>,
    /// The windows, in the same order.
    pub windows: Seq<WindowView>,
    /// The frame that was emitted last.
    pub frame: FrameView,
}

impl CompositorView {
    /// Whether the compositor is in order: one window to a name, no name
    /// twice, and a frame of the size it says it has.
    pub open spec fn wf(self) -> bool {
        &&& self.names.len() == self.windows.len()
        &&& self.names.no_duplicates()
        &&& self.frame.wf()
    }

    /// Whether a window goes by the name.
    pub open spec fn has(self, name: Seq<char>) -> bool {
        self.names.contains(name)
    }

    /// The window that goes by the name, if there is one.
    pub open spec fn lookup(self, name: Seq<char>) -> Option<WindowView> {
        if self.has(name) {
            Some(self.windows[choose|i: int| 0 <= i < self.names.len() && self.names[i] == name])
        } else {
            None
        }
    }

    /// Whether `after` and `update` are what `render` leaves and hands back
    /// for a terminal of `size` (columns, rows).
    ///
    /// A terminal that has not the size of the frame emitted last is cleared,
    /// and the comparison is made with a frame of the new size that holds
    /// nothing. The frame kept is what the windows show, and the patches are
    /// what differs between the two. The windows stay, drawn: none takes
    /// anything as changed any more.
    pub open spec fn renders(
        self,
        size: (u16, u16),
        after: CompositorView,
        update: (bool, Seq<PatchView>),
    ) -> bool {
        let resized = size.0 != self.frame.width || size.1 != self.frame.height;
        &&& after.names == self.names
        &&& after.windows == cleaned(self.windows)
        &&& after.frame.width == size.0
        &&& after.frame.height == size.1
        &&& after.frame.shows(self.windows)
        &&& update.0 == resized
        &&& resized ==> exists|blank: FrameView|
            #![trigger blank.is_blank()]
            blank.is_blank() && blank.same_size(after.frame) && is_diff(
                update.1,
                blank,
                after.frame,
            )
        &&& !resized ==> is_diff(update.1, self.frame, after.frame)
    }
}

/// The window that goes by a name is the one that stands where the name
/// stands.
pub proof fn lemma_lookup_is(c: CompositorView, name: Seq<char>, j: int)
    requires
        c.wf(),
        0 <= j < c.names.len(),
        c.names[j] == name,
    ensures
        c.has(name),
        c.lookup(name) == Some(c.windows[j]),
{
    let i = choose|i: int| 0 <= i < c.names.len() && c.names[i] == name;
    assert(i == j);
}

/// A window put in the place of another goes by the other's name, and the
/// rest stay as they are.
pub proof fn lemma_lookup_updated(c: CompositorView, i: int, w: WindowView)
    requires
        c.wf(),
        0 <= i < c.names.len(),
    ensures
        (CompositorView { windows: c.windows.update(i, w), ..c }).wf(),
        (CompositorView { windows: c.windows.update(i, w), ..c }).lookup(c.names[i]) == Some(w),
        forall|n: Seq<char>|
            n != c.names[i] ==> (#[trigger] (CompositorView {
                windows: c.windows.update(i, w),
                ..c
            }).lookup(n)) == c.lookup(n),
{
    let d = CompositorView { windows: c.windows.update(i, w), ..c };
    lemma_lookup_is(d, c.names[i], i);
    assert forall|n: Seq<char>| n != c.names[i] implies (#[trigger] d.lookup(n)) == c.lookup(
        n,
    ) by {
        if c.has(n) {
            let j = choose|j: int| 0 <= j < c.names.len() && c.names[j] == n;
            lemma_lookup_is(c, n, j);
            lemma_lookup_is(d, n, j);
        }
    }
}

/// A window added under a new name goes by it, and the rest stay as they
/// are.
pub proof fn lemma_lookup_pushed(c: CompositorView, name: Seq<char>, w: WindowView)
    requires
        c.wf(),
        !c.has(name),
    ensures
        (CompositorView { names: c.names.push(name), windows: c.windows.push(w), ..c }).wf(),
        (CompositorView { names: c.names.push(name), windows: c.windows.push(w), ..c }).lookup(
            name,
        ) == Some(w),
        forall|n: Seq<char>|
            n != name ==> (#[trigger] (CompositorView {
                names: c.names.push(name),
                windows: c.windows.push(w),
                ..c
            }).lookup(n)) == c.lookup(n),
{
    let d = CompositorView { names: c.names.push(name), windows: c.windows.push(w), ..c };
    assert forall|i: int, j: int|
        0 <= i < d.names.len() && 0 <= j < d.names.len() && i != j implies d.names[i]
        != d.names[j] by {
        if i < c.names.len() && j < c.names.len() {
            assert(c.names[i] != c.names[j]);
        } else if i < c.names.len() {
            assert(c.names[i] != name);
        } else {
            assert(c.names[j] != name);
        }
    }
    lemma_lookup_is(d, name, c.names.len() as int);
    assert forall|n: Seq<char>| n != name implies (#[trigger] d.lookup(n)) == c.lookup(n) by {
        if c.has(n) {
            let j = choose|j: int| 0 <= j < c.names.len() && c.names[j] == n;
            lemma_lookup_is(c, n, j);
            lemma_lookup_is(d, n, j);
        } else if d.has(n) {
            let j = choose|j: int| 0 <= j < d.names.len() && d.names[j] == n;
            assert(c.names[j] == n);
        }
    }
}

/// A window taken out is gone, and the rest stay as they are.
pub proof fn lemma_lookup_removed(c: CompositorView, i: int)
    requires
        c.wf(),
        0 <= i < c.names.len(),
    ensures
        (CompositorView { names: c.names.remove(i), windows: c.windows.remove(i), ..c }).wf(),
        (CompositorView { names: c.names.remove(i), windows: c.windows.remove(i), ..c }).lookup(
            c.names[i],
        ) is None,
        forall|n: Seq<char>|
            n != c.names[i] ==> (#[trigger] (CompositorView {
                names: c.names.remove(i),
                windows: c.windows.remove(i),
                ..c
            }).lookup(n)) == c.lookup(n),
{
    let d = CompositorView { names: c.names.remove(i), windows: c.windows.remove(i), ..c };
    assert forall|a: int, b: int|
        0 <= a < d.names.len() && 0 <= b < d.names.len() && a != b implies d.names[a]
        != d.names[b] by {
        let a0 = if a < i {
            a
        } else {
            a + 1
        };
        let b0 = if b < i {
            b
        } else {
            b + 1
        };
        assert(c.names[a0] != c.names[b0]);
    }
    assert forall|a: int| 0 <= a < d.names.len() implies d.names[a] != c.names[i] by {
        let a0 = if a < i {
            a
        } else {
            a + 1
        };
        assert(c.names[a0] != c.names[i]);
    }
    assert forall|n: Seq<char>| n != c.names[i] implies (#[trigger] d.lookup(n)) == c.lookup(
        n,
    ) by {
        if c.has(n) {
            let j = choose|j: int| 0 <= j < c.names.len() && c.names[j] == n;
            lemma_lookup_is(c, n, j);
            let j0 = if j < i {
                j
            } else {
                j - 1
            };
            lemma_lookup_is(d, n, j0);
        } else if d.has(n) {
            let j = choose|j: int| 0 <= j < d.names.len() && d.names[j] == n;
            let j0 = if j < i {
                j
            } else {
                j + 1
            };
            assert(c.names[j0] == n);
        }
    }
}

/// A window with nothing taken as changed.
pub open spec fn clean(w: WindowView) -> WindowView {
    WindowView { dirty: Seq::empty(), all_dirty: false, ..w }
}

/// After a render every window is what it was, drawn.
pub proof fn lemma_lookup_cleaned(c: CompositorView, d: CompositorView)
    requires
        c.wf(),
        d.names == c.names,
        d.windows == cleaned(c.windows),
    ensures
        forall|n: Seq<char>|
            (#[trigger] d.lookup(n)) == (match c.lookup(n) {
                Some(w) => Some(clean(w)),
                None => None,
            }),
{
    assert forall|n: Seq<char>|
        (#[trigger] d.lookup(n)) == (match c.lookup(n) {
            Some(w) => Some(clean(w)),
            None => None,
        }) by {
        if c.has(n) {
            let j = choose|j: int| 0 <= j < c.names.len() && c.names[j] == n;
        }
    }
}

/// Two frames of one size that hold the same in every cell are one frame.
pub proof fn lemma_frames_equal(a: FrameView, b: FrameView)
    requires
        a.wf(),
        b.wf(),
        a.same_size(b),
        forall|col: int, row: int| a.in_bounds(col, row) ==> a.at(col, row) == b.at(col, row),
    ensures
        a == b,
{
    assert forall|r: int| 0 <= r < a.rows.len() implies a.rows[r] == b.rows[r] by {
        assert forall|c: int| 0 <= c < a.rows[r].len() implies a.rows[r][c] == b.rows[r][c] by {
            assert(a.in_bounds(c, r));
            assert(a.at(c, r) == b.at(c, r));
        }
        assert(a.rows[r] =~= b.rows[r]);
    }
    assert(a.rows =~= b.rows);
}

/// Idempotence: of two renders in a row, with the windows and the size of
/// the terminal left as they were, the second clears nothing and writes
/// nothing.
pub proof fn lemma_second_render_writes_nothing(
    start: CompositorView,
    size: (u16, u16),
    first: CompositorView,
    first_update: (bool, Seq<PatchView>),
    second: CompositorView,
    second_update: (bool, Seq<PatchView>),
)
    requires
        start.renders(size, first, first_update),
        first.renders(size, second, second_update),
    ensures
        !second_update.0,
        second_update.1.len() == 0,
        second.frame == first.frame,
{
    let ws = start.windows;
    let drawn = cleaned(ws);
    assert forall|col: int, row: int| first.frame.in_bounds(col, row) implies first.frame.at(
        col,
        row,
    ) == second.frame.at(col, row) by {
        lemma_composite_same_picture(ws, drawn, col, row);
        assert(second.frame.in_bounds(col, row));
    }
    lemma_frames_equal(first.frame, second.frame);
    lemma_diff_of_equal_is_empty(second_update.1, first.frame);
}

/// What one window alone shows: its own cell wherever it covers one, and
/// nothing elsewhere. With no window, nothing shows anywhere.
pub proof fn lemma_lone_window(w: WindowView, col: int, row: int)
    ensures
        composite_cell(seq![w], col, row) == (if w.covers(col, row) {
            Some(w.cell_at(col, row))
        } else {
            None
        }),
        composite_cell(Seq::empty(), col, row) is None,
{
    let ws = seq![w];
    assert(top_among(ws, 0, col, row) is None);
    assert(top_among(ws, 1, col, row) == (if w.covers(col, row) {
        Some(0int)
    } else {
        None
    }));
}

/// A window that moves changes nothing outside the place it leaves and the
/// place it comes to, whatever other windows there are.
pub proof fn lemma_move_is_local(
    ws: Seq<WindowView>,
    i: int,
    to: (u16, u16),
    col: int,
    row: int,
)
    requires
        0 <= i < ws.len(),
    ensures
        ({
            let moved = WindowView {
                rect: crate::window::Rect { x: to.0, y: to.1, ..ws[i].rect },
                ..ws[i]
            };
            !ws[i].covers(col, row) && !moved.covers(col, row) ==> composite_cell(ws, col, row)
                == composite_cell(ws.update(i, moved), col, row)
        }),
{
    let moved = WindowView {
        rect: crate::window::Rect { x: to.0, y: to.1, ..ws[i].rect },
        ..ws[i]
    };
    let after = ws.update(i, moved);
    if !ws[i].covers(col, row) && !moved.covers(col, row) {
        lemma_top_among_skips(ws, after, i, ws.len() as int, col, row);
        lemma_top_among(ws, ws.len() as int, col, row);
    }
}

proof fn lemma_top_among_skips(
    a: Seq<WindowView>,
    b: Seq<WindowView>,
    i: int,
    n: int,
    col: int,
    row: int,
)
    requires
        0 <= n <= a.len(),
        a.len() == b.len(),
        0 <= i < a.len(),
        !a[i].covers(col, row),
        !b[i].covers(col, row),
        forall|j: int| 0 <= j < a.len() && j != i ==> a[j] == b[j],
    ensures
        top_among(a, n, col, row) == top_among(b, n, col, row),
        top_among(a, n, col, row) != Some(i),
    decreases n,
{
    if n > 0 {
        lemma_top_among_skips(a, b, i, n - 1, col, row);
        lemma_top_among(a, n - 1, col, row);
    }
}

/// A window alone that moves changes every cell of the screen that lies in
/// the place it leaves or in the place it comes to and not in both, and no
/// cell outside the two: the vacated cells go blank and the new ones are
/// painted. A cell that lies in both changes where the window shows another
/// character or style there than before, and only there. So where the two
/// places have no cell in common, or the window looks the same in every
/// cell they share, the changed cells are those of the one place or the
/// other that are not in both.
pub proof fn lemma_move_alone(
    w: WindowView,
    to: (u16, u16),
    before: FrameView,
    after: FrameView,
    col: int,
    row: int,
)
    requires
        before.shows(seq![w]),
        after.shows(
            seq![WindowView { rect: crate::window::Rect { x: to.0, y: to.1, ..w.rect }, ..w }],
        ),
        before.same_size(after),
        before.in_bounds(col, row),
    ensures
        ({
            let moved = WindowView {
                rect: crate::window::Rect { x: to.0, y: to.1, ..w.rect },
                ..w
            };
            changed(before, after, col, row) <==> (if w.covers(col, row) && moved.covers(col, row) {
                w.cell_at(col, row) != moved.cell_at(col, row)
            } else {
                w.covers(col, row) || moved.covers(col, row)
            })
        }),
{
    let moved = WindowView { rect: crate::window::Rect { x: to.0, y: to.1, ..w.rect }, ..w };
    lemma_lone_window(w, col, row);
    lemma_lone_window(moved, col, row);
    assert(after.in_bounds(col, row));
    assert(before.at(col, row) == composite_cell(seq![w], col, row));
    assert(after.at(col, row) == composite_cell(seq![moved], col, row));
}

/// The owner of the windows and of the frame that was emitted last.
#[derive(Debug)]
pub struct Compositor {
    pub entries: Vec<Entry>,
    pub frame: Frame,
}

impl View for Compositor {
    type V = CompositorView;

    open spec fn view(&self) -> CompositorView {
        CompositorView {
            names: names_of(self.entries@),
            windows: windows_of(self.entries@),
            frame: self.frame@,
        }
    }
}

impl Compositor {
    /// A compositor without windows. Nothing has been emitted yet: its frame
    /// has no cell.
    pub fn new() -> (c: Compositor)
        ensures
            c@.wf(),
            c@.names.len() == 0,
            c@.frame.width == 0,
            c@.frame.height == 0,
    {
        Compositor { entries: Vec::new(), frame: Frame::blank(0, 0) }
    }

    /// Where the window of that name is, if there is one.
    fn find(&self, name: &String) -> (r: Option<usize>)
        ensures
            match r {
                Some(i) => i < self.entries@.len() && self@.names[i as int] == name@,
                None => !self@.has(name@),
            },
    {
        let mut i: usize = 0;
        while i < self.entries.len()
            invariant
                i <= self.entries.len(),
                forall|k: int| 0 <= k < i ==> self@.names[k] != name@,
            decreases self.entries.len() - i,
        {
            if self.entries[i].name == *name {
                return Some(i);
            }
            i += 1;
        }
        None
    }

    /// Whether a window goes by the name.
    pub fn contains_window(&self, name: String) -> (b: bool)
        ensures
            b == self@.has(name@),
    {
        match self.find(&name) {
            Some(i) => {
                assert(self@.names[i as int] == name@);
                true
            },
            None => false,
        }
    }

    /// How many windows there are.
    pub fn len(&self) -> (n: usize)
        ensures
            n == self@.names.len(),
    {
        self.entries.len()
    }

    /// Takes a window in under a name. A window that went by that name is
    /// replaced, and the new one stands where the old one stood; otherwise
    /// the new one comes last.
    pub fn add_window(&mut self, window: Window, name: String, tags: Vec<String>)
        requires
            old(self)@.wf(),
        ensures
            final(self)@.wf(),
            final(self)@.frame == old(self)@.frame,
            final(self)@.has(name@),
            old(self)@.has(name@) ==> exists|i: int|
                0 <= i < old(self)@.names.len() && old(self)@.names[i] == name@ && final(self)@
                    == (CompositorView {
                    windows: old(self)@.windows.update(i, window@),
                    ..old(self)@
                }),
            !old(self)@.has(name@) ==> final(self)@ == (CompositorView {
                names: old(self)@.names.push(name@),
                windows: old(self)@.windows.push(window@),
                ..old(self)@
            }),
            final(self)@.lookup(name@) == Some(window@),
            forall|n: Seq<char>|
                n != name@ ==> (#[trigger] final(self)@.lookup(n)) == old(self)@.lookup(n),
    {
        let ghost before = self@;
        match self.find(&name) {
            Some(i) => {
                self.entries.set(i, Entry { name, tags, window });
                proof {
                    assert(self@.names =~= before.names);
                    assert(self@.windows =~= before.windows.update(i as int, window@));
                    assert(self@.names[i as int] == name@);
                    lemma_lookup_updated(before, i as int, window@);
                }
            },
            None => {
                self.entries.push(Entry { name, tags, window });
                proof {
                    assert(self@.names =~= before.names.push(name@));
                    assert(self@.windows =~= before.windows.push(window@));
                    assert(self@.names[before.names.len() as int] == name@);
                    lemma_lookup_pushed(before, name@, window@);
                    assert forall|i: int, j: int|
                        0 <= i < self@.names.len() && 0 <= j < self@.names.len() && i
                            != j implies self@.names[i] != self@.names[j] by {
                        if i < before.names.len() && j < before.names.len() {
                            assert(before.names[i] != before.names[j]);
                        } else if i < before.names.len() {
                            assert(before.names[i] != name@);
                        } else {
                            assert(before.names[j] != name@);
                        }
                    }
                }
            },
        }
    }

    /// Takes the window of that name out and hands it back; nothing where
    /// there is none. What the window showed is gone from the screen with
    /// the next `render`.
    pub fn remove_window(&mut self, name: String) -> (removed: Option<Window>)
        requires
            old(self)@.wf(),
        ensures
            final(self)@.wf(),
            final(self)@.frame == old(self)@.frame,
            !final(self)@.has(name@),
            removed is Some <==> old(self)@.has(name@),
            removed matches Some(w) ==> exists|i: int|
                0 <= i < old(self)@.names.len() && old(self)@.names[i] == name@ && w@ == old(self)@.windows[i] && final(self)@.names == old(self)@.names.remove(i) && final(self)@.windows == old(self)@.windows.remove(i),
            removed is None ==> final(self)@ == old(self)@,
            (match removed {
                Some(w) => Some(w@),
                None => None,
            }) == old(self)@.lookup(name@),
            final(self)@.lookup(name@) is None,
            forall|n: Seq<char>|
                n != name@ ==> (#[trigger] final(self)@.lookup(n)) == old(self)@.lookup(n),
    {
        let ghost before = self@;
        match self.find(&name) {
            Some(i) => {
                let entry = self.entries.remove(i);
                proof {
                    assert(self@.names =~= before.names.remove(i as int));
                    assert(self@.windows =~= before.windows.remove(i as int));
                    assert(before.names[i as int] == name@);
                    lemma_lookup_removed(before, i as int);
                    lemma_lookup_is(before, name@, i as int);
                    assert forall|a: int, b: int|
                        0 <= a < self@.names.len() && 0 <= b < self@.names.len() && a
                            != b implies self@.names[a] != self@.names[b] by {
                        let a0 = if a < i {
                            a
                        } else {
                            a + 1
                        };
                        let b0 = if b < i {
                            b
                        } else {
                            b + 1
                        };
                        assert(before.names[a0] != before.names[b0]);
                    }
                    assert forall|a: int| 0 <= a < self@.names.len() implies self@.names[a]
                        != name@ by {
                        let a0 = if a < i {
                            a
                        } else {
                            a + 1
                        };
                        assert(before.names[a0] != before.names[i as int]);
                    }
                    assert(entry.window@ == before.windows[i as int]);
                }
                Some(entry.window)
            },
            None => None,
        }
    }

    /// The window of that name, to read.
    pub fn get_window(&self, name: String) -> (w: Option<&Window>)
        requires
            self@.wf(),
        ensures
            w is Some <==> self@.has(name@),
            w matches Some(window) ==> exists|i: int|
                0 <= i < self@.names.len() && self@.names[i] == name@ && window@
                    == self@.windows[i],
            (match w {
                Some(window) => Some(window@),
                None => None,
            }) == self@.lookup(name@),
    {
        match self.find(&name) {
            Some(i) => {
                assert(self@.names[i as int] == name@);
                proof {
                    lemma_lookup_is(self@, name@, i as int);
                }
                assert(self.entries@[i as int].window@ == self@.windows[i as int]);
                Some(&self.entries[i].window)
            },
            None => None,
        }
    }

    /// The window of that name, to change; nothing where there is none, so
    /// that a name that no window goes by cannot be used by mistake.
    pub fn get_window_mut(&mut self, name: String) -> (r: Option<&mut Window>)
        requires
            old(self)@.wf(),
        ensures
            r is Some <==> old(self)@.has(name@),
            r is None ==> *final(self) == *old(self),
            r matches Some(w) ==> exists|i: int|
                0 <= i < old(self)@.names.len() && old(self)@.names[i] == name@ && w@ == old(self)@.windows[i]
                    && final(self)@ == (CompositorView {
                    windows: old(self)@.windows.update(i, final(w)@),
                    ..old(self)@
                }),
            final(self)@.wf(),
            final(self)@.frame == old(self)@.frame,
            r matches Some(w) ==> Some(w@) == old(self)@.lookup(name@) && final(self)@.lookup(name@)
                == Some(final(w)@),
            forall|n: Seq<char>|
                n != name@ ==> (#[trigger] final(self)@.lookup(n)) == old(self)@.lookup(n),
    {
        let ghost before = self@;
        match self.find(&name) {
            Some(i) => {
                proof {
                    assert(before.names[i as int] == name@);
                    assert(self.entries@[i as int].window@ == before.windows[i as int]);
                    lemma_lookup_is(before, name@, i as int);
                }
                let w = &mut self.entries[i].window;
                proof {
                    let after = after_borrow(self)@;
                    assert(after.names =~= before.names);
                    assert(after.windows =~= before.windows.update(i as int, final(w)@));
                    lemma_lookup_updated(before, i as int, final(w)@);
                }
                Some(w)
            },
            None => None,
        }
    }

    /// The cell that the windows show at (`col`, `row`), given the cells of
    /// each window.
    fn cell_for(&self, grids: &Vec<Vec<Vec<Cell>>>, col: u16, row: u16) -> (c: Option<Cell>)
        requires
            grids@.len() == self.entries@.len(),
            forall|i: int|
                0 <= i < grids@.len() ==> (#[trigger] grids@[i])@.len()
                    == self@.windows[i].rect.height,
            forall|i: int, r: int|
                0 <= i < grids@.len() && 0 <= r < self@.windows[i].rect.height ==> (
                #[trigger] grids@[i]@[r])@.len() == self@.windows[i].rect.width,
            forall|i: int, r: int, k: int|
                0 <= i < grids@.len() && 0 <= r < self@.windows[i].rect.height && 0 <= k
                    < self@.windows[i].rect.width ==> (#[trigger] grids@[i]@[r]@[k])
                    == self@.windows[i].local_cell(k, r),
        ensures
            c == composite_cell(self@.windows, col as int, row as int),
    {
        let ghost ws = self@.windows;
        let mut best: Option<usize> = None;
        let mut i: usize = 0;
        while i < self.entries.len()
            invariant
                i <= self.entries.len(),
                ws == self@.windows,
                ws.len() == self.entries@.len(),
                match best {
                    Some(b) => top_among(ws, i as int, col as int, row as int) == Some(b as int)
                        && b < i,
                    None => top_among(ws, i as int, col as int, row as int) is None,
                },
            decreases self.entries.len() - i,
        {
            let w = &self.entries[i].window;
            assert(w@ == ws[i as int]);
            let covers = w.rect().contains(col, row);
            let wins = match best {
                Some(b) => {
                    assert(self.entries@[b as int].window@ == ws[b as int]);
                    self.entries[b].window.priority <= w.priority
                },
                None => true,
            };
            if covers && wins {
                best = Some(i);
            }
            i += 1;
        }
        match best {
            Some(b) => {
                let w = &self.entries[b].window;
                proof {
                    lemma_top_among(ws, ws.len() as int, col as int, row as int);
                    assert(w@ == ws[b as int]);
                    assert(ws[b as int].covers(col as int, row as int));
                }
                let r = (row - w.y) as usize;
                let k = (col - w.x) as usize;
                assert(grids@[b as int]@[r as int]@[k as int] == ws[b as int].local_cell(
                    k as int,
                    r as int,
                ));
                Some(grids[b][r][k])
            },
            None => None,
        }
    }

    /// Works out the frame that the windows make on a terminal of `size`
    /// (columns, rows), and the writes that turn what the screen shows into
    /// it.
    ///
    /// Where the terminal has not the size of the frame emitted last, the
    /// screen is to be cleared and the writes paint every cell that holds
    /// something. Otherwise the writes touch the cells that changed and no
    /// others, one write for each longest run of them in a row. The frame is
    /// kept for the next time, and the windows count as drawn.
    pub fn render(&mut self, size: (u16, u16)) -> (update: Update)
        requires
            old(self)@.wf(),
        ensures
            final(self)@.wf(),
            old(self)@.renders(size, final(self)@, (update.clear, patches_view(update.patches@))),
            forall|n: Seq<char>|
                (#[trigger] final(self)@.lookup(n)) == (match old(self)@.lookup(n) {
                    Some(w) => Some(clean(w)),
                    None => None,
                }),
    {
        let ghost before = self@;
        let ghost ws = self@.windows;
        let (width, height) = size;
        let resized = width != self.frame.width || height != self.frame.height;
        if resized {
            self.frame = Frame::blank(width, height);
        }
        let ghost base = self.frame@;
        // The cells of each window.
        let mut grids: Vec<Vec<Vec<Cell>>> = Vec::new();
        let mut i: usize = 0;
        while i < self.entries.len()
            invariant
                i <= self.entries.len(),
                ws == self@.windows,
                grids@.len() == i,
                forall|k: int|
                    0 <= k < i ==> (#[trigger] grids@[k])@.len() == ws[k].rect.height,
                forall|k: int, r: int|
                    0 <= k < i && 0 <= r < ws[k].rect.height ==> (#[trigger] grids@[k]@[r])@.len()
                        == ws[k].rect.width,
                forall|k: int, r: int, c: int|
                    0 <= k < i && 0 <= r < ws[k].rect.height && 0 <= c < ws[k].rect.width ==> (
                    #[trigger] grids@[k]@[r]@[c]) == ws[k].local_cell(c, r),
            decreases self.entries.len() - i,
        {
            assert(self.entries@[i as int].window@ == ws[i as int]);
            let g = self.entries[i].window.grid();
            grids.push(g);
            i += 1;
        }
        // The frame that the windows make.
        let mut rows: Vec<Vec<Option<Cell>>> = Vec::new();
        let mut row: u16 = 0;
        while row < height
            invariant
                row <= height,
                ws == self@.windows,
                rows@.len() == row,
                grids@.len() == self.entries@.len(),
                forall|k: int|
                    0 <= k < grids@.len() ==> (#[trigger] grids@[k])@.len() == ws[k].rect.height,
                forall|k: int, r: int|
                    0 <= k < grids@.len() && 0 <= r < ws[k].rect.height ==> (
                    #[trigger] grids@[k]@[r])@.len() == ws[k].rect.width,
                forall|k: int, r: int, c: int|
                    0 <= k < grids@.len() && 0 <= r < ws[k].rect.height && 0 <= c
                        < ws[k].rect.width ==> (#[trigger] grids@[k]@[r]@[c]) == ws[k].local_cell(
                        c,
                        r,
                    ),
                forall|r: int| 0 <= r < row ==> (#[trigger] rows@[r])@.len() == width,
                forall|r: int, c: int|
                    0 <= r < row && 0 <= c < width ==> (#[trigger] rows@[r]@[c]) == composite_cell(
                        ws,
                        c,
                        r,
                    ),
            decreases height - row,
        {
            let mut line: Vec<Option<Cell>> = Vec::new();
            let mut col: u16 = 0;
            while col < width
                invariant
                    col <= width,
                    row < height,
                    ws == self@.windows,
                    line@.len() == col,
                    grids@.len() == self.entries@.len(),
                    forall|k: int|
                        0 <= k < grids@.len() ==> (#[trigger] grids@[k])@.len()
                            == ws[k].rect.height,
                    forall|k: int, r: int|
                        0 <= k < grids@.len() && 0 <= r < ws[k].rect.height ==> (
                        #[trigger] grids@[k]@[r])@.len() == ws[k].rect.width,
                    forall|k: int, r: int, c: int|
                        0 <= k < grids@.len() && 0 <= r < ws[k].rect.height && 0 <= c
                            < ws[k].rect.width ==> (#[trigger] grids@[k]@[r]@[c])
                            == ws[k].local_cell(c, r),
                    forall|c: int|
                        0 <= c < col ==> (#[trigger] line@[c]) == composite_cell(
                            ws,
                            c,
                            row as int,
                        ),
                decreases width - col,
            {
                let cell = self.cell_for(&grids, col, row);
                line.push(cell);
                col += 1;
            }
            rows.push(line);
            row += 1;
        }
        let frame = Frame { width, height, rows };
        proof {
            assert forall|c: int, r: int| frame@.in_bounds(c, r) implies (#[trigger] frame@.at(
                c,
                r,
            )) == composite_cell(ws, c, r) by {
                assert(frame@.rows[r] == frame.rows@[r]@);
            }
            assert(frame@.shows(ws));
        }
        let patches = diff(&self.frame, &frame);
        let ghost new_frame = frame@;
        self.frame = frame;
        // The windows are drawn.
        let mut k: usize = 0;
        while k < self.entries.len()
            invariant
                k <= self.entries.len(),
                self.entries@.len() == ws.len(),
                self@.names == before.names,
                self.frame@ == new_frame,
                forall|j: int| 0 <= j < k ==> (#[trigger] self@.windows[j]) == cleaned(ws)[j],
                forall|j: int| k <= j < ws.len() ==> (#[trigger] self@.windows[j]) == ws[j],
            decreases self.entries.len() - k,
        {
            let ghost entries_before = self.entries@;
            let ghost windows_before = self@.windows;
            proof {
                assert(windows_before[k as int] == ws[k as int]);
                assert(entries_before[k as int].window@ == windows_before[k as int]);
            }
            self.entries[k].window.mark_clean();
            proof {
                assert(self.entries@.len() == entries_before.len());
                assert(names_of(self.entries@) =~= names_of(entries_before));
                assert forall|j: int| 0 <= j < k + 1 implies (#[trigger] self@.windows[j])
                    == cleaned(ws)[j] by {
                    if j < k {
                        assert(windows_before[j] == cleaned(ws)[j]);
                        assert(self.entries@[j] == entries_before[j]);
                    }
                }
                assert forall|j: int| k + 1 <= j < ws.len() implies (#[trigger] self@.windows[j])
                    == ws[j] by {
                    assert(windows_before[j] == ws[j]);
                    assert(self.entries@[j] == entries_before[j]);
                }
            }
            k += 1;
        }
        proof {
            assert(self@.windows =~= cleaned(ws));
            lemma_lookup_cleaned(before, self@);
            assert(is_diff(patches_view(patches@), base, new_frame));
            if resized {
                assert(base.is_blank() && base.same_size(self.frame@));
            }
        }
        Update { clear: resized, patches }
    }
}

} // verus!
