//! The 80x24 terminal screen: a row-major buffer of bytes, one per
//! cell, and the byte that drawing operations paint with.
use vstd::prelude::*;
use vstd::arithmetic::div_mod::lemma_fundamental_div_mod_converse;

verus! {

/// Number of columns of the terminal screen.
pub const COLS: usize = 80;

/// Number of rows of the terminal screen.
pub const ROWS: usize = 24;

/// Number of cells of the terminal screen.
pub const SCREEN_SIZE: usize = COLS * ROWS;

/// The byte a cell holds when nothing is drawn on it.
pub const BLANK: u8 = 32u8;

/// The byte drawing operations paint with on a fresh screen.
pub const DEFAULT_PIXEL: u8 = 35u8;

/// Whether `p` names a cell of the buffer: both coordinates are
/// nonnegative and the row-major offset lies inside the buffer.
/// (A column past the last one wraps into the next row.)
pub open spec fn valid_viewport_point(p: [i32; 2]) -> bool {
    &&& p[0] >= 0
    &&& p[1] >= 0
    &&& p[0] + p[1] * COLS < SCREEN_SIZE
}

/// Row-major offset of a viewport point: column plus row times width.
pub open spec fn offset_of(p: [i32; 2]) -> int {
    p[0] + p[1] * COLS
}

/// A buffer of the screen's size that holds only blanks.
pub open spec fn blank_cells() -> Seq<u8> {
    Seq::new(SCREEN_SIZE as nat, |i: int| BLANK)
}

/// The terminal screen.
pub struct Screen {
    cells: Vec<u8>,
    pixel: u8,
}

impl Screen {
    /// The cells of the screen, row 0 first.
    pub closed spec fn cells(&self) -> Seq<u8> {
        self.cells@
    }

    /// The byte drawing operations paint with.
    pub closed spec fn pixel(&self) -> u8 {
        self.pixel
    }

    /// The buffer has exactly one byte per cell.
    pub open spec fn wf(&self) -> bool {
        self.cells().len() == SCREEN_SIZE
    }

    /// A blank screen that paints with `#`.
    pub fn new() -> (s: Screen)
        ensures
            s.wf(),
            s.cells() == blank_cells(),
            s.pixel() == DEFAULT_PIXEL,
            s.cells().len() == 1920,
            forall|i: int| 0 <= i < 1920 ==> #[trigger] s.cells()[i] == 32u8,
            s.pixel() == 35u8,
    {
        Screen { cells: blank_buffer(), pixel: DEFAULT_PIXEL }
    }

    /// The content of the cell at row-major offset `offset`.
    pub fn cell(&self, offset: usize) -> (c: u8)
        requires
            self.wf(),
            offset < SCREEN_SIZE,
        ensures
            c == self.cells()[offset as int],
    {
        self.cells[offset]
    }
}

/// A fresh buffer of blanks.
fn blank_buffer() -> (v: Vec<u8>)
    ensures
        v@ == blank_cells(),
{
    let mut v: Vec<u8> = Vec::new();
    while v.len() < SCREEN_SIZE
        invariant
            v.len() <= SCREEN_SIZE,
            forall|i: int| 0 <= i < v.len() ==> v@[i] == BLANK,
        decreases SCREEN_SIZE - v.len(),
    {
        v.push(BLANK);
    }
    assert(v@ =~= blank_cells());
    v
}

/// Whether `p` names a cell of the screen (see `valid_viewport_point`).
pub fn in_viewport(p: [i32; 2]) -> (b: bool)
    ensures
        b == valid_viewport_point(p),
        b == (p[0] >= 0 && p[1] >= 0 && p[0] + p[1] * 80 < 1920),
{
    if p[0] < 0 || p[1] < 0 {
        return false;
    }
    let x: i64 = p[0] as i64;
    let y: i64 = p[1] as i64;
    x + y * 80 < 1920
}

/// The row-major offset of a point of the screen.
pub fn viewport_offset(p: [i32; 2]) -> (o: usize)
    requires
        valid_viewport_point(p),
    ensures
        o == offset_of(p),
        o == p[0] + p[1] * 80,
        o < SCREEN_SIZE,
{
    p[0] as usize + p[1] as usize * COLS
}

/// Paint the cell at viewport point `p` with the current pixel byte.
pub fn draw_point_viewport(screen: &mut Screen, p: [i32; 2])
    requires
        old(screen).wf(),
        valid_viewport_point(p),
    ensures
        final(screen).wf(),
        final(screen).cells() == old(screen).cells().update(offset_of(p), old(screen).pixel()),
        final(screen).pixel() == old(screen).pixel(),
        final(screen).cells().len() == old(screen).cells().len(),
        final(screen).cells()[p[0] + p[1] * 80] == old(screen).pixel(),
        forall|k: int|
            0 <= k < SCREEN_SIZE && k != p[0] + p[1] * 80 ==> #[trigger] final(screen).cells()[k]
                == old(screen).cells()[k],
{
    let o = viewport_offset(p);
    let c = screen.pixel;
    screen.cells.set(o, c);
}

/// Change the byte that drawing operations paint with.
pub fn pixel_char(screen: &mut Screen, chr: u8)
    ensures
        final(screen).cells() == old(screen).cells(),
        final(screen).pixel() == chr,
{
    screen.pixel = chr;
}

/// The byte that drawing operations paint with.
pub fn current_pixel_char(screen: &Screen) -> (c: u8)
    ensures
        c == screen.pixel(),
{
    screen.pixel
}


/// `cells` with every cell whose offset occurs in `offsets` painted
/// with `c`, the others unchanged.
pub open spec fn painted(cells: Seq<u8>, offsets: Seq<usize>, c: u8) -> Seq<u8> {
    Seq::new(cells.len(), |k: int| if offsets.contains(k as usize) { c } else { cells[k] })
}

/// Paint every cell whose offset is listed with the current pixel byte.
pub fn plot_cells(screen: &mut Screen, offsets: &Vec<usize>)
    requires
        old(screen).wf(),
        forall|i: int| 0 <= i < offsets.len() ==> #[trigger] offsets@[i] < SCREEN_SIZE,
    ensures
        final(screen).wf(),
        final(screen).cells() == painted(old(screen).cells(), offsets@, old(screen).pixel()),
        final(screen).pixel() == old(screen).pixel(),
        final(screen).cells().len() == SCREEN_SIZE,
        forall|k: int|
            0 <= k < SCREEN_SIZE ==> #[trigger] final(screen).cells()[k] == if exists|i: int|
                0 <= i < offsets.len() && offsets@[i] == k {
                old(screen).pixel()
            } else {
                old(screen).cells()[k]
            },
{
    let ghost start = screen.cells();
    let c = screen.pixel;
    let n = offsets.len();
    assert(painted(start, offsets@.take(0), c) =~= start);
    for i in 0..n
        invariant
            n == offsets.len(),
            start.len() == SCREEN_SIZE,
            screen.pixel() == c,
            forall|j: int| 0 <= j < offsets.len() ==> #[trigger] offsets@[j] < SCREEN_SIZE,
            screen.cells() == painted(start, offsets@.take(i as int), c),
    {
        let o = offsets[i];
        screen.cells.set(o, c);
        proof {
            let before = offsets@.take(i as int);
            let after = offsets@.take(i + 1);
            assert(after =~= before.push(o));
            assert forall|k: int| 0 <= k < start.len() implies
                (#[trigger] after.contains(k as usize)) == (before.contains(k as usize) || k == o) by {
                if k == o {
                    assert(after[i as int] == o);
                }
                if before.contains(k as usize) {
                    let w = choose|w: int| 0 <= w < before.len() && before[w] == k as usize;
                    assert(after[w] == k as usize);
                }
                if after.contains(k as usize) && k != o {
                    let w = choose|w: int| 0 <= w < after.len() && after[w] == k as usize;
                    assert(w < i);
                    assert(before[w] == k as usize);
                }
            }
            assert(screen.cells() =~= painted(start, after, c));
        }
    }
    assert(offsets@.take(n as int) =~= offsets@);
    proof {
        law_painted_cells(start, offsets@, c);
    }
}

/// Plotting a list of offsets paints exactly the listed cells: a cell
/// holds the paint byte when some entry of the list names it, and keeps
/// its byte otherwise.
pub proof fn law_painted_cells(cells: Seq<u8>, offsets: Seq<usize>, c: u8)
    requires
        cells.len() <= SCREEN_SIZE,
    ensures
        painted(cells, offsets, c).len() == cells.len(),
        forall|k: int|
            0 <= k < cells.len() ==> #[trigger] painted(cells, offsets, c)[k] == if exists|i: int|
                0 <= i < offsets.len() && offsets[i] == k {
                c
            } else {
                cells[k]
            },
{
    assert forall|k: int| 0 <= k < cells.len() implies #[trigger] painted(cells, offsets, c)[k]
        == if exists|i: int| 0 <= i < offsets.len() && offsets[i] == k {
        c
    } else {
        cells[k]
    } by {
        if exists|i: int| 0 <= i < offsets.len() && offsets[i] == k {
            let i = choose|i: int| 0 <= i < offsets.len() && offsets[i] == k;
            assert(offsets[i] == k as usize);
            assert(offsets.contains(k as usize));
        } else if offsets.contains(k as usize) {
            let w = choose|w: int| 0 <= w < offsets.len() && offsets[w] == k as usize;
            assert(offsets[w] == k);
        }
    }
}

/// Blank every cell; the pixel byte is kept.
pub fn clear_screen(screen: &mut Screen)
    ensures
        final(screen).wf(),
        final(screen).cells() == blank_cells(),
        final(screen).pixel() == old(screen).pixel(),
        final(screen).cells().len() == 1920,
        forall|i: int| 0 <= i < 1920 ==> #[trigger] final(screen).cells()[i] == 32u8,
{
    screen.cells = blank_buffer();
}


/// A coordinate below zero counts as zero (a float-to-unsigned cast
/// saturates there).
pub open spec fn clamp0(v: int) -> int {
    if v < 0 {
        0
    } else {
        v
    }
}

/// The smaller of the two rows of a segment.
pub open spec fn low_row(og: [i32; 2], dst: [i32; 2]) -> int {
    if og[1] > dst[1] {
        dst[1] as int
    } else {
        og[1] as int
    }
}

/// The larger of the two rows of a segment.
pub open spec fn high_row(og: [i32; 2], dst: [i32; 2]) -> int {
    if og[1] > dst[1] {
        og[1] as int
    } else {
        dst[1] as int
    }
}

/// The offsets a vertical segment in column `x` from row `lo` up to row
/// `hi` paints, one per row, bottom row first; a negative column or row
/// lands on column or row 0.
pub open spec fn vertical_cells(x: int, lo: int, hi: int) -> Seq<usize> {
    Seq::new((hi - lo + 1) as nat, |k: int| (clamp0(x) + clamp0(lo + k) * COLS) as usize)
}

/// The offsets, in painting order, of the cells of a vertical segment
/// between `og` and `dst` (which share their column): one per row from
/// the lower row to the higher one, whatever order the ends come in.
pub fn vertical_line_cells(og: [i32; 2], dst: [i32; 2]) -> (cells: Vec<usize>)
    requires
        og[0] == dst[0],
        low_row(og, dst) >= -16777216,
        clamp0(og[0] as int) + clamp0(high_row(og, dst)) * COLS < SCREEN_SIZE,
    ensures
        cells@ == vertical_cells(og[0] as int, low_row(og, dst), high_row(og, dst)),
        forall|i: int| 0 <= i < cells.len() ==> #[trigger] cells@[i] < SCREEN_SIZE,
        cells.len() == (if og[1] > dst[1] { og[1] - dst[1] } else { dst[1] - og[1] }) + 1,
        forall|k: int|
            0 <= k < cells.len() ==> #[trigger] cells@[k] == (if og[0] < 0 {
                0
            } else {
                og[0] as int
            }) + (if (if og[1] > dst[1] { dst[1] as int } else { og[1] as int }) + k < 0 {
                0
            } else {
                (if og[1] > dst[1] { dst[1] as int } else { og[1] as int }) + k
            }) * COLS,
{
    let lo: i32 = if og[1] > dst[1] { dst[1] } else { og[1] };
    let hi: i32 = if og[1] > dst[1] { og[1] } else { dst[1] };
    let xs: usize = if og[0] < 0 { 0 } else { og[0] as usize };
    let ghost spec_cells = vertical_cells(og[0] as int, lo as int, hi as int);
    let mut cells: Vec<usize> = Vec::new();
    let mut y: i32 = lo;
    while y <= hi
        invariant
            lo <= y <= hi + 1,
            hi < ROWS,
            xs == clamp0(og[0] as int),
            xs + clamp0(hi as int) * COLS < SCREEN_SIZE,
            lo == low_row(og, dst),
            hi == high_row(og, dst),
            spec_cells == vertical_cells(og[0] as int, lo as int, hi as int),
            cells@ == spec_cells.take(y - lo),
            forall|i: int| 0 <= i < cells.len() ==> #[trigger] cells@[i] < SCREEN_SIZE,
        decreases hi + 1 - y,
    {
        let ys: usize = if y < 0 { 0 } else { y as usize };
        let o: usize = xs + ys * COLS;
        cells.push(o);
        proof {
            assert(spec_cells[y - lo] == o);
            assert(cells@ =~= spec_cells.take(y - lo + 1));
        }
        y = y + 1;
    }
    assert(spec_cells.take(y - lo) =~= spec_cells);
    proof {
        law_vertical_line_every_row(og, dst);
    }
    cells
}

/// A vertical segment paints one cell for every row from its lower end
/// to its higher end, inclusive: the `k`-th offset is the cell of row
/// `lo + k` in the segment's column, a negative row or column counting
/// as 0.
pub proof fn law_vertical_line_every_row(og: [i32; 2], dst: [i32; 2])
    requires
        clamp0(og[0] as int) + clamp0(high_row(og, dst)) * COLS < SCREEN_SIZE,
    ensures
        ({
            let lo: int = if og[1] > dst[1] { dst[1] as int } else { og[1] as int };
            let hi: int = if og[1] > dst[1] { og[1] as int } else { dst[1] as int };
            let x: int = if og[0] < 0 { 0 } else { og[0] as int };
            let cells = vertical_cells(og[0] as int, low_row(og, dst), high_row(og, dst));
            &&& cells.len() == hi - lo + 1
            &&& forall|k: int|
                0 <= k <= hi - lo ==> (#[trigger] cells[k]) as int == x + (if lo + k < 0 {
                    0
                } else {
                    lo + k
                }) * COLS
        }),
{
    let lo = low_row(og, dst);
    let hi = high_row(og, dst);
    let cells = vertical_cells(og[0] as int, lo, hi);
    assert forall|k: int| 0 <= k <= hi - lo implies (#[trigger] cells[k]) as int == clamp0(
        og[0] as int,
    ) + clamp0(lo + k) * COLS by {
        assert(clamp0(lo + k) <= clamp0(hi));
        assert(clamp0(lo + k) * COLS <= clamp0(hi) * COLS) by (nonlinear_arith)
            requires
                clamp0(lo + k) <= clamp0(hi),
        ;
    }
}

/// A vertical segment paints the same cells whichever end comes first.
pub proof fn law_vertical_line_ignores_end_order(og: [i32; 2], dst: [i32; 2])
    requires
        og[0] == dst[0],
    ensures
        vertical_cells(og[0] as int, low_row(og, dst), high_row(og, dst)) == vertical_cells(
            dst[0] as int,
            low_row(dst, og),
            high_row(dst, og),
        ),
{
}

/// Characters per printed row: the cells, a newline, and the three
/// bytes of the escape sequence that returns the cursor to column 1.
pub open spec fn frame_row_len() -> int {
    COLS + 4
}

/// The `k`-th character of the printed frame. Rows are printed from
/// the top one (`ROWS - 1`) down to row 1; row 0 is not printed.
pub open spec fn frame_char(cells: Seq<u8>, k: int) -> char {
    let r = k / frame_row_len();
    let j = k % frame_row_len();
    let row = ROWS - 1 - r;
    if j < COLS {
        cells[row * COLS + j] as char
    } else if j == COLS {
        '\n'
    } else if j == COLS + 1 {
        '\x1B'
    } else if j == COLS + 2 {
        '['
    } else {
        'G'
    }
}

/// What printing the screen writes to the terminal.
pub open spec fn screen_frame(cells: Seq<u8>) -> Seq<char> {
    Seq::new(((ROWS - 1) * frame_row_len()) as nat, |k: int| frame_char(cells, k))
}

proof fn lemma_frame_position(r: int, j: int)
    requires
        r >= 0,
        0 <= j < frame_row_len(),
    ensures
        (r * frame_row_len() + j) / frame_row_len() == r,
        (r * frame_row_len() + j) % frame_row_len() == j,
{
    lemma_fundamental_div_mod_converse(r * frame_row_len() + j, frame_row_len(), r, j);
}

/// Push one character of the frame, keeping `out` a prefix of it.
fn push_frame_char(out: &mut Vec<char>, c: char, Ghost(frame): Ghost<Seq<char>>)
    requires
        old(out).len() < frame.len(),
        old(out)@ == frame.take(old(out).len() as int),
        frame[old(out).len() as int] == c,
    ensures
        final(out)@ == frame.take(final(out).len() as int),
        final(out).len() == old(out).len() + 1,
{
    let ghost n = out.len();
    out.push(c);
    assert(out@ =~= frame.take(n + 1));
}

/// The text that printing the screen writes to the terminal: the rows
/// from the top one down to row 1, each followed by a newline and the
/// escape sequence `ESC [ G`.
pub fn screen_frame_text(screen: &Screen) -> (out: Vec<char>)
    requires
        screen.wf(),
    ensures
        out@ == screen_frame(screen.cells()),
        out.len() == (ROWS - 1) * (COLS + 4),
        forall|r: int, j: int|
            #![trigger out@[r * (COLS + 4) + j]]
            0 <= r < ROWS - 1 && 0 <= j < COLS ==> out@[r * (COLS + 4) + j] == screen.cells()[(
            ROWS - 1 - r) * COLS + j] as char,
        forall|r: int|
            0 <= r < ROWS - 1 ==> #[trigger] out@[r * (COLS + 4) + COLS] == '\n' && out@[r * (
            COLS + 4) + COLS + 1] == '\x1B' && out@[r * (COLS + 4) + COLS + 2] == '[' && out@[r * (
            COLS + 4) + COLS + 3] == 'G',
{
    let ghost frame = screen_frame(screen.cells());
    let mut out: Vec<char> = Vec::new();
    let mut r: usize = 0;
    while r < ROWS - 1
        invariant
            screen.wf(),
            frame == screen_frame(screen.cells()),
            r <= ROWS - 1,
            out.len() == r * frame_row_len(),
            out@ == frame.take(out.len() as int),
        decreases ROWS - 1 - r,
    {
        let row: usize = ROWS - 1 - r;
        let mut j: usize = 0;
        while j < COLS
            invariant
                screen.wf(),
                frame == screen_frame(screen.cells()),
                r < ROWS - 1,
                row == ROWS - 1 - r,
                j <= COLS,
                out.len() == r * frame_row_len() + j,
                out@ == frame.take(out.len() as int),
            decreases COLS - j,
        {
            let b: u8 = screen.cells[row * COLS + j];
            proof {
                lemma_frame_position(r as int, j as int);
            }
            push_frame_char(&mut out, b as char, Ghost(frame));
            j = j + 1;
        }
        proof {
            lemma_frame_position(r as int, COLS as int);
        }
        push_frame_char(&mut out, '\n', Ghost(frame));
        proof {
            lemma_frame_position(r as int, COLS + 1);
        }
        push_frame_char(&mut out, '\x1B', Ghost(frame));
        proof {
            lemma_frame_position(r as int, COLS + 2);
        }
        push_frame_char(&mut out, '[', Ghost(frame));
        proof {
            lemma_frame_position(r as int, COLS + 3);
        }
        push_frame_char(&mut out, 'G', Ghost(frame));
        r = r + 1;
    }
    assert(out@ =~= frame);
    proof {
        assert forall|r: int, j: int|
            #![trigger out@[r * (COLS + 4) + j]]
            0 <= r < ROWS - 1 && 0 <= j < COLS implies out@[r * (COLS
            + 4) + j] == screen.cells()[(ROWS - 1 - r) * COLS + j] as char by {
            law_frame_row_cells(screen.cells(), r, j);
        }
        assert forall|r: int| 0 <= r < ROWS - 1 implies #[trigger] out@[r * (COLS + 4) + COLS]
            == '\n' && out@[r * (COLS + 4) + COLS + 1] == '\x1B' && out@[r * (COLS + 4) + COLS
            + 2] == '[' && out@[r * (COLS + 4) + COLS + 3] == 'G' by {
            law_frame_row_ends(screen.cells(), r);
        }
    }
    out
}


/// The printed frame has 23 rows of 84 characters; printed row `r`
/// (counting from 0) shows screen row `23 - r`: its character at column
/// `j` is the byte of the cell at column `j` of that row.
pub proof fn law_frame_row_cells(cells: Seq<u8>, r: int, j: int)
    requires
        cells.len() == SCREEN_SIZE,
        0 <= r < ROWS - 1,
        0 <= j < COLS,
    ensures
        screen_frame(cells).len() == (ROWS - 1) * (COLS + 4),
        screen_frame(cells)[r * (COLS + 4) + j] == cells[(ROWS - 1 - r) * COLS + j] as char,
{
    lemma_frame_position(r, j);
}

/// Every printed row, not only the first, ends with a newline and the
/// escape sequence `ESC [ G`.
pub proof fn law_frame_row_ends(cells: Seq<u8>, r: int)
    requires
        0 <= r < ROWS - 1,
    ensures
        screen_frame(cells)[r * (COLS + 4) + COLS] == '\n',
        screen_frame(cells)[r * (COLS + 4) + COLS + 1] == '\x1B',
        screen_frame(cells)[r * (COLS + 4) + COLS + 2] == '[',
        screen_frame(cells)[r * (COLS + 4) + COLS + 3] == 'G',
{
    lemma_frame_position(r, COLS as int);
    lemma_frame_position(r, COLS + 1);
    lemma_frame_position(r, COLS + 2);
    lemma_frame_position(r, COLS + 3);
}

/// A point drawn in printed rows shows up in the printed frame: after
/// painting the cell at column `p[0]` of row `p[1]` (1 <= row, column
/// below `COLS`) with `c`, the frame holds `c` where that row and
/// column are printed.
pub proof fn law_frame_shows_drawn_point(cells: Seq<u8>, p: [i32; 2], c: u8)
    requires
        cells.len() == SCREEN_SIZE,
        valid_viewport_point(p),
        p[0] < COLS,
        p[1] >= 1,
    ensures
        screen_frame(cells.update(p[0] + p[1] * COLS, c))[(ROWS - 1 - p[1]) * (COLS + 4) + p[0]]
            == c as char,
{
    let r = ROWS - 1 - p[1];
    lemma_frame_position(r, p[0] as int);
}

/// Row 0 is never printed: painting a cell of row 0 leaves the printed
/// frame as it was.
pub proof fn law_bottom_row_not_printed(cells: Seq<u8>, o: int, c: u8)
    requires
        cells.len() == SCREEN_SIZE,
        0 <= o < COLS,
    ensures
        screen_frame(cells.update(o, c)) == screen_frame(cells),
{
    let f1 = screen_frame(cells.update(o, c));
    let f2 = screen_frame(cells);
    assert forall|k: int| 0 <= k < f1.len() implies f1[k] == f2[k] by {
        let r = k / frame_row_len();
        let j = k % frame_row_len();
        lemma_fundamental_div_mod_converse(k, frame_row_len(), r, j);
        assert(0 <= r < ROWS - 1);
        if j < COLS {
            assert((ROWS - 1 - r) * COLS + j != o);
        }
    }
    assert(f1 =~= f2);
}

/// A cleared screen prints only blanks in its cells.
pub proof fn law_cleared_frame_is_blank(k: int)
    requires
        0 <= k < (ROWS - 1) * frame_row_len(),
        k % frame_row_len() < COLS,
    ensures
        screen_frame(blank_cells())[k] == ' ',
{
    let r = k / frame_row_len();
    let j = k % frame_row_len();
    lemma_fundamental_div_mod_converse(k, frame_row_len(), r, j);
    assert(0 <= (ROWS - 1 - r) * COLS + j < SCREEN_SIZE);
}

/// Drawing one point paints the same as plotting the one-element list
/// of its offset.
pub proof fn law_point_is_single_cell_plot(cells: Seq<u8>, p: [i32; 2], c: u8)
    requires
        cells.len() == SCREEN_SIZE,
        valid_viewport_point(p),
    ensures
        painted(cells, seq![offset_of(p) as usize], c) == cells.update(offset_of(p), c),
{
    let one = seq![offset_of(p) as usize];
    assert forall|k: int| 0 <= k < cells.len() implies
        (#[trigger] one.contains(k as usize)) == (k == offset_of(p)) by {
        if k == offset_of(p) {
            assert(one[0] == k as usize);
        }
    }
    assert(painted(cells, one, c) =~= cells.update(offset_of(p), c));
}

} // verus!
