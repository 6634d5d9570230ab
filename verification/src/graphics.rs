//! The 180x45 screen of characters of the earlier 3D renderer.
use vstd::prelude::*;
use vstd::arithmetic::div_mod::lemma_fundamental_div_mod_converse;

verus! {

/// Number of columns of the character screen.
pub const COLS: usize = 180;

/// Number of rows of the character screen.
pub const ROWS: usize = 45;

/// Number of cells of the character screen.
pub const SCREEN_SIZE: usize = COLS * ROWS;

/// Most points a segment is drawn with.
pub const MAX_SIZE: usize = 10000;

/// The character a cell holds when nothing is drawn on it.
pub const BLANK: char = ' ';

/// The character drawing paints with on a fresh screen.
pub const DEFAULT_PIXEL: char = '#';

/// A buffer of the screen's size that holds only blanks.
pub open spec fn blank_cells() -> Seq<char> {
    Seq::new(SCREEN_SIZE as nat, |i: int| BLANK)
}

/// Whether `p` names a cell of the buffer: both coordinates are
/// nonnegative and the row-major offset lies inside it.
pub open spec fn valid_point(p: [i32; 2]) -> bool {
    &&& p[0] >= 0
    &&& p[1] >= 0
    &&& p[0] + p[1] * COLS < SCREEN_SIZE
}

/// Row-major offset of a point.
pub open spec fn point_offset(p: [i32; 2]) -> int {
    p[0] + p[1] * COLS
}

/// Whether `p` names a cell of the screen (see `valid_point`).
pub fn in_screen(p: [i32; 2]) -> (b: bool)
    ensures
        b == valid_point(p),
        b == (p[0] >= 0 && p[1] >= 0 && p[0] + p[1] * 180 < 8100),
{
    if p[0] < 0 || p[1] < 0 {
        return false;
    }
    let x: i64 = p[0] as i64;
    let y: i64 = p[1] as i64;
    x + y * 180 < 8100
}

/// The character screen.
pub struct CharScreen {
    cells: Vec<char>,
    pixel: char,
}

impl CharScreen {
    /// The cells of the screen, row 0 first.
    pub closed spec fn cells(&self) -> Seq<char> {
        self.cells@
    }

    /// The character drawing paints with.
    pub closed spec fn pixel(&self) -> char {
        self.pixel
    }

    /// The buffer has exactly one character per cell.
    pub open spec fn wf(&self) -> bool {
        self.cells().len() == SCREEN_SIZE
    }

    /// A blank screen that paints with `#`.
    pub fn new() -> (s: CharScreen)
        ensures
            s.wf(),
            s.cells() == blank_cells(),
            s.pixel() == DEFAULT_PIXEL,
            s.cells().len() == 8100,
            forall|i: int| 0 <= i < 8100 ==> #[trigger] s.cells()[i] == ' ',
            s.pixel() == '#',
    {
        CharScreen { cells: blank_buffer(), pixel: DEFAULT_PIXEL }
    }

    /// The content of the cell at row-major offset `offset`.
    pub fn cell(&self, offset: usize) -> (c: char)
        requires
            self.wf(),
            offset < SCREEN_SIZE,
        ensures
            c == self.cells()[offset as int],
    {
        self.cells[offset]
    }
}

/// A fresh buffer of blanks.
fn blank_buffer() -> (v: Vec<char>)
    ensures
        v@ == blank_cells(),
{
    let mut v: Vec<char> = Vec::new();
    while v.len() < SCREEN_SIZE
        invariant
            v.len() <= SCREEN_SIZE,
            forall|i: int| 0 <= i < v.len() ==> v@[i] == BLANK,
        decreases SCREEN_SIZE - v.len(),
    {
        v.push(BLANK);
    }
    assert(v@ =~= blank_cells());
    v
}

/// Change the character drawing paints with.
pub fn pixel_char(screen: &mut CharScreen, chr: char)
    ensures
        final(screen).cells() == old(screen).cells(),
        final(screen).pixel() == chr,
{
    screen.pixel = chr;
}

/// Blank every cell; the pixel character is kept.
pub fn clear_screen(screen: &mut CharScreen)
    ensures
        final(screen).wf(),
        final(screen).cells() == blank_cells(),
        final(screen).pixel() == old(screen).pixel(),
        final(screen).cells().len() == 8100,
        forall|i: int| 0 <= i < 8100 ==> #[trigger] final(screen).cells()[i] == ' ',
{
    screen.cells = blank_buffer();
}

/// The points of a vertical segment between `og` and `dst` (which share
/// their column), in drawing order: one per row from the lower row up,
/// at most `MAX_SIZE` of them.
pub fn vertical_segment_points(og: [i32; 2], dst: [i32; 2]) -> (points: Vec<[i32; 2]>)
    requires
        og[0] == dst[0],
    ensures
        ({
            let lo = if og[1] > dst[1] { dst[1] as int } else { og[1] as int };
            let hi = if og[1] > dst[1] { og[1] as int } else { dst[1] as int };
            &&& points.len() == (if hi - lo + 1 < MAX_SIZE { hi - lo + 1 } else { MAX_SIZE as int })
            &&& forall|k: int|
                0 <= k < points.len() ==> (#[trigger] points@[k])[0] == og[0] && points@[k][1]
                    == lo + k
        }),
{
    let lo: i32 = if og[1] > dst[1] { dst[1] } else { og[1] };
    let hi: i32 = if og[1] > dst[1] { og[1] } else { dst[1] };
    let mut points: Vec<[i32; 2]> = Vec::new();
    let mut y: i64 = lo as i64;
    while y <= hi as i64 && points.len() < MAX_SIZE
        invariant
            lo <= y <= hi + 1,
            points.len() == y - lo,
            points.len() <= MAX_SIZE,
            forall|k: int|
                0 <= k < points.len() ==> (#[trigger] points@[k])[0] == og[0] && points@[k][1]
                    == lo + k,
        decreases hi + 1 - y,
    {
        points.push([og[0], y as i32]);
        y = y + 1;
    }
    points
}

/// The offsets of a list of points.
pub open spec fn point_offsets(points: Seq<[i32; 2]>) -> Seq<int> {
    points.map_values(|p: [i32; 2]| point_offset(p))
}

/// `cells` with every cell whose offset occurs in `offsets` painted
/// with `c`, the others unchanged.
pub open spec fn painted(cells: Seq<char>, offsets: Seq<int>, c: char) -> Seq<char> {
    Seq::new(cells.len(), |k: int| if offsets.contains(k) { c } else { cells[k] })
}

/// Paint every listed point with the pixel character; returns how many
/// points were drawn.
pub fn plot_segment(screen: &mut CharScreen, points: &Vec<[i32; 2]>) -> (count: usize)
    requires
        old(screen).wf(),
        forall|i: int| 0 <= i < points.len() ==> valid_point(#[trigger] points@[i]),
    ensures
        count == points.len(),
        final(screen).wf(),
        final(screen).cells() == painted(old(screen).cells(), point_offsets(points@), old(screen).pixel()),
        final(screen).pixel() == old(screen).pixel(),
        final(screen).cells().len() == SCREEN_SIZE,
        forall|k: int|
            0 <= k < SCREEN_SIZE ==> #[trigger] final(screen).cells()[k] == if exists|i: int|
                0 <= i < points.len() && points@[i][0] + points@[i][1] * COLS == k {
                old(screen).pixel()
            } else {
                old(screen).cells()[k]
            },
{
    let ghost start = screen.cells();
    let ghost offs = point_offsets(points@);
    let c = screen.pixel;
    let n = points.len();
    assert(painted(start, offs.take(0), c) =~= start);
    for i in 0..n
        invariant
            n == points.len(),
            offs == point_offsets(points@),
            start.len() == SCREEN_SIZE,
            screen.pixel() == c,
            forall|j: int| 0 <= j < points.len() ==> valid_point(#[trigger] points@[j]),
            screen.cells() == painted(start, offs.take(i as int), c),
    {
        let p = points[i];
        assert(valid_point(points@[i as int]));
        let o: usize = p[0] as usize + p[1] as usize * COLS;
        screen.cells.set(o, c);
        proof {
            let before = offs.take(i as int);
            let after = offs.take(i + 1);
            assert(offs[i as int] == o);
            assert(after =~= before.push(o as int));
            assert forall|k: int| 0 <= k < start.len() implies
                (#[trigger] after.contains(k)) == (before.contains(k) || k == o) by {
                if k == o {
                    assert(after[i as int] == k);
                }
                if before.contains(k) {
                    let w = choose|w: int| 0 <= w < before.len() && before[w] == k;
                    assert(after[w] == k);
                }
                if after.contains(k) && k != o {
                    let w = choose|w: int| 0 <= w < after.len() && after[w] == k;
                    assert(before[w] == k);
                }
            }
            assert(screen.cells() =~= painted(start, after, c));
        }
    }
    assert(offs.take(n as int) =~= offs);
    proof {
        law_plotted_cells(start, points@, c);
    }
    n
}

/// Plotting a list of points paints exactly the cells the points name:
/// a cell holds the paint character when some listed point `[x, y]`
/// has `x + 180 * y` equal to its offset, and keeps its content
/// otherwise.
pub proof fn law_plotted_cells(cells: Seq<char>, points: Seq<[i32; 2]>, c: char)
    ensures
        painted(cells, point_offsets(points), c).len() == cells.len(),
        forall|k: int|
            0 <= k < cells.len() ==> #[trigger] painted(cells, point_offsets(points), c)[k]
                == if exists|i: int| 0 <= i < points.len() && points[i][0] + points[i][1] * COLS == k {
                c
            } else {
                cells[k]
            },
{
    let offs = point_offsets(points);
    assert forall|k: int| 0 <= k < cells.len() implies #[trigger] painted(cells, offs, c)[k]
        == if exists|i: int| 0 <= i < points.len() && points[i][0] + points[i][1] * COLS == k {
        c
    } else {
        cells[k]
    } by {
        if exists|i: int| 0 <= i < points.len() && points[i][0] + points[i][1] * COLS == k {
            let i = choose|i: int| 0 <= i < points.len() && points[i][0] + points[i][1] * COLS == k;
            assert(offs[i] == k);
        } else if offs.contains(k) {
            let w = choose|w: int| 0 <= w < offs.len() && offs[w] == k;
            assert(points[w][0] + points[w][1] * COLS == k);
        }
    }
}

/// Characters per printed row: the cells and a newline.
pub open spec fn frame_row_len() -> int {
    COLS + 1
}

/// What printing the screen writes: every row from row 0 down, each
/// followed by a newline.
pub open spec fn screen_frame(cells: Seq<char>) -> Seq<char> {
    Seq::new(
        (ROWS * frame_row_len()) as nat,
        |k: int|
            {
                let r = k / frame_row_len();
                let j = k % frame_row_len();
                if j < COLS {
                    cells[r * COLS + j]
                } else {
                    '\n'
                }
            },
    )
}

proof fn lemma_frame_position(r: int, j: int)
    requires
        r >= 0,
        0 <= j < frame_row_len(),
    ensures
        (r * frame_row_len() + j) / frame_row_len() == r,
        (r * frame_row_len() + j) % frame_row_len() == j,
{
    lemma_fundamental_div_mod_converse(r * frame_row_len() + j, frame_row_len(), r, j);
}

/// Printed row `r` is screen row `r`: the frame has 45 rows of 181
/// characters, and its character at row `r`, column `j` is the cell at
/// offset `j + r * 180`, the one a point `[j, r]` is plotted on; each
/// row ends with a newline.
pub proof fn law_frame_layout(cells: Seq<char>, r: int, j: int)
    requires
        cells.len() == SCREEN_SIZE,
        0 <= r < ROWS,
        0 <= j < COLS,
    ensures
        screen_frame(cells).len() == ROWS * (COLS + 1),
        screen_frame(cells)[r * (COLS + 1) + j] == cells[j + r * COLS],
        screen_frame(cells)[r * (COLS + 1) + COLS] == '\n',
{
    lemma_frame_position(r, j);
    lemma_frame_position(r, COLS as int);
}

/// A point plotted with `c` shows up where its row and column are
/// printed.
pub proof fn law_frame_shows_plotted_point(cells: Seq<char>, p: [i32; 2], c: char)
    requires
        cells.len() == SCREEN_SIZE,
        valid_point(p),
        p[0] < COLS,
    ensures
        screen_frame(cells.update(p[0] + p[1] * COLS, c))[p[1] * (COLS + 1) + p[0]] == c,
{
    law_frame_layout(cells.update(p[0] + p[1] * COLS, c), p[1] as int, p[0] as int);
}

/// The text that printing the screen writes to the terminal: each row
/// from row 0 on, followed by a newline.
pub fn screen_frame_text(screen: &CharScreen) -> (out: Vec<char>)
    requires
        screen.wf(),
    ensures
        out@ == screen_frame(screen.cells()),
        out.len() == ROWS * (COLS + 1),
        forall|r: int, j: int|
            #![trigger out@[r * (COLS + 1) + j]]
            0 <= r < ROWS && 0 <= j < COLS ==> out@[r * (COLS + 1) + j] == screen.cells()[j + r
                * COLS],
        forall|r: int| 0 <= r < ROWS ==> #[trigger] out@[r * (COLS + 1) + COLS] == '\n',
{
    let ghost frame = screen_frame(screen.cells());
    let mut out: Vec<char> = Vec::new();
    let mut r: usize = 0;
    while r < ROWS
        invariant
            screen.wf(),
            frame == screen_frame(screen.cells()),
            r <= ROWS,
            out.len() == r * frame_row_len(),
            out@ == frame.take(out.len() as int),
        decreases ROWS - r,
    {
        let mut j: usize = 0;
        while j < COLS
            invariant
                screen.wf(),
                frame == screen_frame(screen.cells()),
                r < ROWS,
                j <= COLS,
                out.len() == r * frame_row_len() + j,
                out@ == frame.take(out.len() as int),
            decreases COLS - j,
        {
            let ch: char = screen.cells[j + r * COLS];
            proof {
                lemma_frame_position(r as int, j as int);
            }
            let ghost n = out.len();
            out.push(ch);
            assert(out@ =~= frame.take(n + 1));
            j = j + 1;
        }
        proof {
            lemma_frame_position(r as int, COLS as int);
        }
        let ghost n = out.len();
        out.push('\n');
        assert(out@ =~= frame.take(n + 1));
        r = r + 1;
    }
    assert(out@ =~= frame);
    proof {
        assert forall|r: int, j: int|
            #![trigger out@[r * (COLS + 1) + j]]
            0 <= r < ROWS && 0 <= j < COLS implies out@[r * (COLS + 1) + j] == screen.cells()[j + r
                * COLS] by {
            law_frame_layout(screen.cells(), r, j);
        }
        assert forall|r: int| 0 <= r < ROWS implies #[trigger] out@[r * (COLS + 1) + COLS]
            == '\n' by {
            law_frame_layout(screen.cells(), r, 0);
        }
    }
    out
}

} // verus!
