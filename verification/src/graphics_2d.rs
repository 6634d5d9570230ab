//! Text labels on the 80x24 screen.
use vstd::prelude::*;
use vstd::string::*;
use crate::screen::{SCREEN_SIZE, Screen, valid_viewport_point, offset_of, pixel_char, current_pixel_char,
    draw_point_viewport};

verus! {

/// What a label shows: the bytes of `s` when it is ASCII, otherwise the
/// bytes of the message `ERROR: string not an ASCII.`.
pub open spec fn label_bytes(s: &str) -> Seq<u8> {
    if is_ascii(s) {
        s.spec_bytes()
    } else {
        "ERROR: string not an ASCII.".spec_bytes()
    }
}

/// The bytes a label of `s` draws, one cell each (see `label_bytes`).
pub fn label_text(s: &str) -> (text: Vec<u8>)
    ensures
        text@ == label_bytes(s),
        is_ascii(s) ==> text@ == Seq::new(s@.len(), |i: int| s@[i] as u8),
        !is_ascii(s) ==> text@ == seq![69u8, 82, 82, 79, 82, 58, 32, 115, 116, 114, 105, 110, 103, 32, 110, 111, 116, 32, 97, 110, 32, 65, 83, 67, 73, 73, 46],
{
    broadcast use is_ascii_spec_bytes;
    if s.is_ascii() {
        s.as_bytes_vec()
    } else {
        let msg = "ERROR: string not an ASCII.";
        proof {
            reveal_strlit("ERROR: string not an ASCII.");
            assert(is_ascii(msg));
            assert(msg.spec_bytes() =~= Seq::new(msg@.len(), |i: int| msg@[i] as u8));
        }
        msg.as_bytes_vec()
    }
}

/// `cells` after the first `n` bytes of a label are painted in order:
/// byte `i` goes to the cell of `points[i]` when that point is on the
/// screen, and a later byte overwrites an earlier one in the same cell.
pub open spec fn label_cells(
    cells: Seq<u8>,
    text: Seq<u8>,
    points: Seq<Option<[i32; 2]>>,
    n: nat,
) -> Seq<u8>
    decreases n,
{
    if n == 0 {
        cells
    } else {
        let prev = label_cells(cells, text, points, (n - 1) as nat);
        match points[n - 1] {
            Some(p) => prev.update(offset_of(p), text[n - 1]),
            None => prev,
        }
    }
}

/// The cell a label byte lands on, when its point is on the screen.
pub open spec fn label_offset(point: Option<[i32; 2]>) -> int {
    point.unwrap()[0] + point.unwrap()[1] * 80
}

/// Painting a label's bytes in order leaves, in every cell that some
/// byte lands on, the last byte landing there, whatever the other bytes
/// are; a cell no byte lands on keeps its content.
pub proof fn law_label_cells(
    cells: Seq<u8>,
    text: Seq<u8>,
    points: Seq<Option<[i32; 2]>>,
    n: nat,
)
    requires
        cells.len() == SCREEN_SIZE,
        n <= text.len(),
        n <= points.len(),
        forall|i: int|
            0 <= i < points.len() ==> (#[trigger] points[i] matches Some(p) ==> valid_viewport_point(
                p,
            )),
    ensures
        label_cells(cells, text, points, n).len() == SCREEN_SIZE,
        forall|i: int|
            0 <= i < n && (#[trigger] points[i]) is Some && (forall|j: int|
                i < j < n && (#[trigger] points[j]) is Some ==> label_offset(points[j])
                    != label_offset(points[i])) ==> label_cells(cells, text, points, n)[label_offset(
                points[i],
            )] == text[i],
        forall|k: int|
            0 <= k < SCREEN_SIZE && (forall|i: int|
                0 <= i < n && (#[trigger] points[i]) is Some ==> label_offset(points[i]) != k)
                ==> #[trigger] label_cells(cells, text, points, n)[k] == cells[k],
    decreases n,
{
    if n > 0 {
        let m = (n - 1) as nat;
        law_label_cells(cells, text, points, m);
        let prev = label_cells(cells, text, points, m);
        let res = label_cells(cells, text, points, n);
        if points[m as int] is Some {
            let q = points[m as int].unwrap();
            assert(valid_viewport_point(q));
            assert(res == prev.update(label_offset(points[m as int]), text[m as int]));
        } else {
            assert(res == prev);
        }
        assert forall|i: int|
            0 <= i < n && (#[trigger] points[i]) is Some && (forall|j: int|
                i < j < n && (#[trigger] points[j]) is Some ==> label_offset(points[j])
                    != label_offset(points[i])) implies res[label_offset(points[i])] == text[i] by {
            let o = label_offset(points[i]);
            assert(valid_viewport_point(points[i].unwrap()));
            if i < m {
                assert(forall|j: int|
                    i < j < m && (#[trigger] points[j]) is Some ==> label_offset(points[j])
                        != label_offset(points[i]));
                assert(prev[o] == text[i]);
                if points[m as int] is Some {
                    assert(label_offset(points[m as int]) != o);
                }
            }
        }
        assert forall|k: int|
            0 <= k < SCREEN_SIZE && (forall|i: int|
                0 <= i < n && (#[trigger] points[i]) is Some ==> label_offset(points[i]) != k)
                implies #[trigger] res[k] == cells[k] by {
            assert(forall|i: int|
                0 <= i < m && (#[trigger] points[i]) is Some ==> label_offset(points[i]) != k);
            assert(prev[k] == cells[k]);
            if points[m as int] is Some {
                assert(label_offset(points[m as int]) != k);
            }
        }
    }
}

/// Draw a label given, for each of its bytes, the viewport point the
/// byte lands on (`None` where it falls outside the window). Each byte
/// is painted by making it the pixel byte and drawing its point; the
/// pixel byte the screen had before is restored at the end.
pub fn label_viewport(screen: &mut Screen, text: &Vec<u8>, points: &Vec<Option<[i32; 2]>>)
    requires
        old(screen).wf(),
        text.len() == points.len(),
        forall|i: int|
            0 <= i < points.len() ==> (#[trigger] points@[i] matches Some(p)
                ==> valid_viewport_point(p)),
    ensures
        final(screen).wf(),
        final(screen).cells() == label_cells(old(screen).cells(), text@, points@, text.len() as nat),
        final(screen).pixel() == old(screen).pixel(),
        forall|i: int|
            0 <= i < text.len() && (#[trigger] points@[i]) is Some && (forall|j: int|
                i < j < text.len() && (#[trigger] points@[j]) is Some ==> label_offset(points@[j])
                    != label_offset(points@[i])) ==> final(screen).cells()[label_offset(points@[i])]
                == text@[i],
        forall|k: int|
            0 <= k < SCREEN_SIZE && (forall|i: int|
                0 <= i < text.len() && (#[trigger] points@[i]) is Some ==> label_offset(points@[i])
                    != k) ==> #[trigger] final(screen).cells()[k] == old(screen).cells()[k],
{
    let old_char = current_pixel_char(screen);
    let ghost start = screen.cells();
    let n = text.len();
    for i in 0..n
        invariant
            n == text.len(),
            text.len() == points.len(),
            screen.wf(),
            forall|j: int|
                0 <= j < points.len() ==> (#[trigger] points@[j] matches Some(p)
                    ==> valid_viewport_point(p)),
            screen.cells() == label_cells(start, text@, points@, i as nat),
    {
        pixel_char(screen, text[i]);
        match points[i] {
            Some(p) => {
                assert(points@[i as int] matches Some(q) && valid_viewport_point(q));
                draw_point_viewport(screen, p);
            },
            None => {},
        }
    }
    pixel_char(screen, old_char);
    proof {
        law_label_cells(start, text@, points@, n as nat);
    }
}

} // verus!
