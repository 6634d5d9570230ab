use termgfx::screen::{
    clear_screen, current_pixel_char, draw_point_viewport, in_viewport, pixel_char, plot_cells,
    screen_frame_text, vertical_line_cells, viewport_offset, Screen, COLS, ROWS, SCREEN_SIZE,
};

fn all_cells(s: &Screen) -> Vec<u8> {
    (0..SCREEN_SIZE).map(|o| s.cell(o)).collect()
}

#[test]
fn new_screen_is_blank_and_paints_with_hash() {
    let s = Screen::new();
    assert!(all_cells(&s).iter().all(|&b| b == b' '));
    assert_eq!(current_pixel_char(&s), b'#');
    assert_eq!(SCREEN_SIZE, COLS * ROWS);
    assert_eq!(SCREEN_SIZE, 1920);
}

#[test]
fn pixel_char_is_read_back() {
    let mut s = Screen::new();
    pixel_char(&mut s, b'$');
    assert_eq!(current_pixel_char(&s), b'$');
    pixel_char(&mut s, b'*');
    assert_eq!(current_pixel_char(&s), b'*');
    assert!(all_cells(&s).iter().all(|&b| b == b' '));
}

#[test]
fn in_viewport_edges() {
    assert!(in_viewport([0, 0]));
    assert!(in_viewport([79, 23]));
    assert!(in_viewport([85, 0]));
    assert!(in_viewport([1919, 0]));
    assert!(!in_viewport([1920, 0]));
    assert!(!in_viewport([0, 24]));
    assert!(!in_viewport([-1, 3]));
    assert!(!in_viewport([3, -1]));
    assert!(!in_viewport([i32::MAX, i32::MAX]));
}

#[test]
fn viewport_offset_is_row_major() {
    assert_eq!(viewport_offset([3, 2]), 163);
    assert_eq!(viewport_offset([79, 23]), 1919);
    assert_eq!(viewport_offset([85, 0]), 85);
}

#[test]
fn draw_point_paints_exactly_one_cell() {
    let mut s = Screen::new();
    pixel_char(&mut s, b'@');
    draw_point_viewport(&mut s, [3, 2]);
    let cells = all_cells(&s);
    assert_eq!(cells[163], b'@');
    assert_eq!(cells.iter().filter(|&&b| b != b' ').count(), 1);
    // drawing the same point again changes nothing
    draw_point_viewport(&mut s, [3, 2]);
    assert_eq!(all_cells(&s), cells);
}

#[test]
fn draw_point_past_last_column_wraps() {
    let mut s = Screen::new();
    draw_point_viewport(&mut s, [85, 0]);
    assert_eq!(s.cell(85), b'#');
    assert_eq!(s.cell(5), b' ');
}

#[test]
fn plot_cells_paints_listed_cells() {
    let mut s = Screen::new();
    pixel_char(&mut s, b'x');
    plot_cells(&mut s, &vec![0, 7, 7, 1919]);
    let cells = all_cells(&s);
    assert_eq!(cells[0], b'x');
    assert_eq!(cells[7], b'x');
    assert_eq!(cells[1919], b'x');
    assert_eq!(cells.iter().filter(|&&b| b == b'x').count(), 3);
    assert_eq!(current_pixel_char(&s), b'x');
}

#[test]
fn plot_cells_of_nothing_changes_nothing() {
    let mut s = Screen::new();
    draw_point_viewport(&mut s, [1, 1]);
    let before = all_cells(&s);
    plot_cells(&mut s, &vec![]);
    assert_eq!(all_cells(&s), before);
}

#[test]
fn vertical_line_cells_bottom_up_with_clamping() {
    let cells = vertical_line_cells([5, -2], [5, 3]);
    assert_eq!(cells, vec![5, 5, 5, 85, 165, 245]);
    // the order of the ends does not matter
    assert_eq!(vertical_line_cells([5, 3], [5, -2]), cells);
    // a negative column lands on column 0
    assert_eq!(vertical_line_cells([-4, 1], [-4, 2]), vec![80, 160]);
    // a single point
    assert_eq!(vertical_line_cells([7, 4], [7, 4]), vec![327]);
}

#[test]
fn clear_screen_blanks_and_keeps_pixel() {
    let mut s = Screen::new();
    pixel_char(&mut s, b'%');
    draw_point_viewport(&mut s, [10, 10]);
    clear_screen(&mut s);
    assert!(all_cells(&s).iter().all(|&b| b == b' '));
    assert_eq!(current_pixel_char(&s), b'%');
    clear_screen(&mut s);
    assert!(all_cells(&s).iter().all(|&b| b == b' '));
}

#[test]
fn frame_prints_rows_top_down_without_row_zero() {
    let mut s = Screen::new();
    draw_point_viewport(&mut s, [0, 23]);
    draw_point_viewport(&mut s, [79, 1]);
    draw_point_viewport(&mut s, [4, 0]);
    let f = screen_frame_text(&s);
    assert_eq!(f.len(), 23 * 84);
    assert_eq!(f[0], '#');
    assert_eq!(&f[80..84], &['\n', '\x1B', '[', 'G']);
    // row 1 is the last printed row
    assert_eq!(f[22 * 84 + 79], '#');
    assert_eq!(f.iter().filter(|&&c| c == '#').count(), 2);
    assert_eq!(f.iter().filter(|&&c| c == '\n').count(), 23);
}

#[test]
fn frame_of_high_bytes_keeps_them_as_chars() {
    let mut s = Screen::new();
    pixel_char(&mut s, 0xE9);
    draw_point_viewport(&mut s, [2, 23]);
    let f = screen_frame_text(&s);
    assert_eq!(f[2], '\u{e9}');
}
