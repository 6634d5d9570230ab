use termgfx::graphics::{
    clear_screen, in_screen, pixel_char, plot_segment, screen_frame_text, vertical_segment_points, CharScreen,
    MAX_SIZE, SCREEN_SIZE,
};

#[test]
fn char_screen_starts_blank() {
    let s = CharScreen::new();
    assert!((0..SCREEN_SIZE).all(|o| s.cell(o) == ' '));
    assert_eq!(SCREEN_SIZE, 8100);
}

#[test]
fn vertical_segment_points_bottom_up() {
    let pts = vertical_segment_points([4, 7], [4, 3]);
    assert_eq!(pts, vec![[4, 3], [4, 4], [4, 5], [4, 6], [4, 7]]);
    assert_eq!(vertical_segment_points([4, 3], [4, 7]), pts);
}

#[test]
fn vertical_segment_points_are_capped() {
    let pts = vertical_segment_points([0, -5], [0, 20000]);
    assert_eq!(pts.len(), MAX_SIZE);
    assert_eq!(pts[0], [0, -5]);
    assert_eq!(pts[MAX_SIZE - 1], [0, 9994]);
}

#[test]
fn plot_segment_paints_and_counts() {
    let mut s = CharScreen::new();
    pixel_char(&mut s, '*');
    let pts = vertical_segment_points([2, 0], [2, 2]);
    assert_eq!(plot_segment(&mut s, &pts), 3);
    assert_eq!(s.cell(2), '*');
    assert_eq!(s.cell(182), '*');
    assert_eq!(s.cell(362), '*');
    assert_eq!((0..SCREEN_SIZE).filter(|&o| s.cell(o) == '*').count(), 3);
}

#[test]
fn char_frame_rows_in_order() {
    let mut s = CharScreen::new();
    plot_segment(&mut s, &vec![[0, 0], [179, 44]]);
    let f = screen_frame_text(&s);
    assert_eq!(f.len(), 45 * 181);
    assert_eq!(f[0], '#');
    assert_eq!(f[180], '\n');
    assert_eq!(f[44 * 181 + 179], '#');
    assert_eq!(*f.last().unwrap(), '\n');
}

#[test]
fn char_clear_keeps_pixel() {
    let mut s = CharScreen::new();
    pixel_char(&mut s, 'Z');
    plot_segment(&mut s, &vec![[1, 1]]);
    clear_screen(&mut s);
    assert!((0..SCREEN_SIZE).all(|o| s.cell(o) == ' '));
    plot_segment(&mut s, &vec![[1, 1]]);
    assert_eq!(s.cell(181), 'Z');
}

#[test]
fn in_screen_edges() {
    assert!(in_screen([0, 0]));
    assert!(in_screen([179, 44]));
    assert!(!in_screen([0, 45]));
    assert!(!in_screen([-1, 0]));
    assert!(!in_screen([8100, 0]));
}
