use termgfx::graphics_3d::{refresh, set_pixel_char};
use termgfx::screen::{current_pixel_char, draw_point_viewport, screen_frame_text, Screen};

#[test]
fn refresh_returns_frame_and_blanks_screen() {
    let mut s = Screen::new();
    set_pixel_char(&mut s, b'o');
    draw_point_viewport(&mut s, [5, 20]);
    let expected = screen_frame_text(&s);
    let out = refresh(&mut s);
    assert_eq!(out, expected);
    assert_eq!(out[3 * 84 + 5], 'o');
    assert_eq!(current_pixel_char(&s), b'o');
    let again = refresh(&mut s);
    assert_eq!(again, screen_frame_text(&Screen::new()));
    assert!(!again.contains(&'o'));
}

#[test]
fn set_pixel_char_is_read_back() {
    let mut s = Screen::new();
    set_pixel_char(&mut s, b'&');
    assert_eq!(current_pixel_char(&s), b'&');
}
