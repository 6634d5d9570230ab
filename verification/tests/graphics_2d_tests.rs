use termgfx::graphics_2d::{label_text, label_viewport};
use termgfx::screen::{current_pixel_char, pixel_char, Screen};

#[test]
fn label_text_of_ascii_is_its_bytes() {
    assert_eq!(label_text("Hi!"), b"Hi!".to_vec());
    assert_eq!(label_text(""), Vec::<u8>::new());
}

#[test]
fn label_text_of_non_ascii_is_the_error_message() {
    assert_eq!(label_text("h\u{e9}llo"), b"ERROR: string not an ASCII.".to_vec());
}

#[test]
fn label_viewport_paints_bytes_and_restores_pixel() {
    let mut s = Screen::new();
    pixel_char(&mut s, b'+');
    let text = label_text("abc");
    let points = vec![Some([1, 1]), None, Some([3, 1])];
    label_viewport(&mut s, &text, &points);
    assert_eq!(s.cell(81), b'a');
    assert_eq!(s.cell(82), b' ');
    assert_eq!(s.cell(83), b'c');
    assert_eq!(current_pixel_char(&s), b'+');
}

#[test]
fn label_viewport_later_byte_wins() {
    let mut s = Screen::new();
    let text = label_text("xy");
    label_viewport(&mut s, &text, &vec![Some([0, 2]), Some([0, 2])]);
    assert_eq!(s.cell(160), b'y');
    assert_eq!(current_pixel_char(&s), b'#');
}
