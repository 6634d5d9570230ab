//! Drawing on a character-cell terminal screen: a screen buffer that
//! points, segments and labels are painted on, and the text that shows
//! it on a terminal.
pub mod screen;
pub mod graphics_2d;
pub mod graphics_3d;
pub mod graphics;
pub mod example_2d;
