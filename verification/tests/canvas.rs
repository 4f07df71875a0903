use console::{CanvasError, Color, ConsoleCanvas, MemoryCanvas, Modifier};

fn glyph(canvas: &MemoryCanvas, x: usize, y: usize) -> Option<(char, Vec<Modifier>)> {
    canvas.drawn_at(x, y).map(|g| (g.ch, g.style))
}

fn shown(canvas: &MemoryCanvas, x: usize, y: usize) -> Option<(char, Vec<Modifier>)> {
    canvas.shown_at(x, y).map(|g| (g.ch, g.style))
}

#[test]
fn new_canvas_is_blank() {
    let canvas = MemoryCanvas::new(80, 24, true);
    assert_eq!(canvas.width(), 80);
    assert_eq!(canvas.height(), 24);
    assert!(canvas.supports_custom_colors());
    assert_eq!(canvas.open_scopes(), 0);
    assert_eq!(canvas.cursor_at(), (0, 0));
    assert_eq!(glyph(&canvas, 0, 0), None);
    assert_eq!(shown(&canvas, 0, 0), None);
    assert!(!MemoryCanvas::new(1, 1, false).supports_custom_colors());
}

#[test]
fn draw_equals_three_draw_chars() {
    let mut whole = MemoryCanvas::new(20, 5, false);
    whole.set(Modifier::Bold);
    whole.draw(4, 2, "abc");

    let mut single = MemoryCanvas::new(20, 5, false);
    single.set(Modifier::Bold);
    single.draw_char(4, 2, 'a');
    single.draw_char(5, 2, 'b');
    single.draw_char(6, 2, 'c');

    for y in 0..5 {
        for x in 0..20 {
            assert_eq!(glyph(&whole, x, y), glyph(&single, x, y));
        }
    }
    assert_eq!(glyph(&whole, 4, 2), Some(('a', vec![Modifier::Bold])));
    assert_eq!(glyph(&whole, 5, 2), Some(('b', vec![Modifier::Bold])));
    assert_eq!(glyph(&whole, 6, 2), Some(('c', vec![Modifier::Bold])));
    assert_eq!(glyph(&whole, 3, 2), None);
    assert_eq!(glyph(&whole, 7, 2), None);
    assert_eq!(glyph(&whole, 4, 1), None);
}

#[test]
fn draw_advances_one_cell_per_code_point() {
    let mut canvas = MemoryCanvas::new(10, 1, false);
    canvas.draw(1, 0, "h\u{e9}\u{4e16}!");
    assert_eq!(glyph(&canvas, 1, 0), Some(('h', vec![])));
    assert_eq!(glyph(&canvas, 2, 0), Some(('\u{e9}', vec![])));
    assert_eq!(glyph(&canvas, 3, 0), Some(('\u{4e16}', vec![])));
    assert_eq!(glyph(&canvas, 4, 0), Some(('!', vec![])));
    assert_eq!(glyph(&canvas, 5, 0), None);
}

#[test]
fn draw_of_empty_text_draws_nothing() {
    let mut canvas = MemoryCanvas::new(3, 3, false);
    canvas.draw(usize::MAX, 0, "");
    canvas.draw(0, 0, "");
    for y in 0..3 {
        for x in 0..3 {
            assert_eq!(glyph(&canvas, x, y), None);
        }
    }
}

#[test]
fn draw_does_not_wrap() {
    let mut canvas = MemoryCanvas::new(3, 2, false);
    canvas.draw(1, 0, "wxyz");
    assert_eq!(glyph(&canvas, 1, 0), Some(('w', vec![])));
    assert_eq!(glyph(&canvas, 2, 0), Some(('x', vec![])));
    assert_eq!(glyph(&canvas, 0, 1), None);
    assert_eq!(glyph(&canvas, 1, 1), None);
    assert_eq!(glyph(&canvas, 3, 0), None);
}

#[test]
fn draw_in_last_column_of_the_machine() {
    let mut canvas = MemoryCanvas::new(4, 4, false);
    canvas.draw(usize::MAX, 1, "z");
    canvas.draw(usize::MAX - 1, 1, "yz");
    assert_eq!(glyph(&canvas, usize::MAX, 1), None);
    assert_eq!(glyph(&canvas, 0, 1), None);
}

#[test]
fn write_off_surface_is_dropped() {
    let mut canvas = MemoryCanvas::new(4, 3, false);
    canvas.draw_char(4, 0, 'x');
    canvas.draw_char(0, 3, 'y');
    canvas.draw_char(3, 2, 'z');
    assert_eq!(glyph(&canvas, 4, 0), None);
    assert_eq!(glyph(&canvas, 0, 3), None);
    assert_eq!(glyph(&canvas, 3, 2), Some(('z', vec![])));
}

#[test]
fn later_write_replaces_earlier() {
    let mut canvas = MemoryCanvas::new(4, 3, false);
    canvas.draw_char(1, 1, 'a');
    canvas.set(Modifier::Underline);
    canvas.draw_char(1, 1, 'b');
    canvas.draw_char(2, 1, 'c');
    assert_eq!(glyph(&canvas, 1, 1), Some(('b', vec![Modifier::Underline])));
    assert_eq!(glyph(&canvas, 2, 1), Some(('c', vec![Modifier::Underline])));
}

#[test]
fn glyph_keeps_modifiers_active_when_drawn() {
    let mut canvas = MemoryCanvas::new(4, 1, true);
    canvas.draw_char(0, 0, 'a');
    canvas.push_state();
    canvas.set(Modifier::TextColor(Color::Custom(10, 20, 30)));
    canvas.draw_char(1, 0, 'b');
    assert_eq!(canvas.pop_state(), Ok(()));
    canvas.draw_char(2, 0, 'c');

    let b = canvas.drawn_at(1, 0).unwrap();
    assert!(b.has(Modifier::TextColor(Color::Custom(10, 20, 30))));
    assert!(!b.has(Modifier::Bold));
    assert_eq!(glyph(&canvas, 0, 0), Some(('a', vec![])));
    assert_eq!(glyph(&canvas, 2, 0), Some(('c', vec![])));
}

#[test]
fn pop_state_on_base_frame_fails() {
    let mut canvas = MemoryCanvas::new(2, 2, false);
    assert_eq!(canvas.pop_state(), Err(CanvasError::StateUnderflow));
    assert_eq!(canvas.open_scopes(), 0);
    canvas.push_state();
    assert_eq!(canvas.pop_state(), Ok(()));
    assert_eq!(canvas.pop_state(), Err(CanvasError::StateUnderflow));
}

#[test]
fn with_state_keeps_depth_when_f_succeeds() {
    let mut canvas = MemoryCanvas::new(10, 2, false);
    canvas.push_state();
    let before = canvas.open_scopes();
    let out = canvas.with_state(|c: &mut MemoryCanvas| {
        c.set(Modifier::Bold);
        c.draw(0, 0, "hi");
        7u32
    });
    assert_eq!(out, Ok(7));
    assert_eq!(canvas.open_scopes(), before);
    assert!(!canvas.is_active(Modifier::Bold));
    assert_eq!(glyph(&canvas, 0, 0), Some(('h', vec![Modifier::Bold])));
    assert_eq!(glyph(&canvas, 1, 0), Some(('i', vec![Modifier::Bold])));
}

#[test]
fn with_state_keeps_depth_when_f_fails() {
    let mut canvas = MemoryCanvas::new(10, 2, false);
    let out = canvas.with_state(|c: &mut MemoryCanvas| -> Result<(), String> {
        c.set(Modifier::Underline);
        Err(String::from("no room"))
    });
    assert_eq!(out, Ok(Err(String::from("no room"))));
    assert_eq!(canvas.open_scopes(), 0);
    assert!(!canvas.is_active(Modifier::Underline));
}

#[test]
fn with_state_nests() {
    let mut canvas = MemoryCanvas::new(10, 2, false);
    canvas.set(Modifier::Underline);
    let out = canvas.with_state(|outer: &mut MemoryCanvas| {
        outer.set(Modifier::Bold);
        let inner_out = outer.with_state(|inner: &mut MemoryCanvas| {
            inner.set(Modifier::TextColor(Color::Red));
            inner.open_scopes()
        });
        (inner_out, outer.open_scopes(), outer.is_active(Modifier::TextColor(Color::Red)))
    });
    assert_eq!(out, Ok((Ok(2), 1, false)));
    assert_eq!(canvas.open_scopes(), 0);
    assert!(canvas.is_active(Modifier::Underline));
    assert!(!canvas.is_active(Modifier::Bold));
}

#[test]
fn with_state_reports_underflow_when_f_closed_the_scope() {
    let mut canvas = MemoryCanvas::new(10, 2, false);
    let out = canvas.with_state(|c: &mut MemoryCanvas| c.pop_state());
    assert_eq!(out, Err(CanvasError::StateUnderflow));
    assert_eq!(canvas.open_scopes(), 0);
}

#[test]
fn with_state_closes_one_scope_of_those_f_left_open() {
    let mut canvas = MemoryCanvas::new(10, 2, false);
    let out = canvas.with_state(|c: &mut MemoryCanvas| c.push_state());
    assert_eq!(out, Ok(()));
    assert_eq!(canvas.open_scopes(), 1);
}

#[test]
fn present_without_draws_keeps_size() {
    let mut canvas = MemoryCanvas::new(80, 24, false);
    canvas.present();
    assert_eq!(canvas.width(), 80);
    assert_eq!(canvas.height(), 24);
    assert_eq!(shown(&canvas, 0, 0), None);
}

#[test]
fn present_shows_what_was_drawn() {
    let mut canvas = MemoryCanvas::new(8, 2, false);
    canvas.draw(0, 0, "ok");
    assert_eq!(shown(&canvas, 0, 0), None);
    canvas.present();
    assert_eq!(shown(&canvas, 0, 0), Some(('o', vec![])));
    assert_eq!(shown(&canvas, 1, 0), Some(('k', vec![])));
    canvas.draw_char(0, 0, 'n');
    assert_eq!(shown(&canvas, 0, 0), Some(('o', vec![])));
    assert_eq!(glyph(&canvas, 0, 0), Some(('n', vec![])));
    canvas.present();
    assert_eq!(shown(&canvas, 0, 0), Some(('n', vec![])));
    assert_eq!(canvas.width(), 8);
    assert_eq!(canvas.height(), 2);
}

#[test]
fn clear_blanks_the_buffer_not_the_screen() {
    let mut canvas = MemoryCanvas::new(8, 2, false);
    canvas.set(Modifier::Bold);
    canvas.draw(0, 0, "ok");
    canvas.present();
    canvas.clear();
    assert_eq!(glyph(&canvas, 0, 0), None);
    assert_eq!(glyph(&canvas, 1, 0), None);
    assert_eq!(shown(&canvas, 0, 0), Some(('o', vec![Modifier::Bold])));
    assert!(canvas.is_active(Modifier::Bold));
    canvas.present();
    assert_eq!(shown(&canvas, 0, 0), None);
}

#[test]
fn cursor_moves_apart_from_modifiers() {
    let mut canvas = MemoryCanvas::new(8, 2, false);
    canvas.set(Modifier::Bold);
    canvas.cursor(3, 1);
    assert_eq!(canvas.cursor_at(), (3, 1));
    assert!(canvas.is_active(Modifier::Bold));
    assert_eq!(canvas.open_scopes(), 0);
    assert_eq!(glyph(&canvas, 3, 1), None);
}

#[test]
fn resize_changes_what_is_on_surface() {
    let mut canvas = MemoryCanvas::new(2, 2, false);
    canvas.draw_char(5, 0, 'x');
    assert_eq!(glyph(&canvas, 5, 0), None);
    canvas.resize(10, 4);
    assert_eq!(canvas.width(), 10);
    assert_eq!(canvas.height(), 4);
    canvas.draw_char(5, 0, 'x');
    assert_eq!(glyph(&canvas, 5, 0), Some(('x', vec![])));
}

#[test]
fn try_set_refuses_custom_color_without_support() {
    let mut canvas = MemoryCanvas::new(4, 4, false);
    let custom = Modifier::TextColor(Color::Custom(10, 20, 30));
    assert_eq!(canvas.try_set(custom), Err(CanvasError::UnsupportedColor));
    assert!(!canvas.is_active(custom));
    assert_eq!(canvas.try_set(Modifier::TextColor(Color::Red)), Ok(()));
    assert!(canvas.is_active(Modifier::TextColor(Color::Red)));
    assert_eq!(canvas.try_set(Modifier::Bold), Ok(()));
    assert!(canvas.is_active(Modifier::Bold));
}

#[test]
fn try_set_takes_custom_color_with_support() {
    let mut canvas = MemoryCanvas::new(4, 4, true);
    let custom = Modifier::BackgroundColor(Color::Custom(1, 2, 3));
    assert_eq!(canvas.try_set(custom), Ok(()));
    assert!(canvas.is_active(custom));
}

#[test]
fn set_takes_custom_color_without_support() {
    let mut canvas = MemoryCanvas::new(4, 4, false);
    let custom = Modifier::TextColor(Color::Custom(10, 20, 30));
    canvas.set(custom);
    assert!(canvas.is_active(custom));
    assert!(!canvas.is_active(Modifier::TextColor(Color::Custom(10, 20, 31))));
}
