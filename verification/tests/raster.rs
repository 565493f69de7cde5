use rustshot::raster::{draw_line, fill_rect};

#[test]
fn rectangles_are_clipped_to_the_canvas() {
    let mut buffer = vec![0_u32; 4 * 3];
    fill_rect(&mut buffer, 4, 3, -1, 1, 3, 5, 7);
    assert_eq!(buffer, vec![0, 0, 0, 0, 7, 7, 0, 0, 7, 7, 0, 0]);
}

#[test]
fn empty_rectangles_draw_nothing() {
    let mut buffer = vec![1_u32; 4];
    fill_rect(&mut buffer, 2, 2, 0, 0, 0, 2, 9);
    fill_rect(&mut buffer, 2, 2, 0, 5, 2, 2, 9);
    assert_eq!(buffer, vec![1; 4]);
}

#[test]
fn lines_cover_both_ends_and_step_diagonally() {
    let mut buffer = vec![0_u32; 5 * 5];
    draw_line(&mut buffer, 5, 5, 0, 0, 4, 2, 1, 1);
    let painted: Vec<usize> = (0..25).filter(|i| buffer[*i] == 1).collect();
    assert_eq!(painted, vec![0, 6, 7, 13, 14]);
}

#[test]
fn thick_lines_fill_squares() {
    let mut buffer = vec![0_u32; 5 * 5];
    draw_line(&mut buffer, 5, 5, 2, 2, 2, 2, 3, 3);
    let painted: Vec<usize> = (0..25).filter(|i| buffer[*i] == 3).collect();
    assert_eq!(painted, vec![6, 7, 8, 11, 12, 13, 16, 17, 18]);
}

#[test]
fn every_toolbar_button_renders_a_visual_icon() {
    let color = rustshot::overlay::palette_color(0);
    for index in 0..rustshot::overlay::TOOLBAR_BUTTONS {
        let button = rustshot::overlay::ToolbarButton::from_index(index).expect("button index");
        let mut buffer = vec![0_u32; 48 * 48];
        let ellipses =
            rustshot::raster::draw_toolbar_icon(&mut buffer, 48, 48, button, 8, 8, 32, color, 1);
        // Ellipse outlines are anti-aliased by the application; every other
        // stroke is painted here.
        assert!(
            buffer.iter().any(|pixel| *pixel != 0) || !ellipses.is_empty(),
            "{button:?} should render visible icon pixels"
        );
        assert!(ellipses.iter().all(|(left, top, right, bottom)| left < right && top < bottom));
    }
}

#[test]
fn text_is_drawn_with_the_bitmap_font() {
    let mut buffer = vec![0_u32; 20 * 9];
    rustshot::raster::draw_text(&mut buffer, 20, 9, 1, 1, "1", 5, 1);
    assert!(buffer.iter().any(|pixel| *pixel == 5));
    assert!(buffer.iter().all(|pixel| *pixel == 0 || *pixel == 5));
}

#[test]
fn rectangle_outlines_leave_the_inside_untouched() {
    let mut buffer = vec![0_u32; 5 * 5];
    rustshot::raster::draw_rect(&mut buffer, 5, 5, 0, 0, 4, 4, 9, 1);
    assert_eq!(buffer[0], 9);
    assert_eq!(buffer[12], 0);
    assert_eq!(buffer[4 * 5 + 4], 9);
}
