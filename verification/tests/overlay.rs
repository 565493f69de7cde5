use rustshot::annotation::Color;
use rustshot::config::EditorTool;
use rustshot::frame::{Frame, PhysicalPoint};
use rustshot::overlay::{
    editor_preferences, key_command, next_palette_color, next_width_index, palette_color,
    selection_resize_handle, text_key_command, KeyCommand, KeyInput, PixelPoint, PixelRect,
    ResizeHandle, TextKeyCommand, Tool, ToolbarAction, ToolbarButton, ToolbarLayout, ToolbarSizes,
    ExportKind, MIN_SELECTION_SIZE, TOOLBAR_BUTTONS, crop_selection, dragged_selection,
    SelectionError,
};

#[test]
fn selection_normalizes_drag_direction() {
    let selection = PixelRect::between(PixelPoint { x: 90, y: 70 }, PixelPoint { x: 10, y: 20 })
        .expect("non-empty selection");
    assert_eq!(selection, PixelRect { x: 10, y: 20, width: 80, height: 50 });
}

#[test]
fn selection_edges_can_include_the_last_source_pixel() {
    let frame = Frame::new(PhysicalPoint::new(0, 0), 100, 100, vec![0; 100 * 100 * 4]).unwrap();
    let start = PixelPoint { x: -5, y: -5 }.clamp_to_edges(&frame);
    let end = PixelPoint { x: 500, y: 99 }.clamp_to_edges(&frame);
    let selection = PixelRect::between(start, end).expect("selection is non-empty");

    assert_eq!(selection.right(), 100);
    assert_eq!(selection.bottom(), 99);
    assert!(selection.contains(PixelPoint { x: 99, y: 98 }));
    assert_eq!(PixelPoint { x: 500, y: -3 }.clamp_to_pixels(&frame), PixelPoint { x: 99, y: 0 });
}

#[test]
fn empty_drags_select_nothing() {
    assert_eq!(PixelRect::between(PixelPoint { x: 4, y: 1 }, PixelPoint { x: 4, y: 9 }), None);
}

#[test]
fn crop_resize_is_clamped_inside_the_source() {
    let original = PixelRect { x: 0, y: 0, width: 8, height: 8 };
    let resized = ResizeHandle::SouthEast.resize_pixel_rect(
        original,
        PixelPoint { x: 8, y: 8 },
        PixelPoint { x: 99, y: 99 },
        8,
        8,
    );
    assert!(resized.right() <= 8);
    assert!(resized.bottom() <= 8);
    assert!(resized.width >= MIN_SELECTION_SIZE);
    assert!(resized.height >= MIN_SELECTION_SIZE);
}

#[test]
fn resizing_below_the_minimum_keeps_the_fixed_edge() {
    let original = PixelRect { x: 10, y: 10, width: 20, height: 20 };
    let resized = ResizeHandle::West.resize_pixel_rect(
        original,
        PixelPoint { x: 10, y: 20 },
        PixelPoint { x: 29, y: 20 },
        100,
        100,
    );
    assert_eq!(resized, PixelRect { x: 27, y: 10, width: 3, height: 20 });
}

#[test]
fn moving_a_selection_keeps_it_on_the_source() {
    let original = PixelRect { x: 10, y: 10, width: 20, height: 20 };
    let moved = ResizeHandle::Move.resize_pixel_rect(
        original,
        PixelPoint { x: 15, y: 15 },
        PixelPoint { x: 500, y: 0 },
        100,
        100,
    );
    assert_eq!(moved, PixelRect { x: 80, y: 0, width: 20, height: 20 });
}

#[test]
fn handles_are_grabbed_near_corners_and_edge_midpoints() {
    let selection = PixelRect { x: 10, y: 10, width: 40, height: 20 };
    assert_eq!(selection_resize_handle(selection, PixelPoint { x: 12, y: 9 }), Some(ResizeHandle::NorthWest));
    assert_eq!(selection_resize_handle(selection, PixelPoint { x: 30, y: 30 }), Some(ResizeHandle::South));
    assert_eq!(selection_resize_handle(selection, PixelPoint { x: 50, y: 20 }), Some(ResizeHandle::East));
    assert_eq!(selection_resize_handle(selection, PixelPoint { x: 30, y: 20 }), None);
    assert_eq!(selection_resize_handle(selection, PixelPoint { x: 19, y: 10 }), Some(ResizeHandle::NorthWest));
    assert_eq!(selection_resize_handle(selection, PixelPoint { x: 20, y: 10 }), None);
}

fn sizes(scale: i32) -> ToolbarSizes {
    ToolbarSizes {
        padding: 4 * scale,
        gap: 8 * scale,
        default_button_size: 38 * scale,
        minimum_button_size: 24 * scale,
    }
}

#[test]
fn toolbar_layout_does_not_panic_on_a_narrow_capture() {
    let selection = PixelRect { x: 0, y: 0, width: 1, height: 1 };
    let layout = ToolbarLayout::for_selection(selection, 8, 8, sizes(1));
    assert!(layout.button_size > 0);
    assert!(layout.x >= 0);
    assert!(layout.y >= 0);
}

#[test]
fn toolbar_scales_for_high_density_displays() {
    let selection = PixelRect { x: 100, y: 100, width: 500, height: 300 };
    let normal = ToolbarLayout::for_selection(selection, 1920, 1080, sizes(1));
    let dense = ToolbarLayout::for_selection(selection, 3840, 2160, sizes(2));
    assert_eq!(normal.button_size, 38);
    assert_eq!(dense.button_size, 76);
}

#[test]
fn toolbar_buttons_are_found_row_by_row() {
    let layout = ToolbarLayout { x: 10, y: 20, button_size: 10, columns: 11, rows: 2 };
    assert_eq!(layout.button_at(PixelPoint { x: 10, y: 20 }), Some(ToolbarButton::Select));
    assert_eq!(layout.button_at(PixelPoint { x: 119, y: 29 }), Some(ToolbarButton::Pixelate));
    assert_eq!(layout.button_at(PixelPoint { x: 40, y: 30 }), Some(ToolbarButton::Undo));
    assert_eq!(layout.button_at(PixelPoint { x: 10, y: 30 }), Some(ToolbarButton::Eraser));
    assert_eq!(layout.button_at(PixelPoint { x: 109, y: 39 }), Some(ToolbarButton::Print));
    assert_eq!(layout.button_at(PixelPoint { x: 119, y: 39 }), None);
    assert_eq!(layout.button_at(PixelPoint { x: 9, y: 25 }), None);
    assert!(ToolbarButton::from_index(TOOLBAR_BUTTONS).is_none());
}

#[test]
fn tools_round_trip_through_preferences() {
    for index in 0..14 {
        let tool = Tool::from_index(index).unwrap();
        assert_eq!(Tool::from_preference(tool.preference()), tool);
    }
    assert_eq!(Tool::Callout.shortcut(), "q");
    assert_eq!(Tool::from_preference(EditorTool::Crop), Tool::Crop);
}

#[test]
fn toolbar_buttons_describe_themselves() {
    assert_eq!(ToolbarButton::Pen.tooltip(), "Pen (P)");
    assert_eq!(ToolbarButton::Copy.tooltip(), "Copy (C or Enter)");
    assert_eq!(ToolbarButton::Pen.tool(), Some(Tool::Pen));
    assert_eq!(ToolbarButton::Save.tool(), None);
    assert_eq!(ToolbarButton::Print.action(), ToolbarAction::Export(ExportKind::Print));
    assert_eq!(ToolbarButton::Width.action(), ToolbarAction::CycleWidth);
}

#[test]
fn keys_map_to_editor_commands() {
    let letter = |text: &str| KeyInput::Character(text.to_owned());
    assert_eq!(key_command(&letter("R"), false, true, false), KeyCommand::SelectTool(Tool::Rectangle));
    assert_eq!(key_command(&letter("z"), true, true, false), KeyCommand::Undo);
    assert_eq!(key_command(&letter("r"), true, true, false), KeyCommand::Ignore);
    assert_eq!(key_command(&letter("s"), false, true, false), KeyCommand::Save);
    assert_eq!(key_command(&KeyInput::Enter, false, true, false), KeyCommand::Copy);
    assert_eq!(key_command(&KeyInput::Escape, false, false, false), KeyCommand::CancelOrClose);
    assert_eq!(key_command(&letter("s"), false, false, false), KeyCommand::Ignore);
    assert_eq!(key_command(&letter("s"), false, true, true), KeyCommand::EditText);
    assert_eq!(key_command(&KeyInput::Delete, false, true, false), KeyCommand::DeleteSelected);
}

#[test]
fn text_keys_edit_the_draft() {
    assert_eq!(text_key_command(&KeyInput::Enter, None, true, false, false), TextKeyCommand::NewLine);
    assert_eq!(text_key_command(&KeyInput::Enter, None, false, false, false), TextKeyCommand::Commit);
    assert_eq!(text_key_command(&KeyInput::Backspace, None, false, false, false), TextKeyCommand::DeleteLast);
    let typed = KeyInput::Character("é".to_owned());
    assert_eq!(
        text_key_command(&typed, Some("é"), false, false, false),
        TextKeyCommand::Insert("é".to_owned())
    );
    assert_eq!(text_key_command(&typed, Some("é"), false, true, false), TextKeyCommand::Ignore);
    assert_eq!(text_key_command(&KeyInput::Other, Some("\u{7}"), false, false, false), TextKeyCommand::Ignore);
}

#[test]
fn the_palette_cycles() {
    let first = palette_color(0);
    assert_eq!(next_palette_color(first), palette_color(1));
    assert_eq!(next_palette_color(palette_color(5)), first);
    assert_eq!(next_palette_color(Color::rgba(1, 2, 3, 4)), first);
    assert_eq!(next_width_index(3), 0);
    assert_eq!(next_width_index(1), 2);
}

#[test]
fn editor_preferences_remember_tool_color_and_width() {
    let preferences = editor_preferences(Tool::Arrow, Color::rgba(1, 2, 3, 200), 2);
    assert_eq!(preferences.tool, EditorTool::Arrow);
    assert_eq!((preferences.color.red, preferences.color.green, preferences.color.blue), (1, 2, 3));
    assert_eq!(preferences.stroke_width, 2);
    assert_eq!(editor_preferences(Tool::Pen, palette_color(0), 9).stroke_width, 3);
}

#[test]
fn short_drags_make_no_selection() {
    assert_eq!(dragged_selection(PixelPoint { x: 5, y: 5 }, PixelPoint { x: 7, y: 40 }), None);
    assert_eq!(
        dragged_selection(PixelPoint { x: 9, y: 40 }, PixelPoint { x: 5, y: 5 }),
        Some(PixelRect { x: 5, y: 5, width: 4, height: 35 })
    );
    assert_eq!(MIN_SELECTION_SIZE, 3);
}

#[test]
fn selections_crop_the_capture_at_their_desktop_position() {
    let rgba: Vec<u8> = (0_u8..64).collect();
    let source = Frame::new(PhysicalPoint::new(-20, 30), 4, 4, rgba).unwrap();
    let cropped = crop_selection(&source, PixelRect { x: 1, y: 2, width: 2, height: 1 }).unwrap();
    assert_eq!(cropped.origin(), PhysicalPoint::new(-19, 32));
    assert_eq!(cropped.rgba(), &[36, 37, 38, 39, 40, 41, 42, 43]);
    assert!(matches!(
        crop_selection(&source, PixelRect { x: 3, y: 0, width: 2, height: 1 }),
        Err(SelectionError::Crop(_))
    ));
    let right_of_origin = Frame::new(PhysicalPoint::new(10, 0), 1, 1, vec![0; 4]).unwrap();
    assert_eq!(
        crop_selection(&right_of_origin, PixelRect { x: i32::MAX, y: 0, width: 1, height: 1 }),
        Err(SelectionError::XOverflow)
    );
}

#[test]
fn moves_and_resizes_hold_on_large_sources() {
    let original = PixelRect { x: 5, y: 5, width: 20, height: 20 };
    let moved = ResizeHandle::Move.resize_pixel_rect(
        original,
        PixelPoint { x: 0, y: 0 },
        PixelPoint { x: i32::MAX, y: 0 },
        u32::MAX,
        100,
    );
    assert_eq!(moved, PixelRect { x: i32::MAX - 20, y: 5, width: 20, height: 20 });
    let wide = PixelRect { x: 30_000_000, y: 0, width: 10, height: 10 };
    let resized = ResizeHandle::East.resize_pixel_rect(
        wide,
        PixelPoint { x: 30_000_010, y: 5 },
        PixelPoint { x: 30_000_101, y: 5 },
        40_000_000,
        10,
    );
    assert_eq!(resized, PixelRect { x: 30_000_000, y: 0, width: 101, height: 10 });
}

#[test]
fn resizing_tells_which_inputs_it_takes() {
    let original = PixelRect { x: 0, y: 0, width: 8, height: 8 };
    let start = PixelPoint { x: 0, y: 0 };
    assert!(ResizeHandle::Move.accepts(original, start, PixelPoint { x: 5, y: 5 }, 8, 8));
    assert!(!ResizeHandle::Move.accepts(original, PixelPoint { x: -1, y: 0 }, PixelPoint { x: i32::MAX, y: 0 }, 8, 8));
    assert!(!ResizeHandle::Move.accepts(original, start, start, 7, 8));
    assert!(ResizeHandle::East.accepts(original, start, start, 3, 3));
    assert!(!ResizeHandle::East.accepts(original, start, start, 2, 3));
}
