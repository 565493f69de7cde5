use rustshot::annotation::{blend_premultiplied_over_straight, blend_straight_pixel, Color};

#[test]
fn colors_keep_their_channels() {
    let color = Color::rgba(1, 2, 3, 4);
    assert_eq!((color.red(), color.green(), color.blue(), color.alpha()), (1, 2, 3, 4));
}

#[test]
fn an_opaque_source_replaces_the_destination() {
    let mut destination = [9_u8, 8, 7, 6, 42];
    blend_straight_pixel(&mut destination, [10, 20, 30, 255]);
    assert_eq!(destination, [10, 20, 30, 255, 42]);
}

#[test]
fn a_transparent_source_keeps_the_destination() {
    let mut destination = [9_u8, 8, 7, 6];
    blend_straight_pixel(&mut destination, [10, 20, 30, 0]);
    assert_eq!(destination, [9, 8, 7, 6]);
}

#[test]
fn half_transparent_white_over_opaque_black_is_mid_grey() {
    let mut destination = [0_u8, 0, 0, 255];
    blend_straight_pixel(&mut destination, [255, 255, 255, 128]);
    assert_eq!(destination, [128, 128, 128, 255]);
}

#[test]
fn premultiplied_layers_blend_pixel_by_pixel() {
    let mut destination = vec![0_u8, 0, 0, 255, 50, 60, 70, 255, 1, 2];
    let source = vec![128_u8, 0, 0, 128, 0, 0, 0, 0, 9, 9];
    blend_premultiplied_over_straight(&mut destination, &source);
    assert_eq!(destination, vec![128, 0, 0, 255, 50, 60, 70, 255, 1, 2]);
}
