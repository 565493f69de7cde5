use rustshot::pixelate::{fill_rgba_region, pixelate_buffer_region, pixelate_rgba_region};

#[test]
fn blocks_take_the_average_of_their_pixels() {
    // A 4x2 canvas: the left block is black and white, the right block red.
    let mut buffer = vec![
        0x0000_0000, 0x00ff_ffff, 0x00ff_0000, 0x00ff_0000, //
        0x00ff_ffff, 0x0000_0000, 0x00ff_0000, 0x00ff_0000,
    ];
    pixelate_buffer_region(&mut buffer, 4, 2, 0, 0, 4, 2, 2);
    assert_eq!(
        buffer,
        vec![
            0x007f_7f7f, 0x007f_7f7f, 0x00ff_0000, 0x00ff_0000, //
            0x007f_7f7f, 0x007f_7f7f, 0x00ff_0000, 0x00ff_0000,
        ]
    );
}

#[test]
fn region_is_clipped_and_partial_blocks_average_only_their_pixels() {
    let mut buffer: Vec<u32> = (0..9).map(|value| value * 3).collect();
    // Blocks of 2 from (1, 1): one full block would reach past the canvas.
    pixelate_buffer_region(&mut buffer, 3, 3, 1, 1, 10, 10, 2);
    // Pixels 4, 5, 7, 8 hold 12, 15, 21, 24: their blue average is 18.
    assert_eq!(buffer, vec![0, 3, 6, 9, 18, 18, 18, 18, 18]);
}

#[test]
fn small_blocks_are_raised_to_two_pixels() {
    let mut buffer = vec![0_u32, 2, 4, 6];
    pixelate_buffer_region(&mut buffer, 4, 1, 0, 0, 4, 1, 0);
    assert_eq!(buffer, vec![1, 1, 5, 5]);
}

#[test]
fn empty_region_leaves_the_canvas_alone() {
    let mut buffer = vec![7_u32; 4];
    pixelate_buffer_region(&mut buffer, 2, 2, 1, 0, 1, 2, 4);
    pixelate_buffer_region(&mut buffer, 2, 2, -5, -5, 0, 0, 4);
    assert_eq!(buffer, vec![7; 4]);
}

#[test]
fn redaction_fills_only_its_rectangle() {
    let mut rgba = vec![255_u8; 4 * 4 * 4];
    fill_rgba_region(&mut rgba, 4, 1, 1, 3, 3, [0, 0, 0, 255]);
    assert_eq!(&rgba[0..4], &[255, 255, 255, 255]);
    let center = 5 * 4;
    assert_eq!(&rgba[center..center + 4], &[0, 0, 0, 255]);
    assert_eq!(rgba.iter().filter(|byte| **byte == 0).count(), 4 * 3);
}

#[test]
fn effect_pixelation_averages_every_channel_in_blocks_of_at_least_twelve() {
    // Two pixels on one row: a block of 12 covers both.
    let mut rgba = vec![0, 10, 20, 255, 100, 30, 41, 1];
    pixelate_rgba_region(&mut rgba, 2, 0, 0, 2, 1, 2);
    assert_eq!(rgba, vec![50, 20, 30, 128, 50, 20, 30, 128]);

    let mut untouched = vec![9_u8; 16];
    pixelate_rgba_region(&mut untouched, 2, 1, 0, 1, 2, 30);
    assert_eq!(untouched, vec![9; 16]);
}
