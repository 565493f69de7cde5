use rustshot::capture::{
    composite_monitor, composite_virtual_desktop, rgba_len, swap_into_opaque, CaptureError, CapturedMonitor,
};

#[test]
fn monitor_pixels_are_composited_at_their_virtual_desktop_offset() {
    let capture = CapturedMonitor {
        x: -1,
        y: 2,
        width: 2,
        height: 1,
        rgba: vec![1, 2, 3, 4, 5, 6, 7, 8],
    };
    let mut destination = vec![0; 4 * 2 * 4];

    composite_monitor(&capture, -2, 1, 4 * 4, &mut destination)
        .expect("valid monitor should composite");

    assert_eq!(&destination[20..28], capture.rgba.as_slice());
    assert!(destination[..20].iter().all(|byte| *byte == 0));
    assert!(destination[28..].iter().all(|byte| *byte == 0));
}

#[test]
fn monitor_compositing_rejects_a_malformed_capture_buffer() {
    let capture = CapturedMonitor {
        x: 0,
        y: 0,
        width: 2,
        height: 2,
        rgba: vec![0; 3],
    };
    let mut destination = vec![0; 2 * 2 * 4];

    assert!(composite_monitor(&capture, 0, 0, 2 * 4, &mut destination).is_err());
}

#[test]
fn rgba_length_checks_multiplication_overflow() {
    assert_eq!(rgba_len(2, 3).expect("small image should fit"), 24);
    assert!(rgba_len(u32::MAX, u32::MAX).is_err());
}

#[test]
fn monitors_are_composited_into_one_desktop_frame() {
    let left = CapturedMonitor { x: -1, y: 0, width: 1, height: 1, rgba: vec![1, 2, 3, 4] };
    let right = CapturedMonitor { x: 0, y: 1, width: 1, height: 1, rgba: vec![5, 6, 7, 8] };
    let frame = composite_virtual_desktop(&vec![left, right]).expect("monitors should composite");
    assert_eq!((frame.width(), frame.height()), (2, 2));
    assert_eq!((frame.origin().x(), frame.origin().y()), (-1, 0));
    assert_eq!(frame.rgba(), &[1, 2, 3, 4, 0, 0, 0, 255, 0, 0, 0, 255, 5, 6, 7, 8]);
}

#[test]
fn compositing_nothing_is_an_error() {
    assert!(matches!(composite_virtual_desktop(&Vec::new()), Err(CaptureError::NoMonitors)));
}

#[test]
fn a_monitor_left_of_the_desktop_is_rejected() {
    let capture = CapturedMonitor { x: -5, y: 0, width: 1, height: 1, rgba: vec![0; 4] };
    let mut destination = vec![0; 16];
    assert_eq!(
        composite_monitor(&capture, 0, 0, 8, &mut destination),
        Err(CaptureError::InvalidOffset)
    );
    assert!(destination.iter().all(|byte| *byte == 0));
}

#[test]
fn cursor_surface_pixels_swap_red_and_blue_and_become_opaque() {
    let rgba = [10, 20, 30, 0, 40, 50, 60, 128];
    let mut surface = [0xaa; 8];
    swap_into_opaque(&rgba, &mut surface);
    assert_eq!(surface, [30, 20, 10, 255, 60, 50, 40, 255]);
    let mut back = [0; 8];
    swap_into_opaque(&surface, &mut back);
    assert_eq!(back, [10, 20, 30, 255, 40, 50, 60, 255]);
}
