use rustshot::clipboard::{rgba_to_bgra, ClipboardError};

#[test]
fn converts_rgba_to_bgra() {
    let mut output = [0_u8; 8];
    rgba_to_bgra(&[10, 20, 30, 40, 50, 60, 70, 80], &mut output).unwrap();
    assert_eq!(output, [30, 20, 10, 40, 70, 60, 50, 80]);
}

#[test]
fn converting_twice_restores_rgba() {
    let source = [1_u8, 2, 3, 4, 5, 6, 7, 8];
    let mut once = [0_u8; 8];
    let mut twice = [0_u8; 8];
    rgba_to_bgra(&source, &mut once).unwrap();
    rgba_to_bgra(&once, &mut twice).unwrap();
    assert_eq!(twice, source);
}

#[test]
fn mismatched_buffers_are_rejected() {
    let mut output = [9_u8; 4];
    assert_eq!(rgba_to_bgra(&[1, 2, 3, 4, 5, 6, 7, 8], &mut output), Err(ClipboardError::InvalidBufferLength));
    assert_eq!(output, [9, 9, 9, 9]);
    let mut partial = [0_u8; 3];
    assert!(rgba_to_bgra(&[1, 2, 3], &mut partial).is_err());
}
