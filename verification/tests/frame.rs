use rustshot::frame::{Frame, FrameError, PhysicalPoint, PhysicalRect};

fn patterned_frame() -> Frame {
    let rgba = (0_u8..24).collect();
    Frame::new(PhysicalPoint::new(-2, 5), 3, 2, rgba).unwrap()
}

#[test]
fn rejects_empty_and_mismatched_frames() {
    assert_eq!(
        Frame::new(PhysicalPoint::new(0, 0), 0, 1, Vec::new()),
        Err(FrameError::EmptyDimensions { width: 0, height: 1 })
    );
    assert_eq!(
        Frame::new(PhysicalPoint::new(0, 0), 2, 2, vec![0; 15]),
        Err(FrameError::InvalidBufferLength { expected: 16, actual: 15 })
    );
}

#[test]
fn rejects_unrepresentable_physical_bounds() {
    assert_eq!(
        PhysicalRect::new(PhysicalPoint::new(i32::MAX, 0), 2, 1),
        Err(FrameError::CoordinateOverflow)
    );
}

#[test]
fn crops_in_physical_coordinates_and_preserves_origin() {
    let frame = patterned_frame();
    let crop = frame
        .crop(PhysicalRect::new(PhysicalPoint::new(-1, 5), 2, 2).unwrap())
        .unwrap();

    assert_eq!(crop.origin(), PhysicalPoint::new(-1, 5));
    assert_eq!((crop.width(), crop.height()), (2, 2));
    assert_eq!(
        crop.rgba(),
        &[4, 5, 6, 7, 8, 9, 10, 11, 16, 17, 18, 19, 20, 21, 22, 23]
    );
}

#[test]
fn rejects_a_crop_outside_the_frame() {
    let frame = patterned_frame();
    let rect = PhysicalRect::new(PhysicalPoint::new(-3, 5), 1, 1).unwrap();
    assert!(matches!(frame.crop(rect), Err(FrameError::CropOutsideFrame { .. })));
}

#[test]
fn cropping_the_whole_frame_keeps_every_pixel() {
    let frame = patterned_frame();
    let crop = frame.crop(frame.bounds()).unwrap();
    assert_eq!(crop.origin(), frame.origin());
    assert_eq!(crop.rgba(), frame.rgba());
}

#[test]
fn frame_reports_its_geometry() {
    let frame = patterned_frame();
    assert_eq!(frame.stride(), 12);
    let bounds = frame.bounds();
    assert_eq!((bounds.x(), bounds.y(), bounds.width(), bounds.height()), (-2, 5, 3, 2));
    assert_eq!((bounds.right(), bounds.bottom()), (1, 7));
    assert_eq!(frame.into_rgba().len(), 24);
}

#[test]
fn rectangles_contain_themselves_and_smaller_rectangles() {
    let outer = PhysicalRect::new(PhysicalPoint::new(0, 0), 10, 10).unwrap();
    let inner = PhysicalRect::new(PhysicalPoint::new(2, 3), 4, 4).unwrap();
    assert!(outer.contains(outer));
    assert!(outer.contains(inner));
    assert!(!inner.contains(outer));
}

#[test]
fn frame_errors_describe_the_geometry() {
    assert_eq!(
        FrameError::EmptyDimensions { width: 0, height: 5 }.message(),
        "a frame or rectangle cannot be empty (0x5)"
    );
    assert_eq!(
        FrameError::InvalidBufferLength { expected: 16, actual: 3 }.message(),
        "invalid RGBA buffer length: expected 16 bytes, got 3"
    );
    let frame = Frame::new(PhysicalPoint::new(-2, 3), 2, 2, vec![0; 16]).unwrap();
    let crop = PhysicalRect::new(PhysicalPoint::new(-5, 0), 1, 1).unwrap();
    let error = frame.crop(crop).unwrap_err();
    assert_eq!(
        error.message(),
        "crop PhysicalRect { origin: PhysicalPoint { x: -5, y: 0 }, width: 1, height: 1 } is outside frame bounds PhysicalRect { origin: PhysicalPoint { x: -2, y: 3 }, width: 2, height: 2 }"
    );
}

#[test]
fn crops_compose() {
    let rgba: Vec<u8> = (0_u8..64).collect();
    let frame = Frame::new(PhysicalPoint::new(10, -3), 4, 4, rgba).unwrap();
    let outer = PhysicalRect::new(PhysicalPoint::new(11, -2), 3, 3).unwrap();
    let inner = PhysicalRect::new(PhysicalPoint::new(12, -1), 2, 1).unwrap();
    let twice = frame.crop(outer).unwrap().crop(inner).unwrap();
    let once = frame.crop(inner).unwrap();
    assert_eq!(twice.rgba(), once.rgba());
    assert_eq!(twice.rgba(), &[40, 41, 42, 43, 44, 45, 46, 47]);
    assert_eq!(twice.origin(), once.origin());
}

#[test]
fn a_frame_taken_apart_and_rebuilt_is_the_same_frame() {
    let frame = patterned_frame();
    let (origin, width, height) = (frame.origin(), frame.width(), frame.height());
    let rebuilt = Frame::new(origin, width, height, frame.clone().into_rgba()).unwrap();
    assert_eq!(rebuilt, frame);
    assert_eq!(frame.crop(frame.bounds()).unwrap(), frame);
}
