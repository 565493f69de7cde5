use rustshot::config::{Config, ScreenshotFormat};
use rustshot::encode::{encode, rgba_over_white, EncodeError, EncodeOptions, OutputFormat, PngCompression};
use rustshot::frame::{Frame, PhysicalPoint};

fn frame() -> Frame {
    Frame::new(PhysicalPoint::new(-100, 50), 2, 1, vec![255, 0, 0, 255, 0, 0, 255, 128]).unwrap()
}

#[test]
fn png_round_trips_rgba_pixels() {
    let encoded = encode(&frame(), EncodeOptions::default()).unwrap();
    assert_eq!(&encoded[..8], b"\x89PNG\r\n\x1a\n");

    let decoded = image::load_from_memory(&encoded).unwrap().to_rgba8();
    assert_eq!(decoded.dimensions(), (2, 1));
    assert_eq!(decoded.as_raw(), frame().rgba());
}

#[test]
fn jpeg_encodes_dimensions_and_composites_alpha() {
    let options = EncodeOptions::new(OutputFormat::Jpeg, 95, PngCompression::Fast).unwrap();
    let encoded = encode(&frame(), options).unwrap();
    assert_eq!(&encoded[..2], b"\xff\xd8");

    let decoded = image::load_from_memory(&encoded).unwrap();
    assert_eq!((decoded.width(), decoded.height()), (2, 1));
}

#[test]
fn invalid_jpeg_quality_is_rejected() {
    assert!(matches!(
        EncodeOptions::new(OutputFormat::Jpeg, 0, PngCompression::Default),
        Err(EncodeError::InvalidJpegQuality(0))
    ));
}

#[test]
fn transparency_is_composited_over_white() {
    assert_eq!(rgba_over_white(&[0, 0, 255, 128, 10, 20, 30, 0]), vec![127, 127, 255, 255, 255, 255]);
    assert_eq!(rgba_over_white(&[1, 2, 3, 255, 9]), vec![1, 2, 3]);
}

#[test]
fn options_follow_the_settings() {
    let mut config = Config::default();
    config.image_format = ScreenshotFormat::Jpeg;
    config.jpeg_quality = 61;
    let options = EncodeOptions::from_config(&config);
    assert_eq!(options.format, OutputFormat::Jpeg);
    assert_eq!(options.jpeg_quality, 61);
    assert_eq!(options.png_compression, PngCompression::Default);
    assert_eq!(OutputFormat::Jpeg.extension(), "jpg");
}

#[test]
fn every_png_compression_level_encodes() {
    for compression in [PngCompression::Fast, PngCompression::Default, PngCompression::Best] {
        let options = EncodeOptions::new(OutputFormat::Png, 90, compression).unwrap();
        let encoded = encode(&frame(), options).unwrap();
        let decoded = image::load_from_memory(&encoded).unwrap().to_rgba8();
        assert_eq!(decoded.as_raw(), frame().rgba());
    }
}
