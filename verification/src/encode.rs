//! PNG/JPEG encoding of screenshot frames.
use crate::config::{Config, PngCompression as ConfigPngCompression, ScreenshotFormat};
use crate::frame::{rgba_byte_count, Frame};
use crate::text::{append_str, concatenated, decimal_text, u64_to_decimal};
use image::codecs::jpeg::JpegEncoder;
use image::codecs::png::{CompressionType, FilterType, PngEncoder};
use image::{ExtendedColorType, ImageEncoder, ImageError};
use vstd::arithmetic::div_mod::lemma_fundamental_div_mod_converse;
use vstd::prelude::*;
use vstd::std_specs::convert::FromSpecImpl;

verus! {

#[verifier::external_type_specification]
#[verifier::external_body]
pub struct ExImageError(ImageError);

/// The bytes that `image`'s PNG encoder writes for an RGBA8 image with the
/// given compression (0 fast, 1 default, 2 best) and adaptive filtering, or
/// `None` where the encoder reports an error.
pub uninterp spec fn png_encoding(rgba: Seq<u8>, width: u32, height: u32, compression: u8) -> Option<Seq<u8>>;

/// The bytes that `image`'s JPEG encoder writes for an RGB8 image at the given
/// quality, or `None` where the encoder reports an error.
pub uninterp spec fn jpeg_encoding(rgb: Seq<u8>, width: u32, height: u32, quality: u8) -> Option<Seq<u8>>;

/// `PngEncoder::new_with_quality(..).write_image(..)` into a fresh buffer,
/// with `ExtendedColorType::Rgba8` and `FilterType::Adaptive`.
///
/// Claimed: the bytes (or the failure) are the named PNG encoding of the
/// arguments. The encoder panics unless the buffer holds exactly
/// `width * height * 4` bytes, so that is required.
#[verifier::external_body]
fn write_png(rgba: &[u8], width: u32, height: u32, compression: u8) -> (result: Result<Vec<u8>, ImageError>)
    requires
        rgba@.len() == rgba_byte_count(width as int, height as int),
        compression <= 2,
    ensures
        match result {
            Ok(bytes) => png_encoding(rgba@, width, height, compression) == Some(bytes@),
            Err(_) => png_encoding(rgba@, width, height, compression) is None,
        },
{
    let compression = match compression {
        0 => CompressionType::Fast,
        1 => CompressionType::Default,
        _ => CompressionType::Best,
    };
    let mut encoded = Vec::new();
    PngEncoder::new_with_quality(&mut encoded, compression, FilterType::Adaptive).write_image(
        rgba,
        width,
        height,
        ExtendedColorType::Rgba8,
    )?;
    Ok(encoded)
}

/// `JpegEncoder::new_with_quality(..).write_image(..)` into a fresh buffer,
/// with `ExtendedColorType::Rgb8`.
///
/// Claimed: the bytes (or the failure) are the named JPEG encoding of the
/// arguments. The encoder panics unless the buffer holds exactly
/// `width * height * 3` bytes, so that is required.
#[verifier::external_body]
fn write_jpeg(rgb: &[u8], width: u32, height: u32, quality: u8) -> (result: Result<Vec<u8>, ImageError>)
    requires
        rgb@.len() == width * height * 3,
    ensures
        match result {
            Ok(bytes) => jpeg_encoding(rgb@, width, height, quality) == Some(bytes@),
            Err(_) => jpeg_encoding(rgb@, width, height, quality) is None,
        },
{
    let mut encoded = Vec::new();
    JpegEncoder::new_with_quality(&mut encoded, quality).write_image(
        rgb,
        width,
        height,
        ExtendedColorType::Rgb8,
    )?;
    Ok(encoded)
}

/// `ImageError`'s `Display` text. Nothing is claimed of it.
#[verifier::external_body]
fn image_error_text(error: &ImageError) -> String {
    error.to_string()
}

/// Output file format of an encoded screenshot.
#[derive(Clone, Copy, Debug, Default, PartialEq, Eq, Structural)]
pub enum OutputFormat {
    #[default]
    Png,
    Jpeg,
}

impl OutputFormat {
    pub open spec fn extension_spec(self) -> Seq<char> {
        match self {
            OutputFormat::Png => seq!['p', 'n', 'g'],
            OutputFormat::Jpeg => seq!['j', 'p', 'g'],
        }
    }

    /// Conventional filename extension without a leading dot.
    pub fn extension(self) -> (extension: &'static str)
        ensures
            extension@ == self.extension_spec(),
    {
        match self {
            OutputFormat::Png => {
                proof {
                    reveal_strlit("png");
                }
                "png"
            },
            OutputFormat::Jpeg => {
                proof {
                    reveal_strlit("jpg");
                }
                "jpg"
            },
        }
    }

    pub open spec fn from_screenshot_format(format: ScreenshotFormat) -> OutputFormat {
        match format {
            ScreenshotFormat::Png => OutputFormat::Png,
            ScreenshotFormat::Jpeg => OutputFormat::Jpeg,
        }
    }
}

impl From<ScreenshotFormat> for OutputFormat {
    fn from(format: ScreenshotFormat) -> (output: Self) {
        match format {
            ScreenshotFormat::Png => OutputFormat::Png,
            ScreenshotFormat::Jpeg => OutputFormat::Jpeg,
        }
    }
}

impl FromSpecImpl<ScreenshotFormat> for OutputFormat {
    open spec fn obeys_from_spec() -> bool {
        true
    }

    open spec fn from_spec(format: ScreenshotFormat) -> OutputFormat {
        OutputFormat::from_screenshot_format(format)
    }
}

/// PNG encoder compression preference.
#[derive(Clone, Copy, Debug, Default, PartialEq, Eq, Structural)]
pub enum PngCompression {
    Fast,
    #[default]
    Default,
    Best,
}

impl PngCompression {
    /// The level handed to the encoder: 0 fast, 1 default, 2 best.
    pub open spec fn level(self) -> u8 {
        match self {
            PngCompression::Fast => 0,
            PngCompression::Default => 1,
            PngCompression::Best => 2,
        }
    }

    pub open spec fn from_config_compression(compression: ConfigPngCompression) -> PngCompression {
        match compression {
            ConfigPngCompression::Fast => PngCompression::Fast,
            ConfigPngCompression::Default => PngCompression::Default,
            ConfigPngCompression::Best => PngCompression::Best,
        }
    }
}

impl From<ConfigPngCompression> for PngCompression {
    fn from(compression: ConfigPngCompression) -> (output: Self) {
        match compression {
            ConfigPngCompression::Fast => PngCompression::Fast,
            ConfigPngCompression::Default => PngCompression::Default,
            ConfigPngCompression::Best => PngCompression::Best,
        }
    }
}

impl FromSpecImpl<ConfigPngCompression> for PngCompression {
    open spec fn obeys_from_spec() -> bool {
        true
    }

    open spec fn from_spec(compression: ConfigPngCompression) -> PngCompression {
        PngCompression::from_config_compression(compression)
    }
}

/// Encoder settings for one export.
#[derive(Clone, Copy, Debug, PartialEq, Eq, Structural)]
pub struct EncodeOptions {
    pub format: OutputFormat,
    pub jpeg_quality: u8,
    pub png_compression: PngCompression,
}

impl EncodeOptions {
    /// Options with a JPEG quality in `1..=100`.
    pub fn new(format: OutputFormat, jpeg_quality: u8, png_compression: PngCompression) -> (result:
        Result<Self, EncodeError>)
        ensures
            result is Ok <==> 1 <= jpeg_quality <= 100,
            result matches Ok(options) ==> options == (EncodeOptions {
                format,
                jpeg_quality,
                png_compression,
            }),
            result matches Err(error) ==> error == EncodeError::InvalidJpegQuality(jpeg_quality),
    {
        if !(1 <= jpeg_quality && jpeg_quality <= 100) {
            return Err(EncodeError::InvalidJpegQuality(jpeg_quality));
        }
        Ok(Self { format, jpeg_quality, png_compression })
    }

    /// The options that the settings select.
    pub fn from_config(config: &Config) -> (options: Self)
        ensures
            options == (EncodeOptions {
                format: OutputFormat::from_screenshot_format(config.image_format),
                jpeg_quality: config.jpeg_quality,
                png_compression: PngCompression::from_config_compression(config.png_compression),
            }),
    {
        Self {
            format: OutputFormat::from(config.image_format),
            jpeg_quality: config.jpeg_quality,
            png_compression: PngCompression::from(config.png_compression),
        }
    }
}

impl Default for EncodeOptions {
    fn default() -> (options: Self)
        ensures
            options == (EncodeOptions {
                format: OutputFormat::Png,
                jpeg_quality: 90,
                png_compression: PngCompression::Default,
            }),
    {
        Self { format: OutputFormat::Png, jpeg_quality: 90, png_compression: PngCompression::Default }
    }
}

/// Failures of encoding and of publishing screenshot files.
#[derive(Clone, Debug, PartialEq, Eq)]
pub enum EncodeError {
    InvalidJpegQuality(u8),
    MissingFileName(String),
    DestinationExists(String),
    Io { operation: String, path: String, message: String },
    Image(String),
}

/// Human-readable description of an encoding or publishing failure.
pub open spec fn encode_error_message(error: EncodeError) -> Seq<char> {
    match error {
        EncodeError::InvalidJpegQuality(quality) => "JPEG quality must be between 1 and 100, got "@
            + decimal_text(quality as nat),
        EncodeError::MissingFileName(path) => "screenshot destination has no filename: `"@ + path@ + "`"@,
        EncodeError::DestinationExists(path) => "refusing to overwrite existing screenshot `"@ + path@ + "`"@,
        EncodeError::Io { operation, path, message } => "failed to "@ + operation@ + " at `"@ + path@
            + "`: "@ + message@,
        EncodeError::Image(message) => "image encoding failed: "@ + message@,
    }
}

impl EncodeError {
    /// Human-readable description.
    pub fn message(&self) -> (message: String)
        ensures
            message@ == encode_error_message(*self),
    {
        match self {
            EncodeError::InvalidJpegQuality(quality) => concatenated(
                "JPEG quality must be between 1 and 100, got ",
                u64_to_decimal(*quality as u64).as_str(),
            ),
            EncodeError::MissingFileName(path) => {
                let mut text = concatenated("screenshot destination has no filename: `", path.as_str());
                append_str(&mut text, "`");
                text
            },
            EncodeError::DestinationExists(path) => {
                let mut text = concatenated("refusing to overwrite existing screenshot `", path.as_str());
                append_str(&mut text, "`");
                text
            },
            EncodeError::Io { operation, path, message } => {
                let mut text = concatenated("failed to ", operation.as_str());
                append_str(&mut text, " at `");
                append_str(&mut text, path.as_str());
                append_str(&mut text, "`: ");
                append_str(&mut text, message.as_str());
                text
            },
            EncodeError::Image(message) => concatenated("image encoding failed: ", message.as_str()),
        }
    }
}

/// One color channel composited over opaque white.
pub open spec fn over_white(channel: u8, alpha: u8) -> u8 {
    ((channel * alpha + 255 * (255 - alpha) + 127) / 255) as u8
}

/// The RGB bytes of straight-alpha RGBA pixels composited over white; a
/// trailing partial pixel is ignored.
pub open spec fn rgb_over_white(rgba: Seq<u8>) -> Seq<u8> {
    Seq::new(
        ((rgba.len() / 4) * 3) as nat,
        |i: int| over_white(rgba[(i / 3) * 4 + i % 3], rgba[(i / 3) * 4 + 3]),
    )
}

/// Composites straight-alpha RGBA pixels over white, giving RGB bytes.
pub fn rgba_over_white(rgba: &[u8]) -> (rgb: Vec<u8>)
    ensures
        rgb@ == rgb_over_white(rgba@),
{
    let length = rgba.len();
    let pixels = length / 4;
    let ghost expected = rgb_over_white(rgba@);
    let mut rgb: Vec<u8> = Vec::new();
    let mut pixel: usize = 0;
    while pixel < pixels
        invariant
            length == rgba@.len(),
            pixels == rgba@.len() / 4,
            pixel <= pixels,
            expected == rgb_over_white(rgba@),
            rgb@.len() == pixel * 3,
            forall|i: int| 0 <= i < rgb@.len() ==> rgb@[i] == expected[i],
        decreases pixels - pixel,
    {
        proof {
            assert(pixel * 4 + 3 < rgba@.len()) by (nonlinear_arith)
                requires
                    pixel < pixels,
                    pixels == rgba@.len() / 4,
            ;
        }
        let base = pixel * 4;
        let alpha = rgba[base + 3] as u16;
        let mut channel: usize = 0;
        while channel < 3
            invariant
                pixels == rgba@.len() / 4,
                pixel < pixels,
                base == pixel * 4,
                base + 3 < rgba@.len(),
                alpha == rgba@[base + 3],
                channel <= 3,
                expected == rgb_over_white(rgba@),
                rgb@.len() == pixel * 3 + channel,
                forall|i: int| 0 <= i < rgb@.len() ==> rgb@[i] == expected[i],
            decreases 3 - channel,
        {
            let value = rgba[base + channel] as u16;
            proof {
                assert(value * alpha <= 255 * alpha) by (nonlinear_arith)
                    requires
                        value <= 255,
                        alpha <= 255,
                ;
                let i = pixel * 3 + channel;
                lemma_fundamental_div_mod_converse(i as int, 3, pixel as int, channel as int);
                assert(expected.len() == pixels * 3);
                assert(i < pixels * 3);
            }
            let composited = (value * alpha + 255 * (255 - alpha) + 127) / 255;
            rgb.push(composited as u8);
            channel += 1;
        }
        pixel += 1;
    }
    proof {
        assert(rgb@ =~= expected);
    }
    rgb
}

/// The encoder settings name a JPEG quality in `1..=100`.
pub open spec fn quality_valid(options: EncodeOptions) -> bool {
    1 <= options.jpeg_quality <= 100
}

/// Encodes one frame using the selected output format.
///
/// JPEG cannot store transparency, so translucent pixels are composited over
/// white before encoding.
pub fn encode(frame: &Frame, options: EncodeOptions) -> (result: Result<Vec<u8>, EncodeError>)
    ensures
        !quality_valid(options) ==> result == Err::<Vec<u8>, EncodeError>(
            EncodeError::InvalidJpegQuality(options.jpeg_quality),
        ),
        quality_valid(options) ==> {
            let encoding = match options.format {
                OutputFormat::Png => png_encoding(
                    frame.pixels(),
                    frame.width_spec(),
                    frame.height_spec(),
                    options.png_compression.level(),
                ),
                OutputFormat::Jpeg => jpeg_encoding(
                    rgb_over_white(frame.pixels()),
                    frame.width_spec(),
                    frame.height_spec(),
                    options.jpeg_quality,
                ),
            };
            match result {
                Ok(bytes) => encoding == Some(bytes@),
                Err(error) => encoding is None && error is Image,
            }
        },
{
    if !(1 <= options.jpeg_quality && options.jpeg_quality <= 100) {
        return Err(EncodeError::InvalidJpegQuality(options.jpeg_quality));
    }
    let width = frame.width();
    let height = frame.height();
    let encoded = match options.format {
        OutputFormat::Png => {
            let level: u8 = match options.png_compression {
                PngCompression::Fast => 0,
                PngCompression::Default => 1,
                PngCompression::Best => 2,
            };
            write_png(frame.rgba(), width, height, level)
        },
        OutputFormat::Jpeg => {
            let rgb = rgba_over_white(frame.rgba());
            proof {
                let n = width as int * height as int;
                assert(rgba_byte_count(width as int, height as int) == n * 4) by (nonlinear_arith)
                    requires
                        n == width as int * height as int,
                ;
                assert((n * 4) / 4 == n) by (nonlinear_arith)
                    requires
                        n >= 0,
                ;
                assert(n * 3 == width * height * 3) by (nonlinear_arith)
                    requires
                        n == width as int * height as int,
                ;
            }
            write_jpeg(rgb.as_slice(), width, height, options.jpeg_quality)
        },
    };
    match encoded {
        Ok(bytes) => Ok(bytes),
        Err(error) => Err(EncodeError::Image(image_error_text(&error))),
    }
}

/// Compositing over white mixes each channel with white by the pixel's
/// alpha: the result is the weighted mean of the channel (weight `alpha`)
/// and 255 (weight `255 - alpha`), rounded to nearest.
pub proof fn lemma_over_white_is_weighted_mean(rgba: Seq<u8>, pixel: int, channel: int)
    requires
        0 <= pixel < rgba.len() / 4,
        0 <= channel < 3,
    ensures
        ({
            let result = rgb_over_white(rgba)[3 * pixel + channel] as int;
            let c = rgba[4 * pixel + channel] as int;
            let a = rgba[4 * pixel + 3] as int;
            let mixed = c * a + 255 * (255 - a);
            255 * result <= mixed + 127 && mixed + 127 < 255 * (result + 1)
        }),
{
    let i = 3 * pixel + channel;
    vstd::arithmetic::div_mod::lemma_fundamental_div_mod_converse(i, 3, pixel, channel);
    assert(i < (rgba.len() / 4) * 3);
    let c = rgba[4 * pixel + channel] as int;
    let a = rgba[4 * pixel + 3] as int;
    let mixed = c * a + 255 * (255 - a);
    assert(0 <= mixed <= 255 * 255) by (nonlinear_arith)
        requires
            0 <= c <= 255,
            0 <= a <= 255,
            mixed == c * a + 255 * (255 - a),
    ;
    let q = (mixed + 127) / 255;
    assert(255 * q <= mixed + 127 && mixed + 127 < 255 * (q + 1) && 0 <= q <= 255) by (nonlinear_arith)
        requires
            q == (mixed + 127) / 255,
            0 <= mixed <= 255 * 255,
    ;
    assert(rgb_over_white(rgba)[i] == over_white(rgba[(i / 3) * 4 + i % 3], rgba[(i / 3) * 4 + 3]));
    assert((i / 3) * 4 + i % 3 == 4 * pixel + channel);
}

} // verus!
