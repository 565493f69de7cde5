//! Page layout and pixel preparation for printing a frame.
use crate::frame::Frame;
use vstd::prelude::*;

verus! {

/// What showing the print dialog came to.
#[derive(Clone, Copy, Debug, PartialEq, Eq, Structural)]
pub enum PrintOutcome {
    /// The page was printed.
    Printed,
    /// The user closed the dialog without printing.
    Cancelled,
}

/// Failures of print layout.
#[derive(Clone, Debug, PartialEq, Eq, Structural)]
pub enum PrintError {
    /// The printer reported no printable area.
    InvalidPrintableArea,
    /// A size exceeds what the printing API accepts.
    SizeExceedsLimit,
}

impl PrintError {
    /// Human-readable description.
    pub fn message(&self) -> (message: &'static str)
        ensures
            message@ == match *self {
                PrintError::InvalidPrintableArea => "printer reported an invalid printable area"@,
                PrintError::SizeExceedsLimit => "scaled print size exceeds GDI limits"@,
            },
    {
        match self {
            PrintError::InvalidPrintableArea => "printer reported an invalid printable area",
            PrintError::SizeExceedsLimit => "scaled print size exceeds GDI limits",
        }
    }
}

/// Where and how large the image lands on the page.
#[derive(Clone, Copy, Debug, PartialEq, Eq, Structural)]
pub struct PrintPlacement {
    pub x: i32,
    pub y: i32,
    pub width: u32,
    pub height: u32,
}

pub open spec fn at_least_one(value: int) -> int {
    if value < 1 { 1 } else { value }
}

/// The largest size with the image's aspect ratio that fits the page, as
/// computed in integers: the side that binds takes the page's length, the
/// other is scaled down (rounding toward zero, at least one pixel).
pub open spec fn aspect_fit_spec(image_width: int, image_height: int, page_width: int, page_height: int) -> (int, int) {
    if page_width * image_height <= page_height * image_width {
        let height = at_least_one(image_height * page_width / image_width);
        (page_width, if height <= u32::MAX { height } else { page_height })
    } else {
        let width = at_least_one(image_width * page_height / image_height);
        (if width <= u32::MAX { width } else { page_width }, page_height)
    }
}

/// Scales an image to fit a page while keeping its aspect ratio.
pub fn aspect_fit(image_width: u32, image_height: u32, page_width: u32, page_height: u32) -> (size: (
    u32,
    u32,
))
    requires
        image_width > 0 || (page_width > 0 && image_height > 0),
    ensures
        size.0 == aspect_fit_spec(image_width as int, image_height as int, page_width as int, page_height as int).0,
        size.1 == aspect_fit_spec(image_width as int, image_height as int, page_width as int, page_height as int).1,
{
    let image_width_64 = image_width as u64;
    let image_height_64 = image_height as u64;
    let page_width_64 = page_width as u64;
    let page_height_64 = page_height as u64;
    proof {
        assert(page_width_64 * image_height_64 <= 0xffff_ffff * 0xffff_ffff) by (nonlinear_arith)
            requires
                page_width_64 <= 0xffff_ffff,
                image_height_64 <= 0xffff_ffff,
        ;
        assert(page_height_64 * image_width_64 <= 0xffff_ffff * 0xffff_ffff) by (nonlinear_arith)
            requires
                page_height_64 <= 0xffff_ffff,
                image_width_64 <= 0xffff_ffff,
        ;
    }
    proof {
        assert(image_width_64 == 0 ==> page_width_64 * image_height_64 > page_height_64 * image_width_64)
            by (nonlinear_arith)
            requires
                image_width_64 > 0 || (page_width_64 > 0 && image_height_64 > 0),
        ;
        assert(image_height_64 == 0 ==> page_width_64 * image_height_64 <= page_height_64 * image_width_64)
            by (nonlinear_arith)
        ;
    }
    if page_width_64 * image_height_64 <= page_height_64 * image_width_64 {
        let scaled = image_height_64 * page_width_64 / image_width_64;
        let height = if scaled < 1 { 1 } else { scaled };
        (page_width, if height <= u32::MAX as u64 { height as u32 } else { page_height })
    } else {
        let scaled = image_width_64 * page_height_64 / image_height_64;
        let width = if scaled < 1 { 1 } else { scaled };
        (if width <= u32::MAX as u64 { width as u32 } else { page_width }, page_height)
    }
}

/// On a page with a printable area, the fitted image lies within the page and
/// fills it along one side.
pub proof fn lemma_aspect_fit_fills_page(image_width: int, image_height: int, page_width: int, page_height: int)
    requires
        image_width >= 0,
        image_height >= 0,
        image_width > 0 || image_height > 0,
        0 < page_width <= u32::MAX,
        0 < page_height <= u32::MAX,
    ensures
        ({
            let (width, height) = aspect_fit_spec(image_width, image_height, page_width, page_height);
            &&& 1 <= width <= page_width
            &&& 1 <= height <= page_height
            &&& (width == page_width || height == page_height)
        }),
{
    assert(image_width == 0 ==> page_width * image_height > page_height * image_width) by (nonlinear_arith)
        requires
            image_width >= 0,
            image_width > 0 || image_height > 0,
            page_width > 0,
    ;
    assert(image_height == 0 ==> page_width * image_height <= page_height * image_width) by (nonlinear_arith)
        requires
            image_width >= 0,
            page_height > 0,
    ;
    if page_width * image_height <= page_height * image_width {
        let scaled = image_height * page_width / image_width;
        assert(scaled * image_width <= image_height * page_width) by (nonlinear_arith)
            requires
                image_width > 0,
                scaled == image_height * page_width / image_width,
        ;
        assert(scaled <= page_height) by (nonlinear_arith)
            requires
                scaled * image_width <= image_height * page_width,
                page_width * image_height <= page_height * image_width,
                image_width > 0,
        ;
    } else {
        let scaled = image_width * page_height / image_height;
        assert(scaled * image_height <= image_width * page_height) by (nonlinear_arith)
            requires
                image_height > 0,
                scaled == image_width * page_height / image_height,
        ;
        assert(scaled <= page_width) by (nonlinear_arith)
            requires
                scaled * image_height <= image_width * page_height,
                page_width * image_height > page_height * image_width,
                image_height > 0,
        ;
    }
}

/// Centers the fitted image on a page of the reported printable size.
pub fn print_placement(image_width: u32, image_height: u32, page_width: i32, page_height: i32) -> (result: Result<PrintPlacement, PrintError>)
    requires
        image_width > 0 || image_height > 0 || page_width <= 0 || page_height <= 0,
    ensures
        (page_width <= 0 || page_height <= 0) <==> result == Err::<PrintPlacement, PrintError>(
            PrintError::InvalidPrintableArea,
        ),
        result matches Ok(placement) ==> {
            let (width, height) = aspect_fit_spec(
                image_width as int,
                image_height as int,
                page_width as int,
                page_height as int,
            );
            &&& placement.width == width
            &&& placement.height == height
            &&& placement.x == (page_width - width) / 2
            &&& placement.y == (page_height - height) / 2
        },
        result is Err ==> (page_width <= 0 || page_height <= 0) || result
            == Err::<PrintPlacement, PrintError>(PrintError::SizeExceedsLimit),
{
    if page_width <= 0 || page_height <= 0 {
        return Err(PrintError::InvalidPrintableArea);
    }
    let (width, height) = aspect_fit(image_width, image_height, page_width as u32, page_height as u32);
    if width > i32::MAX as u32 || height > i32::MAX as u32 {
        return Err(PrintError::SizeExceedsLimit);
    }
    proof {
        lemma_aspect_fit_fills_page(
            image_width as int,
            image_height as int,
            page_width as int,
            page_height as int,
        );
    }
    let x = page_width - width as i32;
    let y = page_height - height as i32;
    Ok(PrintPlacement { x: x / 2, y: y / 2, width, height })
}

/// Byte `i` of the printer's 32-bit BGR pixels, whose fourth byte is zero.
pub open spec fn print_byte(rgba: Seq<u8>, i: int) -> u8 {
    let channel = i % 4;
    let base = i - channel;
    if channel == 0 {
        rgba[base + 2]
    } else if channel == 1 {
        rgba[base + 1]
    } else if channel == 2 {
        rgba[base]
    } else {
        0
    }
}

/// The frame's pixels in the printer's BGR-and-unused-byte layout.
pub fn print_pixels(frame: &Frame) -> (pixels: Vec<u8>)
    ensures
        pixels@ == Seq::new(frame.pixels().len(), |i: int| print_byte(frame.pixels(), i)),
{
    let rgba = frame.rgba();
    proof {
        assert(rgba@.len() % 4 == 0) by (nonlinear_arith)
            requires
                rgba@.len() == frame.width_spec() * frame.height_spec() * 4,
        ;
    }
    let length = rgba.len();
    let mut pixels: Vec<u8> = Vec::new();
    let mut base: usize = 0;
    while base < length
        invariant
            length == rgba@.len(),
            length % 4 == 0,
            base <= length,
            base % 4 == 0,
            pixels@.len() == base,
            forall|i: int| 0 <= i < base ==> pixels@[i] == print_byte(rgba@, i),
        decreases length - base,
    {
        pixels.push(rgba[base + 2]);
        pixels.push(rgba[base + 1]);
        pixels.push(rgba[base]);
        pixels.push(0);
        base += 4;
    }
    proof {
        assert(pixels@ =~= Seq::new(frame.pixels().len(), |i: int| print_byte(frame.pixels(), i)));
    }
    pixels
}

/// The fitted image keeps the image's aspect ratio up to the rounding of
/// one side: `width / height` and `image_width / image_height` differ in
/// their cross products by less than `image_width + image_height`.
pub proof fn lemma_aspect_fit_keeps_ratio(image_width: int, image_height: int, page_width: int, page_height: int)
    requires
        image_width > 0,
        image_height > 0,
        0 < page_width <= u32::MAX,
        0 < page_height <= u32::MAX,
    ensures
        ({
            let (width, height) = aspect_fit_spec(image_width, image_height, page_width, page_height);
            &&& width * image_height - height * image_width < image_width + image_height
            &&& height * image_width - width * image_height < image_width + image_height
        }),
{
    lemma_aspect_fit_fills_page(image_width, image_height, page_width, page_height);
    if page_width * image_height <= page_height * image_width {
        let scaled = image_height * page_width / image_width;
        vstd::arithmetic::div_mod::lemma_fundamental_div_mod(image_height * page_width, image_width);
        assert(0 <= image_height * page_width) by (nonlinear_arith)
            requires
                image_height > 0,
                page_width > 0,
        ;
        let height = at_least_one(scaled);
        assert(scaled <= page_height) by (nonlinear_arith)
            requires
                image_width * scaled + (image_height * page_width) % image_width == image_height * page_width,
                0 <= (image_height * page_width) % image_width,
                page_width * image_height <= page_height * image_width,
                image_width > 0,
        ;
        assert(aspect_fit_spec(image_width, image_height, page_width, page_height) == (page_width, height));
        assert(page_width * image_height - height * image_width < image_width + image_height
            && height * image_width - page_width * image_height < image_width + image_height)
            by (nonlinear_arith)
            requires
                image_width * scaled + (image_height * page_width) % image_width == image_height * page_width,
                0 <= (image_height * page_width) % image_width < image_width,
                height == if scaled < 1 { 1 } else { scaled },
                scaled >= 0,
                image_width > 0,
                image_height > 0,
                page_width > 0,
        ;
    } else {
        let scaled = image_width * page_height / image_height;
        vstd::arithmetic::div_mod::lemma_fundamental_div_mod(image_width * page_height, image_height);
        assert(0 <= image_width * page_height) by (nonlinear_arith)
            requires
                image_width > 0,
                page_height > 0,
        ;
        let width = at_least_one(scaled);
        assert(scaled <= page_width) by (nonlinear_arith)
            requires
                image_height * scaled + (image_width * page_height) % image_height == image_width * page_height,
                0 <= (image_width * page_height) % image_height,
                page_width * image_height > page_height * image_width,
                image_height > 0,
        ;
        assert(aspect_fit_spec(image_width, image_height, page_width, page_height) == (width, page_height));
        assert(width * image_height - page_height * image_width < image_width + image_height
            && page_height * image_width - width * image_height < image_width + image_height)
            by (nonlinear_arith)
            requires
                image_height * scaled + (image_width * page_height) % image_height == image_width * page_height,
                0 <= (image_width * page_height) % image_height < image_height,
                width == if scaled < 1 { 1 } else { scaled },
                scaled >= 0,
                image_width > 0,
                image_height > 0,
                page_height > 0,
        ;
    }
}

} // verus!
