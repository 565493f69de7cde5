//! Owned RGBA screenshot pixels and physical-desktop geometry.
use vstd::arithmetic::div_mod::lemma_fundamental_div_mod_converse;
use crate::text::{append_str, decimal_text, i32_to_decimal, signed_decimal_text, u64_to_decimal};
use vstd::prelude::*;

verus! {

/// Bytes per straight-alpha RGBA pixel.
pub const RGBA_CHANNELS: usize = 4;

/// A point in physical desktop pixels.
///
/// Desktop coordinates can be negative when a monitor is positioned to the
/// left of, or above, the primary monitor.
#[derive(Clone, Copy, Debug, Default, PartialEq, Eq, Structural)]
pub struct PhysicalPoint {
    x: i32,
    y: i32,
}

impl PhysicalPoint {
    pub closed spec fn x_spec(self) -> i32 {
        self.x
    }

    pub closed spec fn y_spec(self) -> i32 {
        self.y
    }

    pub fn new(x: i32, y: i32) -> (point: Self)
        ensures
            point.x_spec() == x,
            point.y_spec() == y,
    {
        Self { x, y }
    }

    pub fn x(self) -> (x: i32)
        ensures
            x == self.x_spec(),
    {
        self.x
    }

    pub fn y(self) -> (y: i32)
        ensures
            y == self.y_spec(),
    {
        self.y
    }

    /// Two points are equal exactly when their coordinates are.
    pub proof fn lemma_equal(self, other: Self)
        ensures
            (self == other) <==> (self.x_spec() == other.x_spec() && self.y_spec() == other.y_spec()),
    {
    }
}

/// Largest exclusive end coordinate: one beyond `i32::MAX`, so that every
/// actual pixel coordinate still fits an `i32`.
pub open spec fn maximum_end() -> int {
    i32::MAX as int + 1
}

/// Number of bytes of a tightly packed RGBA image.
pub open spec fn rgba_byte_count(width: int, height: int) -> int {
    width * height * 4
}

/// Geometry that a rectangle or a frame may have: non-empty, with a buffer
/// size representable in `usize`, and with half-open ends that do not pass
/// one beyond `i32::MAX`.
pub open spec fn geometry_valid(x: int, y: int, width: int, height: int) -> bool {
    &&& width > 0
    &&& height > 0
    &&& rgba_byte_count(width, height) <= usize::MAX
    &&& x + width <= maximum_end()
    &&& y + height <= maximum_end()
}

/// The error that geometry validation reports, in the order the checks run.
pub open spec fn geometry_error(origin: PhysicalPoint, width: u32, height: u32) -> FrameError {
    if width == 0 || height == 0 {
        FrameError::EmptyDimensions { width, height }
    } else if rgba_byte_count(width as int, height as int) > usize::MAX {
        FrameError::BufferSizeOverflow { width, height }
    } else {
        FrameError::CoordinateOverflow
    }
}

/// A non-empty, half-open rectangle in physical desktop pixels.
#[derive(Clone, Copy, Debug, PartialEq, Eq, Structural)]
pub struct PhysicalRect {
    origin: PhysicalPoint,
    width: u32,
    height: u32,
}

impl PhysicalRect {
    pub closed spec fn origin_spec(self) -> PhysicalPoint {
        self.origin
    }

    pub closed spec fn width_spec(self) -> u32 {
        self.width
    }

    pub closed spec fn height_spec(self) -> u32 {
        self.height
    }

    pub open spec fn x_spec(self) -> int {
        self.origin_spec().x_spec() as int
    }

    /// Two rectangles are equal exactly when their origins and sizes are.
    pub proof fn lemma_equal(self, other: Self)
        ensures
            (self == other) <==> (self.origin_spec() == other.origin_spec() && self.width_spec()
                == other.width_spec() && self.height_spec() == other.height_spec()),
    {
    }

    pub open spec fn y_spec(self) -> int {
        self.origin_spec().y_spec() as int
    }

    pub open spec fn right_spec(self) -> int {
        self.x_spec() + self.width_spec()
    }

    pub open spec fn bottom_spec(self) -> int {
        self.y_spec() + self.height_spec()
    }

    pub open spec fn wf(self) -> bool {
        geometry_valid(self.x_spec(), self.y_spec(), self.width_spec() as int, self.height_spec() as int)
    }

    #[verifier::type_invariant]
    closed spec fn inv(self) -> bool {
        self.wf()
    }

    /// `other` lies entirely inside `self`.
    pub open spec fn contains_spec(self, other: Self) -> bool {
        &&& other.x_spec() >= self.x_spec()
        &&& other.y_spec() >= self.y_spec()
        &&& other.right_spec() <= self.right_spec()
        &&& other.bottom_spec() <= self.bottom_spec()
    }

    /// Creates a rectangle, rejecting empty or unrepresentable geometry.
    pub fn new(origin: PhysicalPoint, width: u32, height: u32) -> (result: Result<Self, FrameError>)
        ensures
            result is Ok <==> geometry_valid(origin.x_spec() as int, origin.y_spec() as int, width as int, height as int),
            result matches Ok(rect) ==> rect.origin_spec() == origin && rect.width_spec() == width
                && rect.height_spec() == height,
            result matches Err(error) ==> error == geometry_error(origin, width, height),
    {
        match validate_geometry(origin, width, height) {
            Ok(()) => Ok(Self { origin, width, height }),
            Err(error) => Err(error),
        }
    }

    pub fn origin(self) -> (origin: PhysicalPoint)
        ensures
            origin == self.origin_spec(),
    {
        self.origin
    }

    pub fn x(self) -> (x: i32)
        ensures
            x == self.x_spec(),
    {
        self.origin.x
    }

    pub fn y(self) -> (y: i32)
        ensures
            y == self.y_spec(),
    {
        self.origin.y
    }

    pub fn width(self) -> (width: u32)
        ensures
            width == self.width_spec(),
            self.wf(),
    {
        proof {
            use_type_invariant(&self);
        }
        self.width
    }

    pub fn height(self) -> (height: u32)
        ensures
            height == self.height_spec(),
            self.wf(),
    {
        proof {
            use_type_invariant(&self);
        }
        self.height
    }

    /// Exclusive right edge.
    pub fn right(self) -> (right: i64)
        ensures
            right == self.right_spec(),
    {
        self.origin.x as i64 + self.width as i64
    }

    /// Exclusive bottom edge.
    pub fn bottom(self) -> (bottom: i64)
        ensures
            bottom == self.bottom_spec(),
    {
        self.origin.y as i64 + self.height as i64
    }

    pub fn contains(self, other: Self) -> (contained: bool)
        ensures
            contained == self.contains_spec(other),
    {
        other.x() as i64 >= self.x() as i64 && other.y() as i64 >= self.y() as i64 && other.right()
            <= self.right() && other.bottom() <= self.bottom()
    }

    /// Every rectangle contains itself.
    pub proof fn lemma_contains_reflexive(self)
        ensures
            self.contains_spec(self),
    {
    }

    /// Containment is transitive.
    pub proof fn lemma_contains_transitive(self, middle: Self, inner: Self)
        requires
            self.contains_spec(middle),
            middle.contains_spec(inner),
        ensures
            self.contains_spec(inner),
    {
    }
}

/// A tightly packed, row-major image in straight-alpha RGBA8 format.
///
/// `origin` locates the top-left pixel in physical desktop coordinates.
#[derive(Debug, PartialEq, Eq)]
pub struct Frame {
    origin: PhysicalPoint,
    width: u32,
    height: u32,
    rgba: Vec<u8>,
}

impl Clone for Frame {
    fn clone(&self) -> (copy: Self)
        ensures
            copy.origin_spec() == self.origin_spec(),
            copy.width_spec() == self.width_spec(),
            copy.height_spec() == self.height_spec(),
            copy.pixels() == self.pixels(),
    {
        proof {
            use_type_invariant(self);
        }
        let rgba = self.rgba.clone();
        proof {
            assert(rgba@ =~= self.rgba@);
        }
        Frame { origin: self.origin, width: self.width, height: self.height, rgba }
    }
}

/// The bytes that a crop copies: row after row, `width * 4` bytes per row,
/// starting `x_offset` pixels and `y_offset` rows into a source with row
/// length `stride` bytes.
pub open spec fn crop_bytes(
    source: Seq<u8>,
    stride: int,
    x_offset: int,
    y_offset: int,
    width: int,
    height: int,
) -> Seq<u8> {
    Seq::new(
        rgba_byte_count(width, height) as nat,
        |i: int| source[(y_offset + i / (width * 4)) * stride + x_offset * 4 + i % (width * 4)],
    )
}

/// Two frames hold the same origin, size and pixels.
pub open spec fn same_frame(first: Frame, second: Frame) -> bool {
    &&& first.origin_spec() == second.origin_spec()
    &&& first.width_spec() == second.width_spec()
    &&& first.height_spec() == second.height_spec()
    &&& first.pixels() == second.pixels()
}

/// `cropped` is what cropping `frame` to `rect` gives: the rectangle's
/// origin and size, and the frame's pixels under it.
pub open spec fn cropped_from(frame: Frame, rect: PhysicalRect, cropped: Frame) -> bool {
    &&& cropped.origin_spec() == rect.origin_spec()
    &&& cropped.width_spec() == rect.width_spec()
    &&& cropped.height_spec() == rect.height_spec()
    &&& cropped.pixels() == crop_bytes(
        frame.pixels(),
        frame.width_spec() * 4,
        rect.x_spec() - frame.origin_spec().x_spec(),
        rect.y_spec() - frame.origin_spec().y_spec(),
        rect.width_spec() as int,
        rect.height_spec() as int,
    )
}

impl Frame {
    pub closed spec fn origin_spec(&self) -> PhysicalPoint {
        self.origin
    }

    pub closed spec fn width_spec(&self) -> u32 {
        self.width
    }

    pub closed spec fn height_spec(&self) -> u32 {
        self.height
    }

    pub closed spec fn pixels(&self) -> Seq<u8> {
        self.rgba@
    }

    /// The rectangle that the frame covers.
    pub closed spec fn bounds_spec(&self) -> PhysicalRect {
        PhysicalRect { origin: self.origin, width: self.width, height: self.height }
    }

    pub open spec fn wf(&self) -> bool {
        &&& geometry_valid(
            self.origin_spec().x_spec() as int,
            self.origin_spec().y_spec() as int,
            self.width_spec() as int,
            self.height_spec() as int,
        )
        &&& self.pixels().len() == rgba_byte_count(self.width_spec() as int, self.height_spec() as int)
    }

    #[verifier::type_invariant]
    closed spec fn inv(&self) -> bool {
        self.wf()
    }

    /// Creates a frame after checking all geometry and buffer invariants.
    pub fn new(origin: PhysicalPoint, width: u32, height: u32, rgba: Vec<u8>) -> (result: Result<
        Self,
        FrameError,
    >)
        ensures
            result is Ok <==> geometry_valid(origin.x_spec() as int, origin.y_spec() as int, width as int, height as int)
                && rgba@.len() == rgba_byte_count(width as int, height as int),
            result matches Ok(frame) ==> frame.origin_spec() == origin && frame.width_spec() == width
                && frame.height_spec() == height && frame.pixels() == rgba@ && frame.wf(),
            result matches Err(error) ==> if geometry_valid(origin.x_spec() as int, origin.y_spec() as int, width as int, height as int) {
                error == (FrameError::InvalidBufferLength {
                    expected: rgba_byte_count(width as int, height as int) as usize,
                    actual: rgba@.len() as usize,
                })
            } else {
                error == geometry_error(origin, width, height)
            },
    {
        match validate_geometry(origin, width, height) {
            Ok(()) => {},
            Err(error) => {
                return Err(error);
            },
        }
        let expected = match expected_len(width, height) {
            Ok(expected) => expected,
            Err(error) => {
                return Err(error);
            },
        };
        if rgba.len() != expected {
            return Err(FrameError::InvalidBufferLength { expected, actual: rgba.len() });
        }
        Ok(Self { origin, width, height, rgba })
    }

    pub fn origin(&self) -> (origin: PhysicalPoint)
        ensures
            origin == self.origin_spec(),
    {
        self.origin
    }

    pub fn width(&self) -> (width: u32)
        ensures
            width == self.width_spec(),
            self.wf(),
    {
        proof {
            use_type_invariant(self);
        }
        self.width
    }

    pub fn height(&self) -> (height: u32)
        ensures
            height == self.height_spec(),
            self.wf(),
    {
        proof {
            use_type_invariant(self);
        }
        self.height
    }

    /// The frame's rectangle in physical desktop coordinates.
    pub fn bounds(&self) -> (bounds: PhysicalRect)
        ensures
            bounds == self.bounds_spec(),
            bounds.origin_spec() == self.origin_spec(),
            bounds.width_spec() == self.width_spec(),
            bounds.height_spec() == self.height_spec(),
            self.wf(),
    {
        proof {
            use_type_invariant(self);
        }
        PhysicalRect { origin: self.origin, width: self.width, height: self.height }
    }

    pub fn rgba(&self) -> (rgba: &[u8])
        ensures
            rgba@ == self.pixels(),
            self.wf(),
    {
        proof {
            use_type_invariant(self);
        }
        self.rgba.as_slice()
    }

    pub fn into_rgba(self) -> (rgba: Vec<u8>)
        ensures
            rgba@ == self.pixels(),
            self.wf(),
    {
        proof {
            use_type_invariant(&self);
        }
        self.rgba
    }

    /// Bytes per row.
    pub fn stride(&self) -> (stride: usize)
        ensures
            stride == self.width_spec() * 4,
    {
        proof {
            use_type_invariant(self);
            lemma_byte_count_bounds(self.width as int, self.height as int);
        }
        self.width as usize * RGBA_CHANNELS
    }

    /// Crops using physical desktop coordinates.
    ///
    /// The returned frame keeps the requested rectangle's physical origin.
    pub fn crop(&self, rect: PhysicalRect) -> (result: Result<Self, FrameError>)
        ensures
            result is Ok <==> self.bounds_spec().contains_spec(rect),
            result matches Err(error) ==> error == (FrameError::CropOutsideFrame {
                crop: rect,
                frame: self.bounds_spec(),
            }),
            result matches Ok(cropped) ==> cropped_from(*self, rect, cropped),
    {
        proof {
            use_type_invariant(self);
            use_type_invariant(&rect);
        }
        let bounds = self.bounds();
        if !bounds.contains(rect) {
            return Err(FrameError::CropOutsideFrame { crop: rect, frame: bounds });
        }
        let x_offset = (rect.x() as i64 - self.origin.x as i64) as usize;
        let y_offset = (rect.y() as i64 - self.origin.y as i64) as usize;
        let crop_width = rect.width() as usize;
        let crop_height = rect.height() as usize;
        let source_width = self.width as usize;
        let source_height = self.height as usize;
        proof {
            lemma_byte_count_bounds(source_width as int, source_height as int);
            lemma_byte_count_bounds(crop_width as int, crop_height as int);
        }
        let crop_stride = crop_width * RGBA_CHANNELS;
        let source_stride = source_width * RGBA_CHANNELS;
        let ghost expected = crop_bytes(
            self.rgba@,
            source_stride as int,
            x_offset as int,
            y_offset as int,
            crop_width as int,
            crop_height as int,
        );
        let mut rgba: Vec<u8> = Vec::new();
        let mut row: usize = 0;
        while row < crop_height
            invariant
                row <= crop_height,
                x_offset + crop_width <= source_width,
                y_offset + crop_height <= source_height,
                crop_stride == crop_width * 4,
                source_stride == source_width * 4,
                crop_width > 0,
                crop_height > 0,
                source_width * source_height * 4 <= usize::MAX,
                self.rgba@.len() == source_width * source_height * 4,
                expected.len() == crop_width * crop_height * 4,
                expected == crop_bytes(
                    self.rgba@,
                    source_stride as int,
                    x_offset as int,
                    y_offset as int,
                    crop_width as int,
                    crop_height as int,
                ),
                rgba@.len() == row * crop_stride,
                forall|i: int| 0 <= i < rgba@.len() ==> rgba@[i] == expected[i],
            decreases crop_height - row,
        {
            proof {
                lemma_row_start_in_bounds(
                    source_width as int,
                    source_height as int,
                    x_offset as int,
                    y_offset as int,
                    crop_width as int,
                    row as int,
                );
            }
            let start = (y_offset + row) * source_stride + x_offset * RGBA_CHANNELS;
            let mut column: usize = 0;
            while column < crop_stride
                invariant
                    row < crop_height,
                    column <= crop_stride,
                    crop_stride == crop_width * 4,
                    crop_width > 0,
                    start == (y_offset + row) * source_stride + x_offset * 4,
                    start + crop_stride <= self.rgba@.len(),
                    self.rgba@.len() <= usize::MAX,
                    expected.len() == crop_width * crop_height * 4,
                    expected == crop_bytes(
                        self.rgba@,
                        source_stride as int,
                        x_offset as int,
                        y_offset as int,
                        crop_width as int,
                        crop_height as int,
                    ),
                    rgba@.len() == row * crop_stride + column,
                    forall|i: int| 0 <= i < rgba@.len() ==> rgba@[i] == expected[i],
                decreases crop_stride - column,
            {
                proof {
                    let i = row * crop_stride + column;
                    lemma_fundamental_div_mod_converse(
                        i as int,
                        crop_stride as int,
                        row as int,
                        column as int,
                    );
                    assert(i < crop_width * crop_height * 4) by (nonlinear_arith)
                        requires
                            i == row * crop_stride + column,
                            column < crop_stride,
                            row < crop_height,
                            crop_stride == crop_width * 4,
                    ;
                }
                rgba.push(self.rgba[start + column]);
                column += 1;
            }
            proof {
                assert((row + 1) * crop_stride == row * crop_stride + crop_stride) by (nonlinear_arith);
            }
            row += 1;
        }
        proof {
            assert(rgba@.len() == crop_width * crop_height * 4) by (nonlinear_arith)
                requires
                    rgba@.len() == row * crop_stride,
                    row == crop_height,
                    crop_stride == crop_width * 4,
            ;
            assert(rgba@ =~= expected);
        }
        Self::new(rect.origin(), rect.width(), rect.height(), rgba)
    }
}

/// Errors of frame and rectangle construction and cropping.
#[derive(Clone, Debug, PartialEq, Eq, Structural)]
pub enum FrameError {
    EmptyDimensions { width: u32, height: u32 },
    BufferSizeOverflow { width: u32, height: u32 },
    CoordinateOverflow,
    InvalidBufferLength { expected: usize, actual: usize },
    CropOutsideFrame { crop: PhysicalRect, frame: PhysicalRect },
}

/// A point as `{:?}` writes it.
pub open spec fn point_debug_text(point: PhysicalPoint) -> Seq<char> {
    "PhysicalPoint { x: "@ + signed_decimal_text(point.x_spec() as int) + ", y: "@ + signed_decimal_text(
        point.y_spec() as int,
    ) + " }"@
}

/// A rectangle as `{:?}` writes it.
pub open spec fn rect_debug_text(rect: PhysicalRect) -> Seq<char> {
    "PhysicalRect { origin: "@ + point_debug_text(rect.origin_spec()) + ", width: "@ + decimal_text(
        rect.width_spec() as nat,
    ) + ", height: "@ + decimal_text(rect.height_spec() as nat) + " }"@
}

/// Human-readable description of a frame error.
pub open spec fn frame_error_message(error: FrameError) -> Seq<char> {
    match error {
        FrameError::EmptyDimensions { width, height } => "a frame or rectangle cannot be empty ("@
            + decimal_text(width as nat) + "x"@ + decimal_text(height as nat) + ")"@,
        FrameError::BufferSizeOverflow { width, height } => "RGBA buffer size overflows this platform for "@
            + decimal_text(width as nat) + "x"@ + decimal_text(height as nat),
        FrameError::CoordinateOverflow =>
            "physical rectangle extends beyond the representable desktop coordinates"@,
        FrameError::InvalidBufferLength { expected, actual } => "invalid RGBA buffer length: expected "@
            + decimal_text(expected as nat) + " bytes, got "@ + decimal_text(actual as nat),
        FrameError::CropOutsideFrame { crop, frame } => "crop "@ + rect_debug_text(crop)
            + " is outside frame bounds "@ + rect_debug_text(frame),
    }
}

fn append_point(text: &mut String, point: PhysicalPoint)
    ensures
        final(text)@ == old(text)@ + point_debug_text(point),
{
    let ghost start = text@;
    append_str(text, "PhysicalPoint { x: ");
    append_str(text, i32_to_decimal(point.x()).as_str());
    append_str(text, ", y: ");
    append_str(text, i32_to_decimal(point.y()).as_str());
    append_str(text, " }");
    proof {
        assert(text@ =~= start + point_debug_text(point));
    }
}

fn append_rect(text: &mut String, rect: PhysicalRect)
    ensures
        final(text)@ == old(text)@ + rect_debug_text(rect),
{
    let ghost start = text@;
    append_str(text, "PhysicalRect { origin: ");
    append_point(text, rect.origin());
    append_str(text, ", width: ");
    append_str(text, u64_to_decimal(rect.width() as u64).as_str());
    append_str(text, ", height: ");
    append_str(text, u64_to_decimal(rect.height() as u64).as_str());
    append_str(text, " }");
    proof {
        assert(text@ =~= start + rect_debug_text(rect));
    }
}

impl FrameError {
    /// Human-readable description.
    pub fn message(&self) -> (message: String)
        ensures
            message@ == frame_error_message(*self),
    {
        let mut text = String::new();
        match *self {
            FrameError::EmptyDimensions { width, height } => {
                append_str(&mut text, "a frame or rectangle cannot be empty (");
                append_str(&mut text, u64_to_decimal(width as u64).as_str());
                append_str(&mut text, "x");
                append_str(&mut text, u64_to_decimal(height as u64).as_str());
                append_str(&mut text, ")");
            },
            FrameError::BufferSizeOverflow { width, height } => {
                append_str(&mut text, "RGBA buffer size overflows this platform for ");
                append_str(&mut text, u64_to_decimal(width as u64).as_str());
                append_str(&mut text, "x");
                append_str(&mut text, u64_to_decimal(height as u64).as_str());
            },
            FrameError::CoordinateOverflow => {
                append_str(
                    &mut text,
                    "physical rectangle extends beyond the representable desktop coordinates",
                );
            },
            FrameError::InvalidBufferLength { expected, actual } => {
                append_str(&mut text, "invalid RGBA buffer length: expected ");
                append_str(&mut text, u64_to_decimal(expected as u64).as_str());
                append_str(&mut text, " bytes, got ");
                append_str(&mut text, u64_to_decimal(actual as u64).as_str());
            },
            FrameError::CropOutsideFrame { crop, frame } => {
                append_str(&mut text, "crop ");
                append_rect(&mut text, crop);
                append_str(&mut text, " is outside frame bounds ");
                append_rect(&mut text, frame);
            },
        }
        proof {
            assert(text@ =~= frame_error_message(*self));
        }
        text
    }
}

/// A frame's bounds are its origin and size.
pub proof fn lemma_frame_bounds(frame: &Frame)
    ensures
        frame.bounds_spec().origin_spec() == frame.origin_spec(),
        frame.bounds_spec().width_spec() == frame.width_spec(),
        frame.bounds_spec().height_spec() == frame.height_spec(),
{
}

proof fn lemma_byte_count_bounds(width: int, height: int)
    requires
        width >= 0,
        height >= 0,
        rgba_byte_count(width, height) <= usize::MAX,
    ensures
        width * 4 <= usize::MAX || height == 0,
        width * height <= usize::MAX,
        height > 0 ==> width * 4 <= rgba_byte_count(width, height),
{
    assert(width * height * 4 == (width * 4) * height) by (nonlinear_arith);
    if height > 0 {
        assert(width * 4 <= (width * 4) * height) by (nonlinear_arith)
            requires
                width >= 0,
                height > 0,
        ;
    }
    assert(width * height <= width * height * 4) by (nonlinear_arith)
        requires
            width >= 0,
            height >= 0,
    ;
}

pub proof fn lemma_row_start_in_bounds(
    source_width: int,
    source_height: int,
    x_offset: int,
    y_offset: int,
    crop_width: int,
    row: int,
)
    requires
        0 <= x_offset,
        0 <= y_offset,
        0 <= row,
        crop_width > 0,
        x_offset + crop_width <= source_width,
        y_offset + row < source_height,
    ensures
        (y_offset + row) * (source_width * 4) + x_offset * 4 + crop_width * 4 <= source_width
            * source_height * 4,
{
    assert((y_offset + row) * (source_width * 4) + x_offset * 4 + crop_width * 4 <= (y_offset + row)
        * (source_width * 4) + source_width * 4) by (nonlinear_arith)
        requires
            x_offset + crop_width <= source_width,
    ;
    assert((y_offset + row) * (source_width * 4) + source_width * 4 == (y_offset + row + 1) * (
    source_width * 4)) by (nonlinear_arith);
    assert((y_offset + row + 1) * (source_width * 4) <= source_height * (source_width * 4))
        by (nonlinear_arith)
        requires
            y_offset + row + 1 <= source_height,
            source_width >= 0,
    ;
    assert(source_height * (source_width * 4) == source_width * source_height * 4)
        by (nonlinear_arith);
}

/// Validates rectangle or frame geometry.
pub fn validate_geometry(origin: PhysicalPoint, width: u32, height: u32) -> (result: Result<
    (),
    FrameError,
>)
    ensures
        result is Ok <==> geometry_valid(origin.x_spec() as int, origin.y_spec() as int, width as int, height as int),
        result matches Err(error) ==> error == geometry_error(origin, width, height),
{
    if width == 0 || height == 0 {
        return Err(FrameError::EmptyDimensions { width, height });
    }
    match expected_len(width, height) {
        Ok(_) => {},
        Err(error) => {
            return Err(error);
        },
    }
    let maximum_end: i64 = i32::MAX as i64 + 1;
    let right = origin.x as i64 + width as i64;
    let bottom = origin.y as i64 + height as i64;
    if right > maximum_end || bottom > maximum_end {
        return Err(FrameError::CoordinateOverflow);
    }
    Ok(())
}

/// Length in bytes of a tightly packed `width` x `height` RGBA buffer.
pub fn expected_len(width: u32, height: u32) -> (result: Result<usize, FrameError>)
    ensures
        result is Ok <==> rgba_byte_count(width as int, height as int) <= usize::MAX,
        result matches Ok(len) ==> len == rgba_byte_count(width as int, height as int),
        result matches Err(error) ==> error == (FrameError::BufferSizeOverflow { width, height }),
{
    let pixels = (width as usize).checked_mul(height as usize);
    match pixels {
        Some(pixels) => match pixels.checked_mul(RGBA_CHANNELS) {
            Some(bytes) => Ok(bytes),
            None => Err(FrameError::BufferSizeOverflow { width, height }),
        },
        None => {
            proof {
                assert(width * height * 4 >= width * height) by (nonlinear_arith)
                    requires
                        width >= 0,
                        height >= 0,
                ;
            }
            Err(FrameError::BufferSizeOverflow { width, height })
        },
    }
}

/// Cropping a frame to its own bounds gives back its pixels.
pub proof fn lemma_crop_whole_frame(source: Seq<u8>, width: int, height: int)
    requires
        width > 0,
        height >= 0,
        source.len() == rgba_byte_count(width, height),
    ensures
        crop_bytes(source, width * 4, 0, 0, width, height) == source,
{
    let stride = width * 4;
    assert forall|i: int| 0 <= i < source.len() implies #[trigger] crop_bytes(
        source,
        stride,
        0,
        0,
        width,
        height,
    )[i] == source[i] by {
        vstd::arithmetic::div_mod::lemma_fundamental_div_mod(i, stride);
        assert((0 + i / stride) * stride + 0 * 4 + i % stride == stride * (i / stride) + i % stride)
            by (nonlinear_arith);
    }
    assert(crop_bytes(source, stride, 0, 0, width, height) =~= source);
}

/// Cropping a crop takes the same pixels as cropping the source directly:
/// the inner rectangle's offset within the outer one adds to the outer
/// rectangle's offset within the source.
pub proof fn lemma_crop_bytes_compose(
    source: Seq<u8>,
    stride: int,
    outer_x: int,
    outer_y: int,
    outer_width: int,
    outer_height: int,
    inner_x: int,
    inner_y: int,
    inner_width: int,
    inner_height: int,
)
    requires
        outer_width > 0,
        inner_width > 0,
        inner_height >= 0,
        0 <= inner_x,
        inner_x + inner_width <= outer_width,
        0 <= inner_y,
        inner_y + inner_height <= outer_height,
    ensures
        crop_bytes(
            crop_bytes(source, stride, outer_x, outer_y, outer_width, outer_height),
            outer_width * 4,
            inner_x,
            inner_y,
            inner_width,
            inner_height,
        ) == crop_bytes(source, stride, outer_x + inner_x, outer_y + inner_y, inner_width, inner_height),
{
    let outer = crop_bytes(source, stride, outer_x, outer_y, outer_width, outer_height);
    let twice = crop_bytes(outer, outer_width * 4, inner_x, inner_y, inner_width, inner_height);
    let direct = crop_bytes(source, stride, outer_x + inner_x, outer_y + inner_y, inner_width, inner_height);
    let inner_stride = inner_width * 4;
    let outer_stride = outer_width * 4;
    assert(twice.len() == direct.len());
    assert forall|i: int| 0 <= i < twice.len() implies #[trigger] twice[i] == direct[i] by {
        let row = i / inner_stride;
        let column = i % inner_stride;
        vstd::arithmetic::div_mod::lemma_fundamental_div_mod(i, inner_stride);
        assert(0 <= column < inner_stride);
        assert(0 <= row < inner_height) by (nonlinear_arith)
            requires
                i == inner_stride * row + column,
                0 <= column < inner_stride,
                0 <= i < inner_width * inner_height * 4,
                inner_stride == inner_width * 4,
                inner_width > 0,
        ;
        let j = (inner_y + row) * outer_stride + inner_x * 4 + column;
        assert(0 <= inner_x * 4 + column < outer_stride);
        vstd::arithmetic::div_mod::lemma_fundamental_div_mod_converse(j, outer_stride, inner_y + row, inner_x * 4 + column);
        assert(0 <= j < outer_width * outer_height * 4) by (nonlinear_arith)
            requires
                j == (inner_y + row) * outer_stride + inner_x * 4 + column,
                0 <= inner_x * 4 + column < outer_stride,
                0 <= inner_y + row < outer_height,
                outer_stride == outer_width * 4,
        ;
        assert(twice[i] == outer[j]);
        assert(outer[j] == source[(outer_y + (inner_y + row)) * stride + outer_x * 4 + (inner_x * 4 + column)]);
        assert((outer_y + (inner_y + row)) * stride + outer_x * 4 + (inner_x * 4 + column) == (outer_y + inner_y
            + row) * stride + (outer_x + inner_x) * 4 + column);
    }
    assert(twice =~= direct);
}

/// Crops compose: cropping a frame to `outer` and the result to `inner`
/// takes the pixels that cropping the frame to `inner` takes, when `outer`
/// lies in the frame and `inner` in `outer`.
pub proof fn lemma_crops_compose(frame: &Frame, outer: PhysicalRect, inner: PhysicalRect)
    requires
        outer.wf(),
        inner.wf(),
        frame.bounds_spec().contains_spec(outer),
        outer.contains_spec(inner),
    ensures
        frame.bounds_spec().contains_spec(inner),
        crop_bytes(
            crop_bytes(
                frame.pixels(),
                frame.width_spec() * 4,
                outer.x_spec() - frame.origin_spec().x_spec(),
                outer.y_spec() - frame.origin_spec().y_spec(),
                outer.width_spec() as int,
                outer.height_spec() as int,
            ),
            outer.width_spec() * 4,
            inner.x_spec() - outer.x_spec(),
            inner.y_spec() - outer.y_spec(),
            inner.width_spec() as int,
            inner.height_spec() as int,
        ) == crop_bytes(
            frame.pixels(),
            frame.width_spec() * 4,
            inner.x_spec() - frame.origin_spec().x_spec(),
            inner.y_spec() - frame.origin_spec().y_spec(),
            inner.width_spec() as int,
            inner.height_spec() as int,
        ),
{
    lemma_crop_bytes_compose(
        frame.pixels(),
        frame.width_spec() * 4,
        outer.x_spec() - frame.origin_spec().x_spec(),
        outer.y_spec() - frame.origin_spec().y_spec(),
        outer.width_spec() as int,
        outer.height_spec() as int,
        inner.x_spec() - outer.x_spec(),
        inner.y_spec() - outer.y_spec(),
        inner.width_spec() as int,
        inner.height_spec() as int,
    );
    assert(outer.x_spec() - frame.origin_spec().x_spec() + (inner.x_spec() - outer.x_spec()) == inner.x_spec()
        - frame.origin_spec().x_spec());
    assert(outer.y_spec() - frame.origin_spec().y_spec() + (inner.y_spec() - outer.y_spec()) == inner.y_spec()
        - frame.origin_spec().y_spec());
}

/// Cropping a frame to its own bounds gives the same frame back.
pub proof fn lemma_crop_to_bounds_is_identity(frame: Frame, cropped: Frame)
    requires
        frame.wf(),
        cropped_from(frame, frame.bounds_spec(), cropped),
    ensures
        same_frame(cropped, frame),
{
    lemma_frame_bounds(&frame);
    lemma_crop_whole_frame(frame.pixels(), frame.width_spec() as int, frame.height_spec() as int);
}

/// Crops compose on frames: cropping to `outer` and then to `inner` gives
/// the frame that cropping straight to `inner` gives.
pub proof fn lemma_frame_crops_compose(
    frame: Frame,
    outer: PhysicalRect,
    inner: PhysicalRect,
    first: Frame,
    twice: Frame,
    once: Frame,
)
    requires
        outer.wf(),
        inner.wf(),
        frame.bounds_spec().contains_spec(outer),
        outer.contains_spec(inner),
        cropped_from(frame, outer, first),
        cropped_from(first, inner, twice),
        cropped_from(frame, inner, once),
    ensures
        same_frame(twice, once),
{
    lemma_crops_compose(&frame, outer, inner);
}

/// A frame's own origin, size and pixels pass every check of
/// [`Frame::new`], and a frame made of them is the same frame: taking a
/// frame apart with [`Frame::into_rgba`] and building it again gives it
/// back.
pub proof fn lemma_frame_rebuilds(frame: Frame, rebuilt: Frame)
    requires
        frame.wf(),
        rebuilt.origin_spec() == frame.origin_spec(),
        rebuilt.width_spec() == frame.width_spec(),
        rebuilt.height_spec() == frame.height_spec(),
        rebuilt.pixels() == frame.pixels(),
    ensures
        geometry_valid(
            frame.origin_spec().x_spec() as int,
            frame.origin_spec().y_spec() as int,
            frame.width_spec() as int,
            frame.height_spec() as int,
        ),
        frame.pixels().len() == rgba_byte_count(frame.width_spec() as int, frame.height_spec() as int),
        same_frame(rebuilt, frame),
{
}

} // verus!
