//! Geometry and decisions of the region-selection overlay: pixel points and
//! rectangles, selection resizing, the toolbar's layout and buttons, the
//! editor's tools, and what a key press does.
use crate::annotation::Color;
use crate::config::{EditorTool, RgbColor};
use crate::frame::{
    crop_bytes, frame_error_message, geometry_valid, lemma_frame_bounds, Frame, FrameError, PhysicalPoint,
    PhysicalRect,
};
use crate::text::{ascii_lowercase, concatenated};
use vstd::prelude::*;

verus! {

/// Smallest width and height of a resized selection.
pub const MIN_SELECTION_SIZE: u32 = 3;

/// Distance within which a pointer grabs a resize handle.
pub const HANDLE_HIT_RADIUS: i32 = 9;

/// Buttons in the toolbar.
pub const TOOLBAR_BUTTONS: usize = 21;

/// Buttons in one toolbar row.
pub const TOOLBAR_COLUMNS: usize = 11;

/// Editor preferences remembered between region captures.
#[derive(Clone, Copy, Debug, PartialEq, Eq, Structural)]
pub struct EditorPreferences {
    pub tool: EditorTool,
    pub color: RgbColor,
    pub stroke_width: u8,
}

/// Result of one overlay event.
pub enum OverlayOutcome {
    /// Nothing for the application to do.
    Nothing,
    Cancel,
    /// Region selected while an automatic post-capture action is configured.
    Finish(Frame),
    Save(Frame),
    Copy(Frame),
    Print(Frame),
    Error(String),
}

/// A position in the captured frame's pixels.
#[derive(Clone, Copy, Debug, Default, PartialEq, Eq, Structural)]
pub struct PixelPoint {
    pub x: i32,
    pub y: i32,
}

/// `value` limited to `low..=high`.
pub open spec fn clamp(value: int, low: int, high: int) -> int {
    if value < low {
        low
    } else if value > high {
        high
    } else {
        value
    }
}

/// `value` as `i32`, or `i32::MAX` where it does not fit.
pub open spec fn to_i32_saturating(value: int) -> int {
    if value > i32::MAX {
        i32::MAX as int
    } else {
        value
    }
}

fn u32_to_i32_saturating(value: u32) -> (result: i32)
    ensures
        result == to_i32_saturating(value as int),
{
    if value > i32::MAX as u32 {
        i32::MAX
    } else {
        value as i32
    }
}

fn clamp_i32(value: i32, low: i32, high: i32) -> (result: i32)
    requires
        low <= high,
    ensures
        result == clamp(value as int, low as int, high as int),
{
    if value < low {
        low
    } else if value > high {
        high
    } else {
        value
    }
}

impl PixelPoint {
    /// Clamps to real pixel coordinates, for annotation and toolbar input.
    pub fn clamp_to_pixels(self, frame: &Frame) -> (clamped: Self)
        ensures
            clamped.x == clamp(
                self.x as int,
                0,
                to_i32_saturating(if frame.width_spec() > 0 {
                    frame.width_spec() - 1
                } else {
                    0
                }),
            ),
            clamped.y == clamp(
                self.y as int,
                0,
                to_i32_saturating(if frame.height_spec() > 0 {
                    frame.height_spec() - 1
                } else {
                    0
                }),
            ),
    {
        let width = frame.width();
        let height = frame.height();
        let max_x = u32_to_i32_saturating(if width > 0 {
            width - 1
        } else {
            0
        });
        let max_y = u32_to_i32_saturating(if height > 0 {
            height - 1
        } else {
            0
        });
        PixelPoint { x: clamp_i32(self.x, 0, max_x), y: clamp_i32(self.y, 0, max_y) }
    }

    /// Clamps to the frame's edges, for selection geometry: the right and
    /// bottom edges may equal the frame's size, so that a drag to the window
    /// border includes the last column or row.
    pub fn clamp_to_edges(self, frame: &Frame) -> (clamped: Self)
        ensures
            clamped.x == clamp(self.x as int, 0, to_i32_saturating(frame.width_spec() as int)),
            clamped.y == clamp(self.y as int, 0, to_i32_saturating(frame.height_spec() as int)),
    {
        let max_x = u32_to_i32_saturating(frame.width());
        let max_y = u32_to_i32_saturating(frame.height());
        PixelPoint { x: clamp_i32(self.x, 0, max_x), y: clamp_i32(self.y, 0, max_y) }
    }
}

/// A rectangle of frame pixels.
#[derive(Clone, Copy, Debug, PartialEq, Eq, Structural)]
pub struct PixelRect {
    pub x: i32,
    pub y: i32,
    pub width: u32,
    pub height: u32,
}

/// Why the selected pixels could not be taken from the capture.
#[derive(Clone, Debug, PartialEq, Eq, Structural)]
pub enum SelectionError {
    /// The selection's left edge lies beyond the representable desktop.
    XOverflow,
    /// The selection's top edge lies beyond the representable desktop.
    YOverflow,
    /// The selection is no valid rectangle.
    InvalidRectangle(FrameError),
    /// The selection is not inside the capture.
    Crop(FrameError),
}

impl SelectionError {
    /// Human-readable description.
    pub fn message(&self) -> (message: String)
        ensures
            message@ == match *self {
                SelectionError::XOverflow => "selection x coordinate overflowed"@,
                SelectionError::YOverflow => "selection y coordinate overflowed"@,
                SelectionError::InvalidRectangle(error) => "selection rectangle is invalid: "@
                    + frame_error_message(error),
                SelectionError::Crop(error) => "could not crop the selected pixels: "@ + frame_error_message(
                    error,
                ),
            },
    {
        match self {
            SelectionError::XOverflow => "selection x coordinate overflowed".to_owned(),
            SelectionError::YOverflow => "selection y coordinate overflowed".to_owned(),
            SelectionError::InvalidRectangle(error) => concatenated(
                "selection rectangle is invalid: ",
                error.message().as_str(),
            ),
            SelectionError::Crop(error) => concatenated(
                "could not crop the selected pixels: ",
                error.message().as_str(),
            ),
        }
    }
}

/// The capture's pixels under `selection`, which is given in the capture's
/// own pixels, as a frame at their desktop position.
pub fn crop_selection(source: &Frame, selection: PixelRect) -> (result: Result<Frame, SelectionError>)
    ensures
        ({
            let ox = source.origin_spec().x_spec() as int;
            let oy = source.origin_spec().y_spec() as int;
            let x = ox + selection.x;
            let y = oy + selection.y;
            let w = selection.width as int;
            let h = selection.height as int;
            let inside = x >= ox && y >= oy && x + w <= ox + source.width_spec() && y + h <= oy
                + source.height_spec();
            &&& (x < i32::MIN || x > i32::MAX) ==> result == Err::<Frame, SelectionError>(
                SelectionError::XOverflow,
            )
            &&& (i32::MIN <= x <= i32::MAX && (y < i32::MIN || y > i32::MAX)) ==> result == Err::<
                Frame,
                SelectionError,
            >(SelectionError::YOverflow)
            &&& result is Ok <==> (i32::MIN <= x <= i32::MAX && i32::MIN <= y <= i32::MAX
                && geometry_valid(x, y, w, h) && inside)
            &&& (i32::MIN <= x <= i32::MAX && i32::MIN <= y <= i32::MAX && !geometry_valid(x, y, w, h))
                ==> (result matches Err(SelectionError::InvalidRectangle(_)))
            &&& (i32::MIN <= x <= i32::MAX && i32::MIN <= y <= i32::MAX && geometry_valid(x, y, w, h)
                && !inside) ==> (result matches Err(SelectionError::Crop(FrameError::CropOutsideFrame { .. })))
            &&& (result matches Ok(frame) ==> {
                &&& frame.origin_spec().x_spec() == x
                &&& frame.origin_spec().y_spec() == y
                &&& frame.width_spec() == selection.width
                &&& frame.height_spec() == selection.height
                &&& frame.pixels() == crop_bytes(
                    source.pixels(),
                    source.width_spec() * 4,
                    x - ox,
                    y - oy,
                    w,
                    h,
                )
            })
        }),
{
    let origin = source.origin();
    let x = origin.x() as i64 + selection.x as i64;
    if x < i32::MIN as i64 || x > i32::MAX as i64 {
        return Err(SelectionError::XOverflow);
    }
    let y = origin.y() as i64 + selection.y as i64;
    if y < i32::MIN as i64 || y > i32::MAX as i64 {
        return Err(SelectionError::YOverflow);
    }
    let rect = match PhysicalRect::new(PhysicalPoint::new(x as i32, y as i32), selection.width, selection.height) {
        Ok(rect) => rect,
        Err(error) => return Err(SelectionError::InvalidRectangle(error)),
    };
    proof {
        lemma_frame_bounds(source);
    }
    match source.crop(rect) {
        Ok(frame) => Ok(frame),
        Err(error) => Err(SelectionError::Crop(error)),
    }
}

/// The selection that a finished drag from `anchor` to `cursor` makes: the
/// spanned rectangle where it is at least [`MIN_SELECTION_SIZE`] pixels
/// each way, else none.
pub fn dragged_selection(anchor: PixelPoint, cursor: PixelPoint) -> (selection: Option<PixelRect>)
    ensures
        selection is Some <==> (magnitude_of(anchor.x - cursor.x) >= MIN_SELECTION_SIZE && magnitude_of(
            anchor.y - cursor.y,
        ) >= MIN_SELECTION_SIZE),
        selection matches Some(rect) ==> {
            &&& rect.x == if anchor.x < cursor.x {
                anchor.x
            } else {
                cursor.x
            }
            &&& rect.y == if anchor.y < cursor.y {
                anchor.y
            } else {
                cursor.y
            }
            &&& rect.width == magnitude_of(anchor.x - cursor.x)
            &&& rect.height == magnitude_of(anchor.y - cursor.y)
        },
{
    match PixelRect::between(anchor, cursor) {
        Some(selection) => {
            if selection.width < MIN_SELECTION_SIZE || selection.height < MIN_SELECTION_SIZE {
                None
            } else {
                Some(selection)
            }
        },
        None => None,
    }
}

/// `start + extent` limited to `i32`.
pub open spec fn saturating_edge(start: int, extent: int) -> int {
    if start + extent > i32::MAX {
        i32::MAX as int
    } else {
        start + extent
    }
}

impl PixelRect {
    pub open spec fn right_spec(self) -> int {
        saturating_edge(self.x as int, to_i32_saturating(self.width as int))
    }

    pub open spec fn bottom_spec(self) -> int {
        saturating_edge(self.y as int, to_i32_saturating(self.height as int))
    }

    pub open spec fn contains_spec(self, point: PixelPoint) -> bool {
        point.x >= self.x && point.y >= self.y && point.x < self.right_spec() && point.y
            < self.bottom_spec()
    }

    /// The rectangle spanned by two corners, whichever way the drag went;
    /// `None` where it has no area.
    pub fn between(first: PixelPoint, second: PixelPoint) -> (rect: Option<Self>)
        ensures
            match rect {
                Some(rect) => {
                    &&& first.x != second.x && first.y != second.y
                    &&& rect.x == if first.x < second.x {
                        first.x
                    } else {
                        second.x
                    }
                    &&& rect.y == if first.y < second.y {
                        first.y
                    } else {
                        second.y
                    }
                    &&& rect.width == magnitude_of(first.x - second.x)
                    &&& rect.height == magnitude_of(first.y - second.y)
                },
                None => first.x == second.x || first.y == second.y,
            },
    {
        let x = if first.x < second.x {
            first.x
        } else {
            second.x
        };
        let y = if first.y < second.y {
            first.y
        } else {
            second.y
        };
        let width = difference(first.x, second.x);
        let height = difference(first.y, second.y);
        if width > 0 && height > 0 {
            Some(PixelRect { x, y, width, height })
        } else {
            None
        }
    }

    /// The column just right of the rectangle, limited to `i32`.
    pub fn right(self) -> (right: i32)
        ensures
            right == self.right_spec(),
    {
        let extent = u32_to_i32_saturating(self.width);
        if self.x as i64 + extent as i64 > i32::MAX as i64 {
            i32::MAX
        } else {
            self.x + extent
        }
    }

    /// The row just below the rectangle, limited to `i32`.
    pub fn bottom(self) -> (bottom: i32)
        ensures
            bottom == self.bottom_spec(),
    {
        let extent = u32_to_i32_saturating(self.height);
        if self.y as i64 + extent as i64 > i32::MAX as i64 {
            i32::MAX
        } else {
            self.y + extent
        }
    }

    pub fn contains(self, point: PixelPoint) -> (inside: bool)
        ensures
            inside == self.contains_spec(point),
    {
        point.x >= self.x && point.y >= self.y && point.x < self.right() && point.y < self.bottom()
    }
}

/// The distance between two integers.
pub open spec fn magnitude_of(value: int) -> int {
    if value < 0 {
        -value
    } else {
        value
    }
}

fn difference(first: i32, second: i32) -> (distance: u32)
    ensures
        distance == magnitude_of(first - second),
{
    if first >= second {
        (first as i64 - second as i64) as u32
    } else {
        (second as i64 - first as i64) as u32
    }
}

/// A grip for resizing or moving a rectangle.
#[derive(Clone, Copy, Debug, PartialEq, Eq, Structural)]
pub enum ResizeHandle {
    Move,
    NorthWest,
    North,
    NorthEast,
    East,
    SouthEast,
    South,
    SouthWest,
    West,
}

/// The larger of two integers.
pub open spec fn larger(first: int, second: int) -> int {
    if first < second {
        second
    } else {
        first
    }
}

/// The smaller of two integers.
pub open spec fn smaller(first: int, second: int) -> int {
    if first < second {
        first
    } else {
        second
    }
}

impl ResizeHandle {
    pub open spec fn moves_left(self) -> bool {
        self == ResizeHandle::West || self == ResizeHandle::NorthWest || self
            == ResizeHandle::SouthWest
    }

    pub open spec fn moves_right(self) -> bool {
        self == ResizeHandle::East || self == ResizeHandle::NorthEast || self
            == ResizeHandle::SouthEast
    }

    pub open spec fn moves_top(self) -> bool {
        self == ResizeHandle::North || self == ResizeHandle::NorthWest || self
            == ResizeHandle::NorthEast
    }

    pub open spec fn moves_bottom(self) -> bool {
        self == ResizeHandle::South || self == ResizeHandle::SouthWest || self
            == ResizeHandle::SouthEast
    }

    /// The edges `(left, right)` or `(top, bottom)` after dragging: an edge
    /// that the handle moves goes to the pointer, and a span shorter than the
    /// minimum grows from the edge that the handle does not move.
    pub open spec fn dragged_span(
        moves_low: bool,
        moves_high: bool,
        low: int,
        high: int,
        pointer: int,
    ) -> (int, int) {
        let low1 = if moves_low {
            pointer
        } else {
            low
        };
        let high1 = if moves_high {
            pointer
        } else {
            high
        };
        if magnitude_of(high1 - low1) < MIN_SELECTION_SIZE {
            if moves_low {
                (high1 - MIN_SELECTION_SIZE, high1)
            } else {
                (low1, low1 + MIN_SELECTION_SIZE)
            }
        } else {
            (low1, high1)
        }
    }

    /// The origin and far edge along one axis of a resized selection of a
    /// source `limit` pixels long.
    pub open spec fn resized_axis(
        moves_low: bool,
        moves_high: bool,
        low: int,
        high: int,
        pointer: int,
        limit: int,
    ) -> (int, int) {
        let span = Self::dragged_span(moves_low, moves_high, low, high, clamp(pointer, 0, limit));
        let first = clamp(smaller(span.0, span.1), 0, limit);
        let second = clamp(larger(span.0, span.1), 0, limit);
        let start = clamp(smaller(first, second), 0, limit - MIN_SELECTION_SIZE);
        let end = clamp(larger(first, second), start + MIN_SELECTION_SIZE, limit);
        (start, end)
    }

    /// The rectangle after dragging this handle from `start` to `point`,
    /// inside a source of the given size.
    pub open spec fn resized(
        self,
        original: PixelRect,
        start: PixelPoint,
        point: PixelPoint,
        source_width: u32,
        source_height: u32,
    ) -> PixelRect {
        let max_x = to_i32_saturating(source_width as int);
        let max_y = to_i32_saturating(source_height as int);
        if self == ResizeHandle::Move {
            PixelRect {
                x: clamp(
                    original.x + (point.x - start.x),
                    0,
                    max_x - to_i32_saturating(original.width as int),
                ) as i32,
                y: clamp(
                    original.y + (point.y - start.y),
                    0,
                    max_y - to_i32_saturating(original.height as int),
                ) as i32,
                ..original
            }
        } else {
            let horizontal = Self::resized_axis(
                self.moves_left(),
                self.moves_right(),
                original.x as int,
                original.right_spec(),
                point.x as int,
                max_x,
            );
            let vertical = Self::resized_axis(
                self.moves_top(),
                self.moves_bottom(),
                original.y as int,
                original.bottom_spec(),
                point.y as int,
                max_y,
            );
            PixelRect {
                x: horizontal.0 as i32,
                y: vertical.0 as i32,
                width: (horizontal.1 - horizontal.0) as u32,
                height: (vertical.1 - vertical.0) as u32,
            }
        }
    }

    /// The inputs on which resizing runs: a move needs the pointer's offset
    /// within `i32` and a selection that fits in the source; a resize needs
    /// a source of at least the minimum size.
    pub open spec fn resize_accepts(
        self,
        original: PixelRect,
        start: PixelPoint,
        point: PixelPoint,
        source_width: u32,
        source_height: u32,
    ) -> bool {
        if self == ResizeHandle::Move {
            &&& i32::MIN <= point.x - start.x <= i32::MAX
            &&& i32::MIN <= point.y - start.y <= i32::MAX
            &&& to_i32_saturating(original.width as int) <= to_i32_saturating(source_width as int)
            &&& to_i32_saturating(original.height as int) <= to_i32_saturating(source_height as int)
        } else {
            &&& MIN_SELECTION_SIZE <= source_width
            &&& MIN_SELECTION_SIZE <= source_height
        }
    }

    /// Whether [`ResizeHandle::resize_pixel_rect`] takes these inputs.
    pub fn accepts(
        self,
        original: PixelRect,
        start: PixelPoint,
        point: PixelPoint,
        source_width: u32,
        source_height: u32,
    ) -> (accepted: bool)
        ensures
            accepted == self.resize_accepts(original, start, point, source_width, source_height),
    {
        if self == ResizeHandle::Move {
            let dx = point.x as i64 - start.x as i64;
            let dy = point.y as i64 - start.y as i64;
            i32::MIN as i64 <= dx && dx <= i32::MAX as i64 && i32::MIN as i64 <= dy && dy
                <= i32::MAX as i64 && u32_to_i32_saturating(original.width) <= u32_to_i32_saturating(
                source_width,
            ) && u32_to_i32_saturating(original.height) <= u32_to_i32_saturating(source_height)
        } else {
            MIN_SELECTION_SIZE <= source_width && MIN_SELECTION_SIZE <= source_height
        }
    }

    /// The selection after dragging this handle from `start` to `point`.
    ///
    /// A move shifts the selection and keeps it inside the source; a resize
    /// moves the grabbed edges to the pointer and keeps the result inside the
    /// source and at least [`MIN_SELECTION_SIZE`] on each side.
    pub fn resize_pixel_rect(
        self,
        original: PixelRect,
        start: PixelPoint,
        point: PixelPoint,
        source_width: u32,
        source_height: u32,
    ) -> (rect: PixelRect)
        requires
            self.resize_accepts(original, start, point, source_width, source_height),
        ensures
            rect == self.resized(original, start, point, source_width, source_height),
            self == ResizeHandle::Move ==> rect.width == original.width && rect.height
                == original.height && 0 <= rect.x && 0 <= rect.y && (original.width <= source_width
                ==> rect.x + rect.width <= source_width) && (original.height <= source_height ==> rect.y
                + rect.height <= source_height),
            self != ResizeHandle::Move ==> 0 <= rect.x && rect.x + rect.width <= source_width
                && MIN_SELECTION_SIZE <= rect.width && 0 <= rect.y && rect.y + rect.height
                <= source_height && MIN_SELECTION_SIZE <= rect.height,
    {
        let max_x = u32_to_i32_saturating(source_width);
        let max_y = u32_to_i32_saturating(source_height);
        if self == ResizeHandle::Move {
            let width = u32_to_i32_saturating(original.width);
            let height = u32_to_i32_saturating(original.height);
            let dx = point.x - start.x;
            let dy = point.y - start.y;
            let x = clamp_i64(original.x as i64 + dx as i64, 0, (max_x - width) as i64) as i32;
            let y = clamp_i64(original.y as i64 + dy as i64, 0, (max_y - height) as i64) as i32;
            return PixelRect { x, y, ..original };
        }
        let horizontal = resized_axis(
            self == ResizeHandle::West || self == ResizeHandle::NorthWest || self
                == ResizeHandle::SouthWest,
            self == ResizeHandle::East || self == ResizeHandle::NorthEast || self
                == ResizeHandle::SouthEast,
            original.x as i64,
            original.right() as i64,
            point.x as i64,
            max_x as i64,
        );
        let vertical = resized_axis(
            self == ResizeHandle::North || self == ResizeHandle::NorthWest || self
                == ResizeHandle::NorthEast,
            self == ResizeHandle::South || self == ResizeHandle::SouthWest || self
                == ResizeHandle::SouthEast,
            original.y as i64,
            original.bottom() as i64,
            point.y as i64,
            max_y as i64,
        );
        PixelRect {
            x: horizontal.0 as i32,
            y: vertical.0 as i32,
            width: (horizontal.1 - horizontal.0) as u32,
            height: (vertical.1 - vertical.0) as u32,
        }
    }
}

fn clamp_i64(value: i64, low: i64, high: i64) -> (result: i64)
    requires
        low <= high,
    ensures
        result == clamp(value as int, low as int, high as int),
{
    if value < low {
        low
    } else if value > high {
        high
    } else {
        value
    }
}

/// One axis of a resize, in machine integers.
fn resized_axis(
    moves_low: bool,
    moves_high: bool,
    low: i64,
    high: i64,
    pointer: i64,
    limit: i64,
) -> (span: (i64, i64))
    requires
        MIN_SELECTION_SIZE <= limit <= i32::MAX,
        i32::MIN <= low <= high <= i32::MAX,
        i32::MIN <= pointer <= i32::MAX,
    ensures
        span.0 == ResizeHandle::resized_axis(moves_low, moves_high, low as int, high as int, pointer as int, limit as int).0,
        span.1 == ResizeHandle::resized_axis(moves_low, moves_high, low as int, high as int, pointer as int, limit as int).1,
        0 <= span.0,
        span.0 + MIN_SELECTION_SIZE <= span.1 <= limit,
{
    let minimum = MIN_SELECTION_SIZE as i64;
    let pointer = clamp_i64(pointer, 0, limit);
    let mut first = if moves_low {
        pointer
    } else {
        low
    };
    let mut second = if moves_high {
        pointer
    } else {
        high
    };
    let extent = if second >= first {
        second - first
    } else {
        first - second
    };
    if extent < minimum {
        if moves_low {
            first = second - minimum;
        } else {
            second = first + minimum;
        }
    }
    let smallest = if first < second {
        first
    } else {
        second
    };
    let largest = if first < second {
        second
    } else {
        first
    };
    let near = clamp_i64(smallest, 0, limit);
    let far = clamp_i64(largest, 0, limit);
    let start = clamp_i64(if near < far {
        near
    } else {
        far
    }, 0, limit - minimum);
    let end = clamp_i64(if near < far {
        far
    } else {
        near
    }, start + minimum, limit);
    (start, end)
}

/// The resize handle that `point` grabs on a selection, if any: the first,
/// in the order north-west, north, north-east, east, south-east, south,
/// south-west, west, whose center lies within [`HANDLE_HIT_RADIUS`] of the
/// point. Centers sit on the corners and the midpoints of the edges.
pub open spec fn handle_at(selection: PixelRect, point: PixelPoint) -> Option<ResizeHandle> {
    let left2 = 2 * selection.x;
    let top2 = 2 * selection.y;
    let right2 = 2 * selection.right_spec();
    let bottom2 = 2 * selection.bottom_spec();
    let center_x2 = selection.x + selection.right_spec();
    let center_y2 = selection.y + selection.bottom_spec();
    let px = 2 * point.x;
    let py = 2 * point.y;
    if grabs(left2, top2, px, py) {
        Some(ResizeHandle::NorthWest)
    } else if grabs(center_x2, top2, px, py) {
        Some(ResizeHandle::North)
    } else if grabs(right2, top2, px, py) {
        Some(ResizeHandle::NorthEast)
    } else if grabs(right2, center_y2, px, py) {
        Some(ResizeHandle::East)
    } else if grabs(right2, bottom2, px, py) {
        Some(ResizeHandle::SouthEast)
    } else if grabs(center_x2, bottom2, px, py) {
        Some(ResizeHandle::South)
    } else if grabs(left2, bottom2, px, py) {
        Some(ResizeHandle::SouthWest)
    } else if grabs(left2, center_y2, px, py) {
        Some(ResizeHandle::West)
    } else {
        None
    }
}

/// A handle centered at the doubled coordinates `(center_x2, center_y2)`
/// grabs a pointer at the doubled coordinates `(px, py)`.
pub open spec fn grabs(center_x2: int, center_y2: int, px: int, py: int) -> bool {
    (center_x2 - px) * (center_x2 - px) + (center_y2 - py) * (center_y2 - py) <= 4
        * HANDLE_HIT_RADIUS * HANDLE_HIT_RADIUS
}

fn grabs_exec(center_x2: i64, center_y2: i64, px: i64, py: i64) -> (hit: bool)
    requires
        -0x1_0000_0000 <= center_x2 <= 0x1_0000_0000,
        -0x1_0000_0000 <= center_y2 <= 0x1_0000_0000,
        -0x1_0000_0000 <= px <= 0x1_0000_0000,
        -0x1_0000_0000 <= py <= 0x1_0000_0000,
    ensures
        hit == grabs(center_x2 as int, center_y2 as int, px as int, py as int),
{
    let dx = center_x2 - px;
    let dy = center_y2 - py;
    if dx > 324 || dx < -324 || dy > 324 || dy < -324 {
        proof {
            assert(dx * dx + dy * dy > 324) by (nonlinear_arith)
                requires
                    dx > 324 || dx < -324 || dy > 324 || dy < -324,
            ;
        }
        return false;
    }
    proof {
        assert(0 <= dx * dx <= 324 * 324 && 0 <= dy * dy <= 324 * 324) by (nonlinear_arith)
            requires
                -324 <= dx <= 324,
                -324 <= dy <= 324,
        ;
    }
    dx * dx + dy * dy <= 324
}

/// The resize handle that a pointer grabs on a selection.
pub fn selection_resize_handle(selection: PixelRect, point: PixelPoint) -> (handle: Option<ResizeHandle>)
    ensures
        handle == handle_at(selection, point),
{
    let left2 = 2 * selection.x as i64;
    let top2 = 2 * selection.y as i64;
    let right2 = 2 * selection.right() as i64;
    let bottom2 = 2 * selection.bottom() as i64;
    let center_x2 = selection.x as i64 + selection.right() as i64;
    let center_y2 = selection.y as i64 + selection.bottom() as i64;
    let px = 2 * point.x as i64;
    let py = 2 * point.y as i64;
    if grabs_exec(left2, top2, px, py) {
        Some(ResizeHandle::NorthWest)
    } else if grabs_exec(center_x2, top2, px, py) {
        Some(ResizeHandle::North)
    } else if grabs_exec(right2, top2, px, py) {
        Some(ResizeHandle::NorthEast)
    } else if grabs_exec(right2, center_y2, px, py) {
        Some(ResizeHandle::East)
    } else if grabs_exec(right2, bottom2, px, py) {
        Some(ResizeHandle::SouthEast)
    } else if grabs_exec(center_x2, bottom2, px, py) {
        Some(ResizeHandle::South)
    } else if grabs_exec(left2, bottom2, px, py) {
        Some(ResizeHandle::SouthWest)
    } else if grabs_exec(left2, center_y2, px, py) {
        Some(ResizeHandle::West)
    } else {
        None
    }
}

/// An annotation tool of the region editor.
#[derive(Clone, Copy, Debug, PartialEq, Eq, Structural)]
pub enum Tool {
    Select,
    Pen,
    Highlighter,
    Line,
    Arrow,
    Rectangle,
    Ellipse,
    Text,
    Callout,
    Redact,
    Pixelate,
    Eraser,
    Crop,
    Eyedropper,
}

/// Number of tools.
pub const TOOL_COUNT: usize = 14;

impl Tool {
    /// The tool's position in the editor's tool order.
    pub open spec fn index_spec(self) -> int {
        match self {
            Tool::Select => 0,
            Tool::Pen => 1,
            Tool::Highlighter => 2,
            Tool::Line => 3,
            Tool::Arrow => 4,
            Tool::Rectangle => 5,
            Tool::Ellipse => 6,
            Tool::Text => 7,
            Tool::Callout => 8,
            Tool::Redact => 9,
            Tool::Pixelate => 10,
            Tool::Eraser => 11,
            Tool::Crop => 12,
            Tool::Eyedropper => 13,
        }
    }

    /// The tool at a position of the editor's tool order.
    pub fn from_index(index: usize) -> (tool: Option<Tool>)
        ensures
            match tool {
                Some(tool) => index < TOOL_COUNT && tool.index_spec() == index,
                None => index >= TOOL_COUNT,
            },
    {
        match index {
            0 => Some(Tool::Select),
            1 => Some(Tool::Pen),
            2 => Some(Tool::Highlighter),
            3 => Some(Tool::Line),
            4 => Some(Tool::Arrow),
            5 => Some(Tool::Rectangle),
            6 => Some(Tool::Ellipse),
            7 => Some(Tool::Text),
            8 => Some(Tool::Callout),
            9 => Some(Tool::Redact),
            10 => Some(Tool::Pixelate),
            11 => Some(Tool::Eraser),
            12 => Some(Tool::Crop),
            13 => Some(Tool::Eyedropper),
            _ => None,
        }
    }

    /// The letter that selects the tool.
    pub open spec fn shortcut_char(self) -> char {
        match self {
            Tool::Select => 'v',
            Tool::Pen => 'p',
            Tool::Highlighter => 'h',
            Tool::Line => 'l',
            Tool::Arrow => 'a',
            Tool::Rectangle => 'r',
            Tool::Ellipse => 'e',
            Tool::Text => 't',
            Tool::Callout => 'q',
            Tool::Redact => 'b',
            Tool::Pixelate => 'm',
            Tool::Eraser => 'd',
            Tool::Crop => 'g',
            Tool::Eyedropper => 'i',
        }
    }

    /// The key that selects the tool.
    pub fn shortcut(self) -> (key: &'static str)
        ensures
            key@ == seq![self.shortcut_char()],
    {
        match self {
            Tool::Select => {
                proof {
                    reveal_strlit("v");
                }
                "v"
            },
            Tool::Pen => {
                proof {
                    reveal_strlit("p");
                }
                "p"
            },
            Tool::Highlighter => {
                proof {
                    reveal_strlit("h");
                }
                "h"
            },
            Tool::Line => {
                proof {
                    reveal_strlit("l");
                }
                "l"
            },
            Tool::Arrow => {
                proof {
                    reveal_strlit("a");
                }
                "a"
            },
            Tool::Rectangle => {
                proof {
                    reveal_strlit("r");
                }
                "r"
            },
            Tool::Ellipse => {
                proof {
                    reveal_strlit("e");
                }
                "e"
            },
            Tool::Text => {
                proof {
                    reveal_strlit("t");
                }
                "t"
            },
            Tool::Callout => {
                proof {
                    reveal_strlit("q");
                }
                "q"
            },
            Tool::Redact => {
                proof {
                    reveal_strlit("b");
                }
                "b"
            },
            Tool::Pixelate => {
                proof {
                    reveal_strlit("m");
                }
                "m"
            },
            Tool::Eraser => {
                proof {
                    reveal_strlit("d");
                }
                "d"
            },
            Tool::Crop => {
                proof {
                    reveal_strlit("g");
                }
                "g"
            },
            Tool::Eyedropper => {
                proof {
                    reveal_strlit("i");
                }
                "i"
            },
        }
    }

    pub open spec fn from_preference_spec(tool: EditorTool) -> Tool {
        match tool {
            EditorTool::Select => Tool::Select,
            EditorTool::Pen => Tool::Pen,
            EditorTool::Highlighter => Tool::Highlighter,
            EditorTool::Line => Tool::Line,
            EditorTool::Arrow => Tool::Arrow,
            EditorTool::Rectangle => Tool::Rectangle,
            EditorTool::Ellipse => Tool::Ellipse,
            EditorTool::Text => Tool::Text,
            EditorTool::Callout => Tool::Callout,
            EditorTool::Redact => Tool::Redact,
            EditorTool::Pixelate => Tool::Pixelate,
            EditorTool::Eraser => Tool::Eraser,
            EditorTool::Crop => Tool::Crop,
            EditorTool::Eyedropper => Tool::Eyedropper,
        }
    }

    pub open spec fn preference_spec(self) -> EditorTool {
        match self {
            Tool::Select => EditorTool::Select,
            Tool::Pen => EditorTool::Pen,
            Tool::Highlighter => EditorTool::Highlighter,
            Tool::Line => EditorTool::Line,
            Tool::Arrow => EditorTool::Arrow,
            Tool::Rectangle => EditorTool::Rectangle,
            Tool::Ellipse => EditorTool::Ellipse,
            Tool::Text => EditorTool::Text,
            Tool::Callout => EditorTool::Callout,
            Tool::Redact => EditorTool::Redact,
            Tool::Pixelate => EditorTool::Pixelate,
            Tool::Eraser => EditorTool::Eraser,
            Tool::Crop => EditorTool::Crop,
            Tool::Eyedropper => EditorTool::Eyedropper,
        }
    }

    /// The tool that a remembered preference names.
    pub fn from_preference(tool: EditorTool) -> (result: Tool)
        ensures
            result == Tool::from_preference_spec(tool),
    {
        match tool {
            EditorTool::Select => Tool::Select,
            EditorTool::Pen => Tool::Pen,
            EditorTool::Highlighter => Tool::Highlighter,
            EditorTool::Line => Tool::Line,
            EditorTool::Arrow => Tool::Arrow,
            EditorTool::Rectangle => Tool::Rectangle,
            EditorTool::Ellipse => Tool::Ellipse,
            EditorTool::Text => Tool::Text,
            EditorTool::Callout => Tool::Callout,
            EditorTool::Redact => Tool::Redact,
            EditorTool::Pixelate => Tool::Pixelate,
            EditorTool::Eraser => Tool::Eraser,
            EditorTool::Crop => Tool::Crop,
            EditorTool::Eyedropper => Tool::Eyedropper,
        }
    }

    /// The preference that remembers the tool.
    pub fn preference(self) -> (result: EditorTool)
        ensures
            result == self.preference_spec(),
    {
        match self {
            Tool::Select => EditorTool::Select,
            Tool::Pen => EditorTool::Pen,
            Tool::Highlighter => EditorTool::Highlighter,
            Tool::Line => EditorTool::Line,
            Tool::Arrow => EditorTool::Arrow,
            Tool::Rectangle => EditorTool::Rectangle,
            Tool::Ellipse => EditorTool::Ellipse,
            Tool::Text => EditorTool::Text,
            Tool::Callout => EditorTool::Callout,
            Tool::Redact => EditorTool::Redact,
            Tool::Pixelate => EditorTool::Pixelate,
            Tool::Eraser => EditorTool::Eraser,
            Tool::Crop => EditorTool::Crop,
            Tool::Eyedropper => EditorTool::Eyedropper,
        }
    }
}

/// Remembering a tool as a preference and restoring it gives the same tool,
/// and every preference names the tool that is remembered as it.
pub proof fn lemma_tool_preference_round_trip(tool: Tool, preference: EditorTool)
    ensures
        Tool::from_preference_spec(tool.preference_spec()) == tool,
        Tool::from_preference_spec(preference).preference_spec() == preference,
{
}

/// Distinct tools have distinct shortcut letters.
pub proof fn lemma_tool_shortcuts_distinct(first: Tool, second: Tool)
    requires
        first != second,
    ensures
        first.shortcut_char() != second.shortcut_char(),
{
}

/// A button of the editor's toolbar.
#[derive(Clone, Copy, Debug, PartialEq, Eq, Structural)]
pub enum ToolbarButton {
    Select,
    Pen,
    Highlighter,
    Line,
    Arrow,
    Rectangle,
    Ellipse,
    Text,
    Callout,
    Redact,
    Pixelate,
    Eraser,
    Crop,
    Eyedropper,
    Undo,
    Redo,
    Color,
    Width,
    Save,
    Copy,
    Print,
}

impl ToolbarButton {
    /// The button's position in the toolbar, row after row.
    pub open spec fn index_spec(self) -> int {
        match self {
            ToolbarButton::Select => 0,
            ToolbarButton::Pen => 1,
            ToolbarButton::Highlighter => 2,
            ToolbarButton::Line => 3,
            ToolbarButton::Arrow => 4,
            ToolbarButton::Rectangle => 5,
            ToolbarButton::Ellipse => 6,
            ToolbarButton::Text => 7,
            ToolbarButton::Callout => 8,
            ToolbarButton::Redact => 9,
            ToolbarButton::Pixelate => 10,
            ToolbarButton::Eraser => 11,
            ToolbarButton::Crop => 12,
            ToolbarButton::Eyedropper => 13,
            ToolbarButton::Undo => 14,
            ToolbarButton::Redo => 15,
            ToolbarButton::Color => 16,
            ToolbarButton::Width => 17,
            ToolbarButton::Save => 18,
            ToolbarButton::Copy => 19,
            ToolbarButton::Print => 20,
        }
    }

    /// The button at a position of the toolbar.
    pub fn from_index(index: usize) -> (button: Option<ToolbarButton>)
        ensures
            match button {
                Some(button) => index < TOOLBAR_BUTTONS && button.index_spec() == index,
                None => index >= TOOLBAR_BUTTONS,
            },
    {
        match index {
            0 => Some(ToolbarButton::Select),
            1 => Some(ToolbarButton::Pen),
            2 => Some(ToolbarButton::Highlighter),
            3 => Some(ToolbarButton::Line),
            4 => Some(ToolbarButton::Arrow),
            5 => Some(ToolbarButton::Rectangle),
            6 => Some(ToolbarButton::Ellipse),
            7 => Some(ToolbarButton::Text),
            8 => Some(ToolbarButton::Callout),
            9 => Some(ToolbarButton::Redact),
            10 => Some(ToolbarButton::Pixelate),
            11 => Some(ToolbarButton::Eraser),
            12 => Some(ToolbarButton::Crop),
            13 => Some(ToolbarButton::Eyedropper),
            14 => Some(ToolbarButton::Undo),
            15 => Some(ToolbarButton::Redo),
            16 => Some(ToolbarButton::Color),
            17 => Some(ToolbarButton::Width),
            18 => Some(ToolbarButton::Save),
            19 => Some(ToolbarButton::Copy),
            20 => Some(ToolbarButton::Print),
            _ => None,
        }
    }

    pub open spec fn tool_spec(self) -> Option<Tool> {
        match self {
            ToolbarButton::Select => Some(Tool::Select),
            ToolbarButton::Pen => Some(Tool::Pen),
            ToolbarButton::Highlighter => Some(Tool::Highlighter),
            ToolbarButton::Line => Some(Tool::Line),
            ToolbarButton::Arrow => Some(Tool::Arrow),
            ToolbarButton::Rectangle => Some(Tool::Rectangle),
            ToolbarButton::Ellipse => Some(Tool::Ellipse),
            ToolbarButton::Text => Some(Tool::Text),
            ToolbarButton::Callout => Some(Tool::Callout),
            ToolbarButton::Redact => Some(Tool::Redact),
            ToolbarButton::Pixelate => Some(Tool::Pixelate),
            ToolbarButton::Eraser => Some(Tool::Eraser),
            ToolbarButton::Crop => Some(Tool::Crop),
            ToolbarButton::Eyedropper => Some(Tool::Eyedropper),
            _ => None,
        }
    }

    /// The tool that the button selects, if it selects one.
    pub fn tool(self) -> (tool: Option<Tool>)
        ensures
            tool == self.tool_spec(),
    {
        match self {
            ToolbarButton::Select => Some(Tool::Select),
            ToolbarButton::Pen => Some(Tool::Pen),
            ToolbarButton::Highlighter => Some(Tool::Highlighter),
            ToolbarButton::Line => Some(Tool::Line),
            ToolbarButton::Arrow => Some(Tool::Arrow),
            ToolbarButton::Rectangle => Some(Tool::Rectangle),
            ToolbarButton::Ellipse => Some(Tool::Ellipse),
            ToolbarButton::Text => Some(Tool::Text),
            ToolbarButton::Callout => Some(Tool::Callout),
            ToolbarButton::Redact => Some(Tool::Redact),
            ToolbarButton::Pixelate => Some(Tool::Pixelate),
            ToolbarButton::Eraser => Some(Tool::Eraser),
            ToolbarButton::Crop => Some(Tool::Crop),
            ToolbarButton::Eyedropper => Some(Tool::Eyedropper),
            _ => None,
        }
    }

    pub open spec fn tooltip_spec(self) -> Seq<char> {
        match self {
            ToolbarButton::Select => "Select/move/resize (V)"@,
            ToolbarButton::Pen => "Pen (P)"@,
            ToolbarButton::Highlighter => "Highlighter (H)"@,
            ToolbarButton::Line => "Line (L)"@,
            ToolbarButton::Arrow => "Arrow (A)"@,
            ToolbarButton::Rectangle => "Rectangle (R)"@,
            ToolbarButton::Ellipse => "Ellipse (E)"@,
            ToolbarButton::Text => "Text box (T)"@,
            ToolbarButton::Callout => "Callout (Q)"@,
            ToolbarButton::Redact => "Secure redact (B)"@,
            ToolbarButton::Pixelate => "Pixelate (M)"@,
            ToolbarButton::Eraser => "Delete object (D)"@,
            ToolbarButton::Crop => "Crop/resize selection (G)"@,
            ToolbarButton::Eyedropper => "Eyedropper (I)"@,
            ToolbarButton::Undo => "Undo (Ctrl+Z)"@,
            ToolbarButton::Redo => "Redo (Ctrl+Y)"@,
            ToolbarButton::Color => "Color: click cycles, right-click custom (K)"@,
            ToolbarButton::Width => "Stroke width / text size"@,
            ToolbarButton::Save => "Save As (S)"@,
            ToolbarButton::Copy => "Copy (C or Enter)"@,
            ToolbarButton::Print => "Print (O)"@,
        }
    }

    /// The text shown when the pointer rests on the button.
    pub fn tooltip(self) -> (text: &'static str)
        ensures
            text@ == self.tooltip_spec(),
    {
        match self {
            ToolbarButton::Select => "Select/move/resize (V)",
            ToolbarButton::Pen => "Pen (P)",
            ToolbarButton::Highlighter => "Highlighter (H)",
            ToolbarButton::Line => "Line (L)",
            ToolbarButton::Arrow => "Arrow (A)",
            ToolbarButton::Rectangle => "Rectangle (R)",
            ToolbarButton::Ellipse => "Ellipse (E)",
            ToolbarButton::Text => "Text box (T)",
            ToolbarButton::Callout => "Callout (Q)",
            ToolbarButton::Redact => "Secure redact (B)",
            ToolbarButton::Pixelate => "Pixelate (M)",
            ToolbarButton::Eraser => "Delete object (D)",
            ToolbarButton::Crop => "Crop/resize selection (G)",
            ToolbarButton::Eyedropper => "Eyedropper (I)",
            ToolbarButton::Undo => "Undo (Ctrl+Z)",
            ToolbarButton::Redo => "Redo (Ctrl+Y)",
            ToolbarButton::Color => "Color: click cycles, right-click custom (K)",
            ToolbarButton::Width => "Stroke width / text size",
            ToolbarButton::Save => "Save As (S)",
            ToolbarButton::Copy => "Copy (C or Enter)",
            ToolbarButton::Print => "Print (O)",
        }
    }
}

/// Scaled sizes of the toolbar's parts, in physical pixels.
#[derive(Clone, Copy, Debug, PartialEq, Eq, Structural)]
pub struct ToolbarSizes {
    pub padding: i32,
    pub gap: i32,
    pub default_button_size: i32,
    pub minimum_button_size: i32,
}

/// Largest scaled toolbar size: the base sizes at the largest display
/// scale.
pub open spec fn largest_ui_size() -> int {
    304
}

/// Where the toolbar sits and how large its buttons are.
#[derive(Clone, Copy, Debug, PartialEq, Eq, Structural)]
pub struct ToolbarLayout {
    pub x: i32,
    pub y: i32,
    pub button_size: i32,
    pub columns: i32,
    pub rows: i32,
}

/// The toolbar's placement next to a selection: as many buttons per row as
/// the toolbar has columns, buttons of the default size where they fit the
/// screen's width (else of the largest size that fits), left-aligned with
/// the selection but kept on screen, and below the selection where there is
/// room, else above it, else at the bottom of the screen.
pub open spec fn toolbar_layout(
    selection: PixelRect,
    source_width: u32,
    source_height: u32,
    sizes: ToolbarSizes,
) -> ToolbarLayout {
    let screen_width = to_i32_saturating(source_width as int);
    let screen_height = to_i32_saturating(source_height as int);
    let columns = TOOLBAR_COLUMNS as int;
    let rows = (TOOLBAR_BUTTONS as int + TOOLBAR_COLUMNS as int - 1) / TOOLBAR_COLUMNS as int;
    let available = larger(screen_width - sizes.padding * 2, 1);
    let fitting = larger(available / columns, 1);
    let button_size = if fitting >= sizes.minimum_button_size {
        smaller(sizes.default_button_size as int, fitting)
    } else {
        fitting
    };
    let toolbar_width = button_size * columns;
    let toolbar_height = button_size * rows;
    let maximum_x = larger(screen_width - toolbar_width - sizes.padding, 0);
    let minimum_x = smaller(sizes.padding as int, maximum_x);
    let x = clamp(selection.x as int, minimum_x, maximum_x);
    let below = selection.bottom_spec() + sizes.gap;
    let above = selection.y - sizes.gap - toolbar_height;
    let y = if below + toolbar_height + sizes.padding <= screen_height {
        below
    } else if above >= sizes.padding {
        above
    } else {
        larger(screen_height - toolbar_height - sizes.padding, 0)
    };
    ToolbarLayout {
        x: x as i32,
        y: y as i32,
        button_size: button_size as i32,
        columns: columns as i32,
        rows: rows as i32,
    }
}

/// The button under a point, if any.
pub open spec fn button_at_spec(layout: ToolbarLayout, point: PixelPoint) -> Option<ToolbarButton> {
    let width = layout.button_size * layout.columns;
    let height = layout.button_size * layout.rows;
    if point.x < layout.x || point.y < layout.y || point.x >= layout.x + width || point.y
        >= layout.y + height {
        None
    } else {
        let column = (point.x - layout.x) / layout.button_size as int;
        let row = (point.y - layout.y) / layout.button_size as int;
        let index = row * layout.columns + column;
        if 0 <= index < TOOLBAR_BUTTONS {
            Some(button_with_index(index))
        } else {
            None
        }
    }
}

/// The button at a position of the toolbar.
pub open spec fn button_with_index(index: int) -> ToolbarButton {
    choose|button: ToolbarButton| button.index_spec() == index
}

impl ToolbarLayout {
    /// Places the toolbar for a selection on a screen of the source's size.
    pub fn for_selection(
        selection: PixelRect,
        source_width: u32,
        source_height: u32,
        sizes: ToolbarSizes,
    ) -> (layout: Self)
        requires
            1 <= sizes.padding <= largest_ui_size(),
            1 <= sizes.gap <= largest_ui_size(),
            1 <= sizes.default_button_size <= largest_ui_size(),
            1 <= sizes.minimum_button_size <= largest_ui_size(),
            i32::MIN + 0x1000 <= selection.y,
            selection.bottom_spec() <= i32::MAX - 0x1000,
        ensures
            layout == toolbar_layout(selection, source_width, source_height, sizes),
    {
        let screen_width = u32_to_i32_saturating(source_width);
        let screen_height = u32_to_i32_saturating(source_height);
        let columns = TOOLBAR_COLUMNS as i32;
        let rows = ((TOOLBAR_BUTTONS + TOOLBAR_COLUMNS - 1) / TOOLBAR_COLUMNS) as i32;
        let spare = screen_width - sizes.padding * 2;
        let available = if spare > 1 {
            spare
        } else {
            1
        };
        let per_column = available / columns;
        let fitting = if per_column > 1 {
            per_column
        } else {
            1
        };
        let button_size = if fitting >= sizes.minimum_button_size {
            if sizes.default_button_size < fitting {
                sizes.default_button_size
            } else {
                fitting
            }
        } else {
            fitting
        };
        assert(button_size <= largest_ui_size());
        let toolbar_width = button_size * columns;
        let toolbar_height = button_size * rows;
        let room = screen_width - toolbar_width - sizes.padding;
        let maximum_x = if room > 0 {
            room
        } else {
            0
        };
        let minimum_x = if sizes.padding < maximum_x {
            sizes.padding
        } else {
            maximum_x
        };
        let x = clamp_i32(selection.x, minimum_x, maximum_x);
        let below = selection.bottom() + sizes.gap;
        let above = selection.y - sizes.gap - toolbar_height;
        let y = if below as i64 + toolbar_height as i64 + sizes.padding as i64 <= screen_height as i64 {
            below
        } else if above >= sizes.padding {
            above
        } else {
            let low = screen_height - toolbar_height - sizes.padding;
            if low > 0 {
                low
            } else {
                0
            }
        };
        ToolbarLayout { x, y, button_size, columns, rows }
    }

    /// The button under `point`, if any.
    pub fn button_at(self, point: PixelPoint) -> (button: Option<ToolbarButton>)
        requires
            1 <= self.button_size,
            1 <= self.columns,
            1 <= self.rows,
            i32::MIN <= self.x + self.button_size * self.columns <= i32::MAX,
            i32::MIN <= self.y + self.button_size * self.rows <= i32::MAX,
        ensures
            button == button_at_spec(self, point),
    {
        let width = self.button_size as i64 * self.columns as i64;
        let height = self.button_size as i64 * self.rows as i64;
        let x = self.x as i64;
        let y = self.y as i64;
        let px = point.x as i64;
        let py = point.y as i64;
        if px < x || py < y || px >= x + width || py >= y + height {
            return None;
        }
        let column = (px - x) / self.button_size as i64;
        let row = (py - y) / self.button_size as i64;
        proof {
            assert(0 <= row < self.rows) by (nonlinear_arith)
                requires
                    row == (py - y) / self.button_size as int,
                    0 <= py - y < self.button_size * self.rows,
                    self.button_size >= 1,
            ;
            assert(0 <= column < self.columns) by (nonlinear_arith)
                requires
                    column == (px - x) / self.button_size as int,
                    0 <= px - x < self.button_size * self.columns,
                    self.button_size >= 1,
            ;
            assert(row * self.columns + column < self.rows * self.columns) by (nonlinear_arith)
                requires
                    0 <= row < self.rows,
                    0 <= column < self.columns,
            ;
            assert(0 <= row * self.columns + column <= 0x8000_0000 * 0x8000_0000) by (nonlinear_arith)
                requires
                    0 <= row < self.rows,
                    0 <= column < self.columns,
                    self.rows <= 0x8000_0000,
                    self.columns <= 0x8000_0000,
            ;
        }
        let index = row * self.columns as i64 + column;
        if index < 0 || index >= TOOLBAR_BUTTONS as i64 {
            return None;
        }
        let button = ToolbarButton::from_index(index as usize);
        proof {
            let chosen = button_with_index(index as int);
            assert(button.unwrap().index_spec() == index);
            assert(exists|b: ToolbarButton| b.index_spec() == index as int);
            assert(chosen.index_spec() == index as int);
        }
        button
    }
}

/// What a key press names, as far as the overlay cares.
#[derive(Clone, Debug, PartialEq, Eq)]
pub enum KeyInput {
    Escape,
    Enter,
    Delete,
    Backspace,
    /// A key that produces text, with that text.
    Character(String),
    /// Any other key.
    Other,
}

/// The key produces the single character `letter`, in either case.
pub open spec fn is_letter_key(key: KeyInput, letter: char) -> bool {
    key matches KeyInput::Character(text) && text@.len() == 1 && ascii_lowercase(text@[0]) == letter
}

/// The lower-case letter that a key produces, if it produces exactly one
/// character.
fn key_letter(key: &KeyInput) -> (letter: Option<char>)
    ensures
        match letter {
            Some(letter) => key matches KeyInput::Character(text) && text@.len() == 1 && letter
                == ascii_lowercase(text@[0]),
            None => !(key matches KeyInput::Character(text) && text@.len() == 1),
        },
{
    match key {
        KeyInput::Character(text) => {
            let characters = crate::text::chars_of(text.as_str());
            if characters.len() == 1 {
                let c = characters[0];
                if 'A' <= c && c <= 'Z' {
                    let lowered = ((c as u32) + 32) as u8 as char;
                    Some(lowered)
                } else {
                    Some(c)
                }
            } else {
                None
            }
        },
        _ => None,
    }
}

/// The tool whose shortcut is `letter`.
pub open spec fn tool_for_letter(letter: char) -> Option<Tool> {
    match letter {
        'v' => Some(Tool::Select),
        'p' => Some(Tool::Pen),
        'h' => Some(Tool::Highlighter),
        'l' => Some(Tool::Line),
        'a' => Some(Tool::Arrow),
        'r' => Some(Tool::Rectangle),
        'e' => Some(Tool::Ellipse),
        't' => Some(Tool::Text),
        'q' => Some(Tool::Callout),
        'b' => Some(Tool::Redact),
        'm' => Some(Tool::Pixelate),
        'd' => Some(Tool::Eraser),
        'g' => Some(Tool::Crop),
        'i' => Some(Tool::Eyedropper),
        _ => None,
    }
}

/// Each tool is found by its own shortcut letter, and a letter finds only
/// the tool whose shortcut it is.
pub proof fn lemma_tool_for_letter(letter: char, tool: Tool)
    ensures
        tool_for_letter(tool.shortcut_char()) == Some(tool),
        tool_for_letter(letter) == Some(tool) ==> tool.shortcut_char() == letter,
{
}

fn tool_for_key_letter(letter: char) -> (tool: Option<Tool>)
    ensures
        tool == tool_for_letter(letter),
{
    match letter {
        'v' => Some(Tool::Select),
        'p' => Some(Tool::Pen),
        'h' => Some(Tool::Highlighter),
        'l' => Some(Tool::Line),
        'a' => Some(Tool::Arrow),
        'r' => Some(Tool::Rectangle),
        'e' => Some(Tool::Ellipse),
        't' => Some(Tool::Text),
        'q' => Some(Tool::Callout),
        'b' => Some(Tool::Redact),
        'm' => Some(Tool::Pixelate),
        'd' => Some(Tool::Eraser),
        'g' => Some(Tool::Crop),
        'i' => Some(Tool::Eyedropper),
        _ => None,
    }
}

/// What the overlay does with a key press outside text editing.
#[derive(Clone, Copy, Debug, PartialEq, Eq, Structural)]
pub enum KeyCommand {
    /// The key goes to the text box being edited.
    EditText,
    /// Cancel the active interaction, or close the overlay if none is active.
    CancelOrClose,
    Ignore,
    Undo,
    Redo,
    SelectTool(Tool),
    Clear,
    Save,
    Copy,
    Print,
    ChooseColor,
    DeleteSelected,
}

/// The command for a key press: text editing takes every key; Escape
/// cancels; without an editor nothing else happens; with Control held only
/// Z (undo) and Y (redo) count; otherwise a tool's letter selects it, and
/// U, Y, X, S, C, O, K, Delete and Enter undo, redo, clear, save, copy,
/// print, pick a color, delete the selected object and copy.
pub open spec fn key_command_spec(
    key: KeyInput,
    control: bool,
    has_editor: bool,
    editing_text: bool,
) -> KeyCommand {
    if editing_text {
        KeyCommand::EditText
    } else if key == KeyInput::Escape {
        KeyCommand::CancelOrClose
    } else if !has_editor {
        KeyCommand::Ignore
    } else if control {
        if is_letter_key(key, 'z') {
            KeyCommand::Undo
        } else if is_letter_key(key, 'y') {
            KeyCommand::Redo
        } else {
            KeyCommand::Ignore
        }
    } else if key matches KeyInput::Character(text) && text@.len() == 1 && tool_for_letter(
        ascii_lowercase(text@[0]),
    ) is Some {
        KeyCommand::SelectTool(tool_for_letter(ascii_lowercase(key->Character_0@[0])).unwrap())
    } else if is_letter_key(key, 'u') {
        KeyCommand::Undo
    } else if is_letter_key(key, 'y') {
        KeyCommand::Redo
    } else if is_letter_key(key, 'x') {
        KeyCommand::Clear
    } else if is_letter_key(key, 's') {
        KeyCommand::Save
    } else if is_letter_key(key, 'c') {
        KeyCommand::Copy
    } else if is_letter_key(key, 'o') {
        KeyCommand::Print
    } else if is_letter_key(key, 'k') {
        KeyCommand::ChooseColor
    } else if key == KeyInput::Delete {
        KeyCommand::DeleteSelected
    } else if key == KeyInput::Enter {
        KeyCommand::Copy
    } else {
        KeyCommand::Ignore
    }
}

/// Decides what a key press does in the overlay.
pub fn key_command(key: &KeyInput, control: bool, has_editor: bool, editing_text: bool) -> (command: KeyCommand)
    ensures
        command == key_command_spec(*key, control, has_editor, editing_text),
{
    if editing_text {
        return KeyCommand::EditText;
    }
    if matches!(key, KeyInput::Escape) {
        return KeyCommand::CancelOrClose;
    }
    if !has_editor {
        return KeyCommand::Ignore;
    }
    let letter = key_letter(key);
    if control {
        return match letter {
            Some('z') => KeyCommand::Undo,
            Some('y') => KeyCommand::Redo,
            _ => KeyCommand::Ignore,
        };
    }
    match letter {
        Some(letter) => {
            match tool_for_key_letter(letter) {
                Some(tool) => KeyCommand::SelectTool(tool),
                None => match letter {
                    'u' => KeyCommand::Undo,
                    'y' => KeyCommand::Redo,
                    'x' => KeyCommand::Clear,
                    's' => KeyCommand::Save,
                    'c' => KeyCommand::Copy,
                    'o' => KeyCommand::Print,
                    'k' => KeyCommand::ChooseColor,
                    _ => KeyCommand::Ignore,
                },
            }
        },
        None => match key {
            KeyInput::Delete => KeyCommand::DeleteSelected,
            KeyInput::Enter => KeyCommand::Copy,
            _ => KeyCommand::Ignore,
        },
    }
}

/// Unicode control characters (general category `Cc`), as
/// `char::is_control` defines them.
pub open spec fn is_control_char(c: char) -> bool {
    (c as u32) <= 0x1f || 0x7f <= (c as u32) <= 0x9f
}

/// `text` holds a control character.
pub open spec fn has_control_char(text: Seq<char>) -> bool {
    exists|i: int| 0 <= i < text.len() && is_control_char(#[trigger] text[i])
}

/// What a key press does to the text box being edited.
#[derive(Clone, Debug, PartialEq, Eq)]
pub enum TextKeyCommand {
    /// Drop the text box.
    Discard,
    /// Start a new line.
    NewLine,
    /// Turn the text box into an annotation.
    Commit,
    /// Remove the last character.
    DeleteLast,
    /// Append text.
    Insert(String),
    Ignore,
}

/// The command for a key press while a text box is being edited: Escape
/// discards it, Shift+Enter starts a new line, Enter commits it, Backspace
/// deletes the last character, and typed text without control characters
/// is inserted unless Control or the system key is held.
pub open spec fn text_key_command_spec(
    key: KeyInput,
    text: Option<Seq<char>>,
    shift: bool,
    control: bool,
    super_key: bool,
) -> Option<Seq<char>> {
    if key == KeyInput::Escape || key == KeyInput::Enter || key == KeyInput::Backspace {
        None
    } else if !control && !super_key && (text matches Some(typed) && !has_control_char(typed)) {
        text
    } else {
        None
    }
}

/// Decides what a key press does to the text box being edited; `text` is
/// the text that the key produced, if any.
pub fn text_key_command(
    key: &KeyInput,
    text: Option<&str>,
    shift: bool,
    control: bool,
    super_key: bool,
) -> (command: TextKeyCommand)
    ensures
        *key == KeyInput::Escape ==> command == TextKeyCommand::Discard,
        *key == KeyInput::Enter ==> command == if shift {
            TextKeyCommand::NewLine
        } else {
            TextKeyCommand::Commit
        },
        *key == KeyInput::Backspace ==> command == TextKeyCommand::DeleteLast,
        !(*key == KeyInput::Escape || *key == KeyInput::Enter || *key == KeyInput::Backspace)
            ==> match text_key_command_spec(
            *key,
            match text {
                Some(typed) => Some(typed@),
                None => None,
            },
            shift,
            control,
            super_key,
        ) {
            Some(inserted) => command matches TextKeyCommand::Insert(typed) && typed@ == inserted,
            None => command == TextKeyCommand::Ignore,
        },
{
    match key {
        KeyInput::Escape => {
            return TextKeyCommand::Discard;
        },
        KeyInput::Enter => {
            return if shift {
                TextKeyCommand::NewLine
            } else {
                TextKeyCommand::Commit
            };
        },
        KeyInput::Backspace => {
            return TextKeyCommand::DeleteLast;
        },
        _ => {},
    }
    if control || super_key {
        return TextKeyCommand::Ignore;
    }
    match text {
        Some(typed) => {
            let characters = crate::text::chars_of(typed);
            let mut index: usize = 0;
            while index < characters.len()
                invariant
                    characters@ == typed@,
                    index <= characters@.len(),
                    *key != KeyInput::Escape,
                    *key != KeyInput::Enter,
                    *key != KeyInput::Backspace,
                    !control,
                    !super_key,
                    text == Some(typed),
                    forall|i: int| 0 <= i < index ==> !is_control_char(#[trigger] typed@[i]),
                decreases characters@.len() - index,
            {
                let value = characters[index] as u32;
                if value <= 0x1f || (0x7f <= value && value <= 0x9f) {
                    proof {
                        assert(characters@[index as int] == typed@[index as int]);
                        assert(is_control_char(typed@[index as int]));
                        assert(has_control_char(typed@));
                    }
                    return TextKeyCommand::Ignore;
                }
                index += 1;
            }
            TextKeyCommand::Insert(typed.to_owned())
        },
        None => TextKeyCommand::Ignore,
    }
}

/// Background of the selected tool's button.
pub const SELECTED_BUTTON_BACKGROUND: u32 = 0x002d_74da;

/// Background of the button under the pointer.
pub const HOVERED_BUTTON_BACKGROUND: u32 = 0x003a_4050;

/// Background of the other buttons.
pub const BUTTON_BACKGROUND: u32 = 0x0024_2833;

/// The background of a toolbar button: the selected tool's button is
/// highlighted, the one under the pointer shaded, the others plain.
pub fn toolbar_button_background(button: ToolbarButton, tool: Tool, hovered: Option<ToolbarButton>) -> (color: u32)
    ensures
        color == if button.tool_spec() == Some(tool) {
            SELECTED_BUTTON_BACKGROUND
        } else if hovered == Some(button) {
            HOVERED_BUTTON_BACKGROUND
        } else {
            BUTTON_BACKGROUND
        },
{
    let selected = match button.tool() {
        Some(button_tool) => button_tool == tool,
        None => false,
    };
    if selected {
        SELECTED_BUTTON_BACKGROUND
    } else {
        match hovered {
            Some(hovered_button) => {
                if hovered_button == button {
                    HOVERED_BUTTON_BACKGROUND
                } else {
                    BUTTON_BACKGROUND
                }
            },
            None => BUTTON_BACKGROUND,
        }
    }
}

/// The top-left corner of the `index`-th toolbar button: buttons fill the
/// toolbar row by row.
pub fn toolbar_button_origin(layout: ToolbarLayout, index: i32) -> (origin: (i32, i32))
    requires
        0 <= index < TOOLBAR_BUTTONS,
        1 <= layout.columns,
        0 <= layout.button_size <= 0x0100_0000,
        i32::MIN <= layout.x + (index % layout.columns) * layout.button_size <= i32::MAX,
        i32::MIN <= layout.y + (index / layout.columns) * layout.button_size <= i32::MAX,
    ensures
        origin.0 == layout.x + (index % layout.columns) * layout.button_size,
        origin.1 == layout.y + (index / layout.columns) * layout.button_size,
{
    let column = index % layout.columns;
    let row = index / layout.columns;
    proof {
        assert(0 <= column < layout.columns);
        assert(column <= index) by (nonlinear_arith)
            requires
                column == index % layout.columns,
                0 <= index,
                1 <= layout.columns,
        ;
        assert(row <= index) by (nonlinear_arith)
            requires
                row == index / layout.columns,
                0 <= index,
                1 <= layout.columns,
        ;
        assert(0 <= row <= index);
        assert(0 <= column * layout.button_size <= index * layout.button_size) by (nonlinear_arith)
            requires
                0 <= column <= index,
                0 <= layout.button_size,
        ;
        assert(0 <= row * layout.button_size <= index * layout.button_size) by (nonlinear_arith)
            requires
                0 <= row <= index,
                0 <= layout.button_size,
        ;
        assert(index * layout.button_size <= 21 * 0x0100_0000) by (nonlinear_arith)
            requires
                0 <= index < 21,
                0 <= layout.button_size <= 0x0100_0000,
        ;
    }
    (layout.x + column * layout.button_size, layout.y + row * layout.button_size)
}

/// What an export asks the application to do with the edited frame.
#[derive(Clone, Copy, Debug, PartialEq, Eq, Structural)]
pub enum ExportKind {
    Save,
    Copy,
    Print,
}

/// What clicking a toolbar button does.
#[derive(Clone, Copy, Debug, PartialEq, Eq, Structural)]
pub enum ToolbarAction {
    Export(ExportKind),
    SelectTool(Tool),
    Undo,
    Redo,
    /// Switch to the next palette color.
    CycleColor,
    /// Switch to the next stroke width.
    CycleWidth,
}

impl ToolbarButton {
    pub open spec fn action_spec(self) -> ToolbarAction {
        match self {
            ToolbarButton::Save => ToolbarAction::Export(ExportKind::Save),
            ToolbarButton::Copy => ToolbarAction::Export(ExportKind::Copy),
            ToolbarButton::Print => ToolbarAction::Export(ExportKind::Print),
            ToolbarButton::Undo => ToolbarAction::Undo,
            ToolbarButton::Redo => ToolbarAction::Redo,
            ToolbarButton::Color => ToolbarAction::CycleColor,
            ToolbarButton::Width => ToolbarAction::CycleWidth,
            _ => ToolbarAction::SelectTool(self.tool_spec().unwrap()),
        }
    }

    /// What clicking the button does.
    pub fn action(self) -> (action: ToolbarAction)
        ensures
            action == self.action_spec(),
    {
        match self {
            ToolbarButton::Save => ToolbarAction::Export(ExportKind::Save),
            ToolbarButton::Copy => ToolbarAction::Export(ExportKind::Copy),
            ToolbarButton::Print => ToolbarAction::Export(ExportKind::Print),
            ToolbarButton::Undo => ToolbarAction::Undo,
            ToolbarButton::Redo => ToolbarAction::Redo,
            ToolbarButton::Color => ToolbarAction::CycleColor,
            ToolbarButton::Width => ToolbarAction::CycleWidth,
            ToolbarButton::Select => ToolbarAction::SelectTool(Tool::Select),
            ToolbarButton::Pen => ToolbarAction::SelectTool(Tool::Pen),
            ToolbarButton::Highlighter => ToolbarAction::SelectTool(Tool::Highlighter),
            ToolbarButton::Line => ToolbarAction::SelectTool(Tool::Line),
            ToolbarButton::Arrow => ToolbarAction::SelectTool(Tool::Arrow),
            ToolbarButton::Rectangle => ToolbarAction::SelectTool(Tool::Rectangle),
            ToolbarButton::Ellipse => ToolbarAction::SelectTool(Tool::Ellipse),
            ToolbarButton::Text => ToolbarAction::SelectTool(Tool::Text),
            ToolbarButton::Callout => ToolbarAction::SelectTool(Tool::Callout),
            ToolbarButton::Redact => ToolbarAction::SelectTool(Tool::Redact),
            ToolbarButton::Pixelate => ToolbarAction::SelectTool(Tool::Pixelate),
            ToolbarButton::Eraser => ToolbarAction::SelectTool(Tool::Eraser),
            ToolbarButton::Crop => ToolbarAction::SelectTool(Tool::Crop),
            ToolbarButton::Eyedropper => ToolbarAction::SelectTool(Tool::Eyedropper),
        }
    }
}

/// Number of colors in the editor's palette.
pub const PALETTE_SIZE: usize = 6;

/// Number of stroke widths the editor offers.
pub const STROKE_WIDTH_COUNT: usize = 4;

/// The editor's palette, as `(red, green, blue, alpha)`.
pub open spec fn palette_rgba(index: int) -> (u8, u8, u8, u8) {
    if index == 0 {
        (255, 64, 64, 255)
    } else if index == 1 {
        (255, 196, 0, 255)
    } else if index == 2 {
        (40, 205, 90, 255)
    } else if index == 3 {
        (45, 135, 255, 255)
    } else if index == 4 {
        (255, 255, 255, 255)
    } else {
        (0, 0, 0, 255)
    }
}

/// `color` is palette entry `index`.
pub open spec fn is_palette_color(color: Color, index: int) -> bool {
    let rgba = palette_rgba(index);
    color.red_spec() == rgba.0 && color.green_spec() == rgba.1 && color.blue_spec() == rgba.2
        && color.alpha_spec() == rgba.3
}

/// The palette color at `index`.
pub fn palette_color(index: usize) -> (color: Color)
    requires
        index < PALETTE_SIZE,
    ensures
        is_palette_color(color, index as int),
{
    if index == 0 {
        Color::rgba(255, 64, 64, 255)
    } else if index == 1 {
        Color::rgba(255, 196, 0, 255)
    } else if index == 2 {
        Color::rgba(40, 205, 90, 255)
    } else if index == 3 {
        Color::rgba(45, 135, 255, 255)
    } else if index == 4 {
        Color::rgba(255, 255, 255, 255)
    } else {
        Color::rgba(0, 0, 0, 255)
    }
}

/// The palette color after `color`: the next entry, wrapping around, or the
/// first where `color` is not in the palette.
pub fn next_palette_color(color: Color) -> (next: Color)
    ensures
        (exists|index: int| 0 <= index < PALETTE_SIZE && is_palette_color(color, index))
            ==> is_palette_color(next, ((choose|index: int| 0 <= index < PALETTE_SIZE && is_palette_color(color, index)) + 1) % PALETTE_SIZE as int),
        !(exists|index: int| 0 <= index < PALETTE_SIZE && is_palette_color(color, index))
            ==> is_palette_color(next, 0),
{
    let mut index: usize = 0;
    while index < PALETTE_SIZE
        invariant
            index <= PALETTE_SIZE,
            forall|i: int| 0 <= i < index ==> !is_palette_color(color, i),
        decreases PALETTE_SIZE - index,
    {
        let entry = palette_color(index);
        if entry.red() == color.red() && entry.green() == color.green() && entry.blue()
            == color.blue() && entry.alpha() == color.alpha() {
            proof {
                assert(is_palette_color(color, index as int));
                let chosen = choose|i: int| 0 <= i < PALETTE_SIZE && is_palette_color(color, i);
                assert(0 <= chosen < PALETTE_SIZE && is_palette_color(color, chosen));
                assert(chosen == index) by {
                    if chosen < index {
                        assert(!is_palette_color(color, chosen));
                    } else if chosen > index {
                        assert(palette_rgba(chosen) != palette_rgba(index as int));
                    }
                }
            }
            return palette_color((index + 1) % PALETTE_SIZE);
        }
        index += 1;
    }
    palette_color(0)
}

/// The stroke width after `index`, wrapping around.
pub fn next_width_index(index: usize) -> (next: usize)
    requires
        index < STROKE_WIDTH_COUNT,
    ensures
        next == (index + 1) % STROKE_WIDTH_COUNT as int,
{
    (index + 1) % STROKE_WIDTH_COUNT
}

/// The preferences that an editor session leaves behind.
pub fn editor_preferences(tool: Tool, color: Color, width_index: usize) -> (preferences: EditorPreferences)
    ensures
        preferences.tool == tool.preference_spec(),
        preferences.color == (RgbColor {
            red: color.red_spec(),
            green: color.green_spec(),
            blue: color.blue_spec(),
        }),
        preferences.stroke_width == if width_index <= 3 {
            width_index as u8
        } else if width_index <= u8::MAX {
            3u8
        } else {
            1u8
        },
{
    let width: u8 = if width_index <= u8::MAX as usize {
        width_index as u8
    } else {
        1
    };
    EditorPreferences {
        tool: tool.preference(),
        color: RgbColor::new(color.red(), color.green(), color.blue()),
        stroke_width: if width < 3 {
            width
        } else {
            3
        },
    }
}

/// Twice the centre of a resize handle on `selection`, as its name places
/// it: on the edge or corner it moves, and midway along an edge it does
/// not move.
pub open spec fn handle_center2(selection: PixelRect, handle: ResizeHandle) -> (int, int) {
    let x2 = if handle.moves_left() {
        2 * selection.x
    } else if handle.moves_right() {
        2 * selection.right_spec()
    } else {
        selection.x + selection.right_spec()
    };
    let y2 = if handle.moves_top() {
        2 * selection.y
    } else if handle.moves_bottom() {
        2 * selection.bottom_spec()
    } else {
        selection.y + selection.bottom_spec()
    };
    (x2, y2)
}

/// `point` lies within [`HANDLE_HIT_RADIUS`] of the handle's centre.
pub open spec fn near_handle(selection: PixelRect, handle: ResizeHandle, point: PixelPoint) -> bool {
    let (x2, y2) = handle_center2(selection, handle);
    let dx = x2 - 2 * point.x;
    let dy = y2 - 2 * point.y;
    dx * dx + dy * dy <= 4 * HANDLE_HIT_RADIUS * HANDLE_HIT_RADIUS
}

/// A grabbed handle is one of the eight on the selection's corners and
/// edge midpoints, and the pointer lies within reach of its centre; a
/// pointer within reach of some handle grabs one.
pub proof fn lemma_grabbed_handle_is_near(selection: PixelRect, point: PixelPoint, handle: ResizeHandle)
    ensures
        handle_at(selection, point) matches Some(grabbed) ==> grabbed != ResizeHandle::Move
            && near_handle(selection, grabbed, point),
        handle != ResizeHandle::Move && near_handle(selection, handle, point) ==> handle_at(
            selection,
            point,
        ) is Some,
{
}

/// The key presses with the editor open, no text being edited and Control
/// up: `C` copies (as Enter does), `S` saves, `O` prints, `X` clears, `U`
/// undoes, `Y` redoes and `K` chooses a color, in either case, and no other
/// key does any of these.
pub proof fn lemma_editor_letter_keys(key: KeyInput)
    ensures
        ({
            let command = key_command_spec(key, false, true, false);
            &&& (command == KeyCommand::Copy <==> presses(key, 'c', 'C') || key == KeyInput::Enter)
            &&& (command == KeyCommand::Save <==> presses(key, 's', 'S'))
            &&& (command == KeyCommand::Print <==> presses(key, 'o', 'O'))
            &&& (command == KeyCommand::Clear <==> presses(key, 'x', 'X'))
            &&& (command == KeyCommand::Undo <==> presses(key, 'u', 'U'))
            &&& (command == KeyCommand::Redo <==> presses(key, 'y', 'Y'))
            &&& (command == KeyCommand::ChooseColor <==> presses(key, 'k', 'K'))
        }),
        key_command_spec(key, true, true, false) == KeyCommand::Undo <==> presses(key, 'z', 'Z'),
        key_command_spec(key, true, true, false) == KeyCommand::Redo <==> presses(key, 'y', 'Y'),
{
    match key {
        KeyInput::Character(text) => {
            if text@.len() == 1 {
                let c = text@[0];
                lemma_lowercase_letter(c);
                assert(text@ =~= seq![c]);
                assert forall|x: char| (text@ == seq![x]) <==> c == x by {
                    if text@ == seq![x] {
                        assert(text@[0] == seq![x][0]);
                    }
                }
            } else {
                assert forall|x: char| text@ != seq![x] by {
                    assert(seq![x].len() == 1);
                }
            }
        },
        _ => {},
    }
}

/// The key produces exactly the one character `lower` or `upper`.
pub open spec fn presses(key: KeyInput, lower: char, upper: char) -> bool {
    key matches KeyInput::Character(text) && (text@ == seq![lower] || text@ == seq![upper])
}

proof fn lemma_lowercase_letter(c: char)
    ensures
        ascii_lowercase(c) == 'c' <==> (c == 'c' || c == 'C'),
        ascii_lowercase(c) == 's' <==> (c == 's' || c == 'S'),
        ascii_lowercase(c) == 'o' <==> (c == 'o' || c == 'O'),
        ascii_lowercase(c) == 'x' <==> (c == 'x' || c == 'X'),
        ascii_lowercase(c) == 'u' <==> (c == 'u' || c == 'U'),
        ascii_lowercase(c) == 'y' <==> (c == 'y' || c == 'Y'),
        ascii_lowercase(c) == 'k' <==> (c == 'k' || c == 'K'),
        ascii_lowercase(c) == 'z' <==> (c == 'z' || c == 'Z'),
        tool_for_letter(ascii_lowercase(c)) is Some ==> !('c' <= ascii_lowercase(c) <= 'c')
            && ascii_lowercase(c) != 's' && ascii_lowercase(c) != 'o' && ascii_lowercase(c) != 'x'
            && ascii_lowercase(c) != 'u' && ascii_lowercase(c) != 'y' && ascii_lowercase(c) != 'k',
{
}

} // verus!
