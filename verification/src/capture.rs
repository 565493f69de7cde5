//! Compositing of monitor captures into one virtual-desktop frame.
//!
//! Grabbing the pixels of each monitor is the platform's work; this module
//! places the grabbed buffers at their desktop offsets.
use crate::frame::{
    frame_error_message, geometry_valid, lemma_row_start_in_bounds, rgba_byte_count, Frame, FrameError,
    PhysicalPoint,
};
use crate::text::{append_str, concatenated, decimal_text, i32_to_decimal, signed_decimal_text, u64_to_decimal};
use vstd::prelude::*;

verus! {

/// The pixels of one monitor and its physical desktop origin.
#[derive(Clone, Debug, PartialEq, Eq)]
pub struct CapturedMonitor {
    pub x: i32,
    pub y: i32,
    pub width: u32,
    pub height: u32,
    pub rgba: Vec<u8>,
}

/// Failures of capture compositing.
#[derive(Clone, Debug, PartialEq, Eq)]
pub enum CaptureError {
    /// No monitor was captured.
    NoMonitors,
    /// A monitor at this origin returned an empty capture.
    EmptyMonitor { x: i32, y: i32 },
    /// An RGBA buffer size does not fit this platform.
    BufferSizeOverflow,
    /// A monitor buffer does not hold `width * height * 4` bytes.
    MalformedCapture { expected: usize, actual: usize },
    /// A monitor lies left of or above the desktop origin.
    InvalidOffset,
    /// A monitor row falls outside the destination buffer.
    OutsideDesktop,
    /// The desktop size or origin is not representable.
    Unrepresentable,
    /// The composited desktop is not a valid frame.
    InvalidFrame(FrameError),
}

/// Human-readable description of a compositing failure, in the words the
/// capture path reports.
pub open spec fn capture_error_message(error: CaptureError) -> Seq<char> {
    match error {
        CaptureError::NoMonitors => "Windows reported no capturable monitors"@,
        CaptureError::EmptyMonitor { x, y } => "monitor at ("@ + signed_decimal_text(x as int) + ", "@
            + signed_decimal_text(y as int) + ") returned an empty capture"@,
        CaptureError::BufferSizeOverflow => "capture buffer size overflow"@,
        CaptureError::MalformedCapture { expected, actual } => "monitor capture buffer has "@ + decimal_text(
            actual as nat,
        ) + " bytes, expected "@ + decimal_text(expected as nat),
        CaptureError::InvalidOffset => "monitor has an invalid virtual-desktop offset"@,
        CaptureError::OutsideDesktop => "monitor lies outside the virtual desktop buffer"@,
        CaptureError::Unrepresentable => "virtual desktop geometry is not representable"@,
        CaptureError::InvalidFrame(error) => "invalid virtual desktop frame: "@ + frame_error_message(error),
    }
}

impl CaptureError {
    /// Human-readable description.
    pub fn message(&self) -> (message: String)
        ensures
            message@ == capture_error_message(*self),
    {
        match self {
            CaptureError::NoMonitors => "Windows reported no capturable monitors".to_owned(),
            CaptureError::EmptyMonitor { x, y } => {
                let mut text = concatenated("monitor at (", i32_to_decimal(*x).as_str());
                append_str(&mut text, ", ");
                append_str(&mut text, i32_to_decimal(*y).as_str());
                append_str(&mut text, ") returned an empty capture");
                text
            },
            CaptureError::BufferSizeOverflow => "capture buffer size overflow".to_owned(),
            CaptureError::MalformedCapture { expected, actual } => {
                let mut text = concatenated("monitor capture buffer has ", u64_to_decimal(*actual as u64).as_str());
                append_str(&mut text, " bytes, expected ");
                append_str(&mut text, u64_to_decimal(*expected as u64).as_str());
                text
            },
            CaptureError::InvalidOffset => "monitor has an invalid virtual-desktop offset".to_owned(),
            CaptureError::OutsideDesktop => "monitor lies outside the virtual desktop buffer".to_owned(),
            CaptureError::Unrepresentable => "virtual desktop geometry is not representable".to_owned(),
            CaptureError::InvalidFrame(error) => concatenated(
                "invalid virtual desktop frame: ",
                error.message().as_str(),
            ),
        }
    }
}

/// Byte length of an RGBA image, if it fits `usize`.
pub fn rgba_len(width: u32, height: u32) -> (result: Result<usize, CaptureError>)
    ensures
        result is Ok <==> rgba_byte_count(width as int, height as int) <= usize::MAX,
        result matches Ok(len) ==> len == rgba_byte_count(width as int, height as int),
        result matches Err(error) ==> error == CaptureError::BufferSizeOverflow,
{
    match crate::frame::expected_len(width, height) {
        Ok(len) => Ok(len),
        Err(_) => Err(CaptureError::BufferSizeOverflow),
    }
}

/// `target` with `count` bytes starting at `start` replaced by the bytes of
/// `source` starting at `source_start`.
pub open spec fn replace_span(
    target: Seq<u8>,
    start: int,
    source: Seq<u8>,
    source_start: int,
    count: int,
) -> Seq<u8> {
    Seq::new(
        target.len(),
        |i: int|
            if start <= i < start + count {
                source[source_start + i - start]
            } else {
                target[i]
            },
    )
}

/// Byte offset in the destination at which row `row` of a monitor starts.
pub open spec fn row_start(x_offset: int, y_offset: int, stride: int, row: int) -> int {
    (y_offset + row) * stride + x_offset * 4
}

/// The destination after the first `rows` rows of a monitor were copied, row
/// after row, each at its offset.
pub open spec fn place_rows(
    destination: Seq<u8>,
    source: Seq<u8>,
    width: int,
    x_offset: int,
    y_offset: int,
    stride: int,
    rows: int,
) -> Seq<u8>
    decreases rows,
{
    if rows <= 0 {
        destination
    } else {
        replace_span(
            place_rows(destination, source, width, x_offset, y_offset, stride, rows - 1),
            row_start(x_offset, y_offset, stride, rows - 1),
            source,
            (rows - 1) * (width * 4),
            width * 4,
        )
    }
}

/// Row `row` of the monitor fits inside a destination of `len` bytes.
pub open spec fn row_fits(x_offset: int, y_offset: int, stride: int, width: int, row: int, len: int) -> bool {
    row_start(x_offset, y_offset, stride, row) + width * 4 <= len
}

/// The first row of the monitor that does not fit, or its height if all do.
pub open spec fn first_unfit_row(
    x_offset: int,
    y_offset: int,
    stride: int,
    width: int,
    height: int,
    len: int,
    from: int,
) -> int
    decreases height - from,
{
    if from >= height {
        height
    } else if !row_fits(x_offset, y_offset, stride, width, from, len) {
        from
    } else {
        first_unfit_row(x_offset, y_offset, stride, width, height, len, from + 1)
    }
}

/// What compositing a monitor does to the destination buffer, given the
/// virtual-desktop origin and the destination row length.
pub open spec fn monitor_outcome(
    capture: CapturedMonitor,
    virtual_left: int,
    virtual_top: int,
    stride: int,
    old: Seq<u8>,
    new: Seq<u8>,
    result: Result<(), CaptureError>,
) -> bool {
    let width = capture.width as int;
    let height = capture.height as int;
    let x_offset = capture.x - virtual_left;
    let y_offset = capture.y - virtual_top;
    if width * 4 > usize::MAX || rgba_byte_count(width, height) > usize::MAX {
        result == Err::<(), CaptureError>(CaptureError::BufferSizeOverflow) && new == old
    } else if capture.rgba@.len() != rgba_byte_count(width, height) {
        result == Err::<(), CaptureError>(
            CaptureError::MalformedCapture {
                expected: rgba_byte_count(width, height) as usize,
                actual: capture.rgba@.len() as usize,
            },
        ) && new == old
    } else if x_offset < 0 || y_offset < 0 || x_offset > usize::MAX || y_offset > usize::MAX
        || x_offset * 4 > usize::MAX {
        result == Err::<(), CaptureError>(CaptureError::InvalidOffset) && new == old
    } else {
        let rows = first_unfit_row(x_offset, y_offset, stride, width, height, old.len() as int, 0);
        &&& new == place_rows(old, capture.rgba@, width, x_offset, y_offset, stride, rows)
        &&& rows == height ==> result == Ok::<(), CaptureError>(())
        &&& rows < height ==> result == Err::<(), CaptureError>(CaptureError::OutsideDesktop)
    }
}

proof fn lemma_first_unfit_row(
    x_offset: int,
    y_offset: int,
    stride: int,
    width: int,
    height: int,
    len: int,
    from: int,
)
    requires
        0 <= from <= height,
        forall|r: int| 0 <= r < from ==> row_fits(x_offset, y_offset, stride, width, r, len),
    ensures
        from <= first_unfit_row(x_offset, y_offset, stride, width, height, len, from) <= height,
        forall|r: int|
            0 <= r < first_unfit_row(x_offset, y_offset, stride, width, height, len, from) ==> row_fits(
                x_offset,
                y_offset,
                stride,
                width,
                r,
                len,
            ),
        first_unfit_row(x_offset, y_offset, stride, width, height, len, from) < height ==> !row_fits(
            x_offset,
            y_offset,
            stride,
            width,
            first_unfit_row(x_offset, y_offset, stride, width, height, len, from),
            len,
        ),
    decreases height - from,
{
    if from < height && row_fits(x_offset, y_offset, stride, width, from, len) {
        lemma_first_unfit_row(x_offset, y_offset, stride, width, height, len, from + 1);
    }
}

/// Copies a monitor's rows into a virtual-desktop buffer at the monitor's
/// offset from the desktop's top-left corner.
pub fn composite_monitor(
    capture: &CapturedMonitor,
    virtual_left: i64,
    virtual_top: i64,
    destination_stride: usize,
    destination: &mut Vec<u8>,
) -> (result: Result<(), CaptureError>)
    ensures
        monitor_outcome(
            *capture,
            virtual_left as int,
            virtual_top as int,
            destination_stride as int,
            old(destination)@,
            final(destination)@,
            result,
        ),
{
    let width = capture.width as usize;
    let height = capture.height as usize;
    let source_stride = match width.checked_mul(4) {
        Some(stride) => stride,
        None => {
            proof {
                assert(rgba_byte_count(width as int, height as int) > usize::MAX || width * 4
                    > usize::MAX);
            }
            return Err(CaptureError::BufferSizeOverflow);
        },
    };
    let expected_source_len = match rgba_len(capture.width, capture.height) {
        Ok(len) => len,
        Err(error) => {
            return Err(error);
        },
    };
    if capture.rgba.len() != expected_source_len {
        return Err(
            CaptureError::MalformedCapture {
                expected: expected_source_len,
                actual: capture.rgba.len(),
            },
        );
    }
    let x_difference = capture.x as i128 - virtual_left as i128;
    let y_difference = capture.y as i128 - virtual_top as i128;
    if x_difference < 0 || y_difference < 0 {
        return Err(CaptureError::InvalidOffset);
    }
    if x_difference > usize::MAX as i128 || y_difference > usize::MAX as i128 {
        return Err(CaptureError::InvalidOffset);
    }
    let x_offset = x_difference as usize;
    let y_offset = y_difference as usize;
    let x_bytes = match x_offset.checked_mul(4) {
        Some(bytes) => bytes,
        None => {
            return Err(CaptureError::InvalidOffset);
        },
    };
    let ghost old_destination = destination@;
    let ghost length = destination@.len() as int;
    let ghost rows_fitting = first_unfit_row(
        x_offset as int,
        y_offset as int,
        destination_stride as int,
        width as int,
        height as int,
        length,
        0,
    );
    proof {
        lemma_first_unfit_row(
            x_offset as int,
            y_offset as int,
            destination_stride as int,
            width as int,
            height as int,
            length,
            0,
        );
        assert(width * height * 4 == (width * 4) * height) by (nonlinear_arith);
    }
    let mut row: usize = 0;
    while row < height
        invariant
            row <= rows_fitting <= height,
            length == destination@.len(),
            source_stride == width * 4,
            x_bytes == x_offset * 4,
            capture.rgba@.len() == source_stride * height,
            capture.rgba@.len() <= usize::MAX,
            width == capture.width,
            height == capture.height,
            width * 4 <= usize::MAX,
            capture.rgba@.len() == rgba_byte_count(width as int, height as int),
            rgba_byte_count(width as int, height as int) <= usize::MAX,
            x_offset == capture.x - virtual_left,
            y_offset == capture.y - virtual_top,
            x_offset * 4 <= usize::MAX,
            length == old_destination.len(),
            old_destination == old(destination)@,
            rows_fitting == first_unfit_row(
                x_offset as int,
                y_offset as int,
                destination_stride as int,
                width as int,
                height as int,
                length,
                0,
            ),
            forall|r: int|
                0 <= r < rows_fitting ==> row_fits(
                    x_offset as int,
                    y_offset as int,
                    destination_stride as int,
                    width as int,
                    r,
                    length,
                ),
            rows_fitting < height ==> !row_fits(
                x_offset as int,
                y_offset as int,
                destination_stride as int,
                width as int,
                rows_fitting,
                length,
            ),
            destination@ == place_rows(
                old_destination,
                capture.rgba@,
                width as int,
                x_offset as int,
                y_offset as int,
                destination_stride as int,
                row as int,
            ),
        decreases height - row,
    {
        proof {
            assert(row * source_stride + source_stride <= source_stride * height) by (nonlinear_arith)
                requires
                    row < height,
                    source_stride >= 0,
            ;
            assert(row * source_stride + source_stride == (row + 1) * source_stride)
                by (nonlinear_arith);
        }
        let source_start = row * source_stride;
        let first_line = y_offset as u128 + row as u128;
        let available = destination.len() as u128;
        let ghost fits_spec = row_fits(
            x_offset as int,
            y_offset as int,
            destination_stride as int,
            width as int,
            row as int,
            length,
        );
        let fits = if destination_stride == 0 {
            proof {
                assert((y_offset + row) * destination_stride == 0) by (nonlinear_arith)
                    requires
                        destination_stride == 0,
                ;
            }
            x_bytes as u128 + source_stride as u128 <= available
        } else if first_line > available {
            proof {
                assert(first_line * destination_stride >= first_line) by (nonlinear_arith)
                    requires
                        destination_stride >= 1,
                        first_line >= 0,
                ;
                assert(!fits_spec);
            }
            false
        } else {
            proof {
                assert(first_line * destination_stride <= available * destination_stride)
                    by (nonlinear_arith)
                    requires
                        first_line <= available,
                        destination_stride >= 0,
                ;
                assert(available * destination_stride <= 0xffff_ffff_ffff_ffff
                    * 0xffff_ffff_ffff_ffff) by (nonlinear_arith)
                    requires
                        available <= 0xffff_ffff_ffff_ffff,
                        destination_stride <= 0xffff_ffff_ffff_ffff,
                        destination_stride >= 0,
                        available >= 0,
                ;
            }
            first_line * destination_stride as u128 + x_bytes as u128 + source_stride as u128
                <= available
        };
        proof {
            assert(fits == fits_spec);
        }
        proof {
            if (row as int) < rows_fitting {
                assert(row_fits(
                    x_offset as int,
                    y_offset as int,
                    destination_stride as int,
                    width as int,
                    row as int,
                    length,
                ));
            }
        }
        if !fits {
            proof {
                assert(row as int == rows_fitting);
            }
            return Err(CaptureError::OutsideDesktop);
        }
        proof {
            assert(row_fits(
                x_offset as int,
                y_offset as int,
                destination_stride as int,
                width as int,
                row as int,
                length,
            ));
        }
        proof {
            assert(row_start(x_offset as int, y_offset as int, destination_stride as int, row as int)
                + width * 4 <= length);
            assert((y_offset + row) * destination_stride + x_bytes + source_stride <= length);
        }
        let destination_start = if destination_stride == 0 {
            x_bytes
        } else {
            proof {
                assert((y_offset + row) * destination_stride >= y_offset + row) by (nonlinear_arith)
                    requires
                        destination_stride >= 1,
                        y_offset + row >= 0,
                ;
            }
            (y_offset + row) * destination_stride + x_bytes
        };
        let destination_end = destination_start + source_stride;
        let ghost before_row = destination@;
        let mut column: usize = 0;
        while column < source_stride
            invariant
                column <= source_stride,
                source_stride == width * 4,
                destination_end == destination_start + source_stride,
                destination_end <= length,
                length == destination@.len(),
                source_start + source_stride <= capture.rgba@.len(),
                capture.rgba@.len() <= usize::MAX,
                destination@ == replace_span(
                    before_row,
                    destination_start as int,
                    capture.rgba@,
                    source_start as int,
                    column as int,
                ),
            decreases source_stride - column,
        {
            let value = capture.rgba[source_start + column];
            destination.set(destination_start + column, value);
            proof {
                assert(destination@ =~= replace_span(
                    before_row,
                    destination_start as int,
                    capture.rgba@,
                    source_start as int,
                    column + 1,
                ));
            }
            column += 1;
        }
        row += 1;
    }
    Ok(())
}


/// Smallest left edge among the first `count` monitors (`i64::MAX` for none).
pub open spec fn min_left(monitors: Seq<CapturedMonitor>, count: int) -> int
    decreases count,
{
    if count <= 0 {
        i64::MAX as int
    } else {
        let previous = min_left(monitors, count - 1);
        let x = monitors[count - 1].x as int;
        if x < previous { x } else { previous }
    }
}

/// Smallest top edge among the first `count` monitors (`i64::MAX` for none).
pub open spec fn min_top(monitors: Seq<CapturedMonitor>, count: int) -> int
    decreases count,
{
    if count <= 0 {
        i64::MAX as int
    } else {
        let previous = min_top(monitors, count - 1);
        let y = monitors[count - 1].y as int;
        if y < previous { y } else { previous }
    }
}

/// Largest right edge among the first `count` monitors (`i64::MIN` for none).
pub open spec fn max_right(monitors: Seq<CapturedMonitor>, count: int) -> int
    decreases count,
{
    if count <= 0 {
        i64::MIN as int
    } else {
        let previous = max_right(monitors, count - 1);
        let right = monitors[count - 1].x + monitors[count - 1].width;
        if right > previous { right } else { previous }
    }
}

/// Largest bottom edge among the first `count` monitors (`i64::MIN` for none).
pub open spec fn max_bottom(monitors: Seq<CapturedMonitor>, count: int) -> int
    decreases count,
{
    if count <= 0 {
        i64::MIN as int
    } else {
        let previous = max_bottom(monitors, count - 1);
        let bottom = monitors[count - 1].y + monitors[count - 1].height;
        if bottom > previous { bottom } else { previous }
    }
}

pub open spec fn is_empty_capture(monitor: CapturedMonitor) -> bool {
    monitor.width == 0 || monitor.height == 0
}

pub open spec fn is_malformed_capture(monitor: CapturedMonitor) -> bool {
    monitor.rgba@.len() != rgba_byte_count(monitor.width as int, monitor.height as int)
}

/// Index of the first empty capture at or after `from`, or the count.
pub open spec fn first_empty(monitors: Seq<CapturedMonitor>, from: int) -> int
    decreases monitors.len() - from,
{
    if from >= monitors.len() {
        monitors.len() as int
    } else if is_empty_capture(monitors[from]) {
        from
    } else {
        first_empty(monitors, from + 1)
    }
}

/// Index of the first malformed capture at or after `from`, or the count.
pub open spec fn first_malformed(monitors: Seq<CapturedMonitor>, from: int) -> int
    decreases monitors.len() - from,
{
    if from >= monitors.len() {
        monitors.len() as int
    } else if is_malformed_capture(monitors[from]) {
        from
    } else {
        first_malformed(monitors, from + 1)
    }
}

/// `count` bytes of opaque black RGBA pixels.
pub open spec fn opaque_black(count: int) -> Seq<u8> {
    Seq::new(count as nat, |i: int| if i % 4 == 3 { 255u8 } else { 0u8 })
}

/// The desktop buffer after the first `count` monitors were placed, in order,
/// over opaque black.
pub open spec fn desktop_pixels(
    monitors: Seq<CapturedMonitor>,
    left: int,
    top: int,
    stride: int,
    total: int,
    count: int,
) -> Seq<u8>
    decreases count,
{
    if count <= 0 {
        opaque_black(total)
    } else {
        let monitor = monitors[count - 1];
        place_rows(
            desktop_pixels(monitors, left, top, stride, total, count - 1),
            monitor.rgba@,
            monitor.width as int,
            monitor.x - left,
            monitor.y - top,
            stride,
            monitor.height as int,
        )
    }
}

/// The outcome of compositing all monitors into one virtual-desktop frame.
pub open spec fn virtual_desktop_outcome(
    monitors: Seq<CapturedMonitor>,
    result: Result<Frame, CaptureError>,
) -> bool {
    let count = monitors.len() as int;
    if count == 0 {
        result is Err && result->Err_0 == CaptureError::NoMonitors
    } else if first_empty(monitors, 0) < count {
        let monitor = monitors[first_empty(monitors, 0)];
        result is Err && result->Err_0 == (CaptureError::EmptyMonitor { x: monitor.x, y: monitor.y })
    } else {
        let left = min_left(monitors, count);
        let top = min_top(monitors, count);
        let width = max_right(monitors, count) - left;
        let height = max_bottom(monitors, count) - top;
        if width > u32::MAX || height > u32::MAX {
            result is Err && result->Err_0 == CaptureError::Unrepresentable
        } else if rgba_byte_count(width, height) > usize::MAX {
            result is Err && result->Err_0 == CaptureError::BufferSizeOverflow
        } else if first_malformed(monitors, 0) < count {
            let monitor = monitors[first_malformed(monitors, 0)];
            result is Err && result->Err_0 == (CaptureError::MalformedCapture {
                expected: rgba_byte_count(monitor.width as int, monitor.height as int) as usize,
                actual: monitor.rgba@.len() as usize,
            })
        } else if !geometry_valid(left, top, width, height) {
            result is Err && result->Err_0 == CaptureError::InvalidFrame(FrameError::CoordinateOverflow)
        } else {
            &&& result is Ok
            &&& result->Ok_0.origin_spec().x_spec() == left
            &&& result->Ok_0.origin_spec().y_spec() == top
            &&& result->Ok_0.width_spec() == width
            &&& result->Ok_0.height_spec() == height
            &&& result->Ok_0.pixels() == desktop_pixels(
                monitors,
                left,
                top,
                width * 4,
                rgba_byte_count(width, height),
                count,
            )
        }
    }
}

proof fn lemma_extent_bounds(monitors: Seq<CapturedMonitor>, count: int)
    requires
        0 <= count <= monitors.len(),
    ensures
        forall|i: int|
            0 <= i < count ==> min_left(monitors, count) <= monitors[i].x && min_top(monitors, count)
                <= monitors[i].y && monitors[i].x + monitors[i].width <= max_right(monitors, count)
                && monitors[i].y + monitors[i].height <= max_bottom(monitors, count),
        count > 0 ==> i32::MIN <= min_left(monitors, count) <= i32::MAX,
        count > 0 ==> i32::MIN <= min_top(monitors, count) <= i32::MAX,
        count > 0 ==> max_right(monitors, count) >= i32::MIN,
        count > 0 ==> max_bottom(monitors, count) >= i32::MIN,
        count > 0 ==> max_right(monitors, count) <= i32::MAX + u32::MAX,
        count > 0 ==> max_bottom(monitors, count) <= i32::MAX + u32::MAX,
    decreases count,
{
    if count > 0 {
        lemma_extent_bounds(monitors, count - 1);
        assert(min_left(monitors, 0) == i64::MAX);
        assert(min_top(monitors, 0) == i64::MAX);
        assert(max_right(monitors, 0) == i64::MIN);
        assert(max_bottom(monitors, 0) == i64::MIN);
        assert forall|i: int| 0 <= i < count implies min_left(monitors, count) <= monitors[i].x
            && min_top(monitors, count) <= monitors[i].y && monitors[i].x + monitors[i].width
            <= max_right(monitors, count) && monitors[i].y + monitors[i].height <= max_bottom(
            monitors,
            count,
        ) by {
            if i < count - 1 {
                assert(min_left(monitors, count - 1) <= monitors[i].x);
            }
        }
    }
}

proof fn lemma_first_empty(monitors: Seq<CapturedMonitor>, from: int)
    requires
        0 <= from <= monitors.len(),
    ensures
        from <= first_empty(monitors, from) <= monitors.len(),
        first_empty(monitors, from) < monitors.len() ==> is_empty_capture(
            monitors[first_empty(monitors, from)],
        ),
        forall|i: int| from <= i < first_empty(monitors, from) ==> !is_empty_capture(monitors[i]),
    decreases monitors.len() - from,
{
    if from < monitors.len() && !is_empty_capture(monitors[from]) {
        lemma_first_empty(monitors, from + 1);
    }
}

proof fn lemma_first_malformed(monitors: Seq<CapturedMonitor>, from: int)
    requires
        0 <= from <= monitors.len(),
    ensures
        from <= first_malformed(monitors, from) <= monitors.len(),
        first_malformed(monitors, from) < monitors.len() ==> is_malformed_capture(
            monitors[first_malformed(monitors, from)],
        ),
        forall|i: int| from <= i < first_malformed(monitors, from) ==> !is_malformed_capture(
            monitors[i],
        ),
    decreases monitors.len() - from,
{
    if from < monitors.len() && !is_malformed_capture(monitors[from]) {
        lemma_first_malformed(monitors, from + 1);
    }
}

proof fn lemma_place_rows_len(
    destination: Seq<u8>,
    source: Seq<u8>,
    width: int,
    x_offset: int,
    y_offset: int,
    stride: int,
    rows: int,
)
    ensures
        place_rows(destination, source, width, x_offset, y_offset, stride, rows).len()
            == destination.len(),
    decreases rows,
{
    if rows > 0 {
        lemma_place_rows_len(destination, source, width, x_offset, y_offset, stride, rows - 1);
    }
}

proof fn lemma_desktop_len(
    monitors: Seq<CapturedMonitor>,
    left: int,
    top: int,
    stride: int,
    total: int,
    count: int,
)
    requires
        total >= 0,
    ensures
        desktop_pixels(monitors, left, top, stride, total, count).len() == total,
    decreases count,
{
    if count > 0 {
        lemma_desktop_len(monitors, left, top, stride, total, count - 1);
        let monitor = monitors[count - 1];
        lemma_place_rows_len(
            desktop_pixels(monitors, left, top, stride, total, count - 1),
            monitor.rgba@,
            monitor.width as int,
            monitor.x - left,
            monitor.y - top,
            stride,
            monitor.height as int,
        );
    }
}

/// Every row of a monitor that lies inside the desktop fits the desktop buffer.
proof fn lemma_monitor_rows_fit(
    desktop_width: int,
    desktop_height: int,
    x_offset: int,
    y_offset: int,
    width: int,
    height: int,
)
    requires
        0 <= x_offset,
        0 <= y_offset,
        width > 0,
        height > 0,
        x_offset + width <= desktop_width,
        y_offset + height <= desktop_height,
    ensures
        first_unfit_row(
            x_offset,
            y_offset,
            desktop_width * 4,
            width,
            height,
            rgba_byte_count(desktop_width, desktop_height),
            0,
        ) == height,
{
    assert forall|r: int| 0 <= r < height implies #[trigger] row_fits(
        x_offset,
        y_offset,
        desktop_width * 4,
        width,
        r,
        rgba_byte_count(desktop_width, desktop_height),
    ) by {
        lemma_row_start_in_bounds(desktop_width, desktop_height, x_offset, y_offset, width, r);
    }
    lemma_first_unfit_row(
        x_offset,
        y_offset,
        desktop_width * 4,
        width,
        height,
        rgba_byte_count(desktop_width, desktop_height),
        0,
    );
}

/// Composites monitor captures into one virtual-desktop frame whose origin is
/// the top-left corner of their bounding rectangle. Gaps between monitors
/// are opaque black; where monitors overlap, the later one wins.
pub fn composite_virtual_desktop(monitors: &Vec<CapturedMonitor>) -> (result: Result<
    Frame,
    CaptureError,
>)
    ensures
        virtual_desktop_outcome(monitors@, result),
{
    let count = monitors.len();
    if count == 0 {
        return Err(CaptureError::NoMonitors);
    }
    let mut left: i64 = i64::MAX;
    let mut top: i64 = i64::MAX;
    let mut right: i64 = i64::MIN;
    let mut bottom: i64 = i64::MIN;
    let mut index: usize = 0;
    while index < count
        invariant
            count == monitors@.len(),
            index <= count,
            left == min_left(monitors@, index as int),
            top == min_top(monitors@, index as int),
            right == max_right(monitors@, index as int),
            bottom == max_bottom(monitors@, index as int),
            forall|i: int| 0 <= i < index ==> !is_empty_capture(#[trigger] monitors@[i]),
        decreases count - index,
    {
        let monitor = &monitors[index];
        if monitor.width == 0 || monitor.height == 0 {
            proof {
                lemma_first_empty(monitors@, 0);
                if first_empty(monitors@, 0) < index {
                    assert(!is_empty_capture(monitors@[first_empty(monitors@, 0)]));
                }
            }
            return Err(CaptureError::EmptyMonitor { x: monitor.x, y: monitor.y });
        }
        proof {
            lemma_extent_bounds(monitors@, index as int);
        }
        let monitor_right = monitor.x as i64 + monitor.width as i64;
        let monitor_bottom = monitor.y as i64 + monitor.height as i64;
        if (monitor.x as i64) < left {
            left = monitor.x as i64;
        }
        if (monitor.y as i64) < top {
            top = monitor.y as i64;
        }
        if monitor_right > right {
            right = monitor_right;
        }
        if monitor_bottom > bottom {
            bottom = monitor_bottom;
        }
        index += 1;
    }
    proof {
        lemma_first_empty(monitors@, 0);
        lemma_extent_bounds(monitors@, count as int);
        assert(!is_empty_capture(monitors@[0]));
    }
    let width_wide = right - left;
    let height_wide = bottom - top;
    if width_wide > u32::MAX as i64 || height_wide > u32::MAX as i64 {
        return Err(CaptureError::Unrepresentable);
    }
    let width = width_wide as u32;
    let height = height_wide as u32;
    let origin = PhysicalPoint::new(left as i32, top as i32);
    let byte_len = match rgba_len(width, height) {
        Ok(len) => len,
        Err(error) => {
            return Err(error);
        },
    };
    let mut rgba = opaque_black_buffer(byte_len);
    proof {
        assert(monitors@[0].width > 0);
        assert(width > 0 && height > 0);
        assert(width * height * 4 == (width * 4) * height) by (nonlinear_arith);
        assert((width * 4) * height >= width * 4) by (nonlinear_arith)
            requires
                height >= 1,
        ;
    }
    let destination_stride = width as usize * 4;
    let mut placed: usize = 0;
    while placed < count
        invariant
            count == monitors@.len(),
            placed <= count,
            left == min_left(monitors@, count as int),
            top == min_top(monitors@, count as int),
            width == max_right(monitors@, count as int) - left,
            height == max_bottom(monitors@, count as int) - top,
            destination_stride == width * 4,
            byte_len == rgba_byte_count(width as int, height as int),
            byte_len <= usize::MAX,
            forall|i: int| 0 <= i < count ==> !is_empty_capture(#[trigger] monitors@[i]),
            forall|i: int| 0 <= i < placed ==> !is_malformed_capture(#[trigger] monitors@[i]),
            forall|i: int|
                0 <= i < count ==> min_left(monitors@, count as int) <= #[trigger] monitors@[i].x
                    && min_top(monitors@, count as int) <= monitors@[i].y && monitors@[i].x
                    + monitors@[i].width <= max_right(monitors@, count as int) && monitors@[i].y
                    + monitors@[i].height <= max_bottom(monitors@, count as int),
            rgba@ == desktop_pixels(
                monitors@,
                left as int,
                top as int,
                destination_stride as int,
                byte_len as int,
                placed as int,
            ),
        decreases count - placed,
    {
        let monitor = &monitors[placed];
        proof {
            let m = monitors@[placed as int];
            assert(m.width <= width) by {
                assert(min_left(monitors@, count as int) <= m.x);
            }
            assert(m.width * m.height * 4 <= width * height * 4) by (nonlinear_arith)
                requires
                    m.width <= width,
                    m.height <= height,
            ;
            assert(m.width * 4 <= width * 4);
            assert((m.x - left) * 4 <= width * 4);
            lemma_desktop_len(
                monitors@,
                left as int,
                top as int,
                destination_stride as int,
                byte_len as int,
                placed as int,
            );
            assert((m.y - top) <= height);
            lemma_monitor_rows_fit(
                width as int,
                height as int,
                m.x - left,
                m.y - top,
                m.width as int,
                m.height as int,
            );
        }
        let outcome = composite_monitor(monitor, left, top, destination_stride, &mut rgba);
        match outcome {
            Ok(()) => {},
            Err(error) => {
                proof {
                    lemma_first_empty(monitors@, 0);
                    lemma_first_malformed(monitors@, 0);
                    assert(is_malformed_capture(monitors@[placed as int]));
                    if first_malformed(monitors@, 0) < placed {
                        assert(!is_malformed_capture(monitors@[first_malformed(monitors@, 0)]));
                    }
                }
                return Err(error);
            },
        }
        placed += 1;
    }
    proof {
        lemma_first_empty(monitors@, 0);
        lemma_first_malformed(monitors@, 0);
        lemma_desktop_len(
            monitors@,
            left as int,
            top as int,
            destination_stride as int,
            byte_len as int,
            count as int,
        );
    }
    match Frame::new(origin, width, height, rgba) {
        Ok(frame) => Ok(frame),
        Err(error) => Err(CaptureError::InvalidFrame(error)),
    }
}

/// `count` bytes of opaque black RGBA pixels.
pub fn opaque_black_buffer(count: usize) -> (pixels: Vec<u8>)
    ensures
        pixels@ == opaque_black(count as int),
{
    let mut pixels: Vec<u8> = Vec::new();
    let mut index: usize = 0;
    while index < count
        invariant
            index <= count,
            pixels@ == opaque_black(index as int),
        decreases count - index,
    {
        if index % 4 == 3 {
            pixels.push(255);
        } else {
            pixels.push(0);
        }
        proof {
            assert(pixels@ =~= opaque_black(index + 1));
        }
        index += 1;
    }
    pixels
}


/// Byte `i` of the opaque pixels GDI draws on: red and blue trade places
/// and alpha becomes opaque.
pub open spec fn opaque_swapped_byte(pixels: Seq<u8>, i: int) -> u8 {
    let channel = i % 4;
    let base = i - channel;
    if channel == 0 {
        pixels[base + 2]
    } else if channel == 1 {
        pixels[base + 1]
    } else if channel == 2 {
        pixels[base]
    } else {
        255
    }
}

/// `pixels` with red and blue swapped in every pixel and every pixel opaque.
pub open spec fn opaque_swapped(pixels: Seq<u8>) -> Seq<u8> {
    Seq::new(pixels.len(), |i: int| opaque_swapped_byte(pixels, i))
}

/// Writes `source` into `destination` with red and blue swapped and every
/// pixel opaque: the conversion between a frame's RGBA bytes and the 0RGB
/// memory that GDI draws the cursor on, in either direction.
pub fn swap_into_opaque(source: &[u8], destination: &mut [u8])
    requires
        source@.len() == old(destination)@.len(),
        source@.len() % 4 == 0,
    ensures
        final(destination)@ == opaque_swapped(source@),
{
    let length = source.len();
    let mut base: usize = 0;
    while base < length
        invariant
            length == source@.len(),
            length == destination@.len(),
            length % 4 == 0,
            base <= length,
            base % 4 == 0,
            forall|i: int| 0 <= i < base ==> destination@[i] == opaque_swapped_byte(source@, i),
        decreases length - base,
    {
        let red = source[base];
        let green = source[base + 1];
        let blue = source[base + 2];
        destination[base] = blue;
        destination[base + 1] = green;
        destination[base + 2] = red;
        destination[base + 3] = 255;
        base += 4;
    }
    proof {
        assert(destination@ =~= opaque_swapped(source@));
    }
}

} // verus!
