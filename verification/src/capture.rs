//! Geometry, bounds and handle discipline of an in-memory screen capture.
//!
//! A capture clamps its rectangle to the virtual desktop, refuses buffers that
//! are too large, and releases every graphics handle that it acquired,
//! whichever step fails.

use crate::extraction::ExtractionFailure;
use crate::geometry::{
    clamp_i32, max_i32, max_int, min_i32, min_int, saturating_add_i32, saturating_sub_i32,
    ScreenRect,
};
use vstd::prelude::*;

verus! {

pub const MAX_CAPTURE_DIMENSION: u32 = 8_192;

pub const MAX_CAPTURE_BYTES: usize = 67_108_864;

/// The lowest effective resolution that a monitor is taken to have.
pub const DEFAULT_DPI: u32 = 96;

/// A captured rectangle with its pixels: 32-bit BGRA, tightly packed, top to
/// bottom.
#[derive(Debug, PartialEq, Eq)]
pub struct CapturedPixels {
    pub rect: ScreenRect,
    pub width: u32,
    pub height: u32,
    pub bgra: Vec<u8>,
}

/// The size of a capture buffer is within both bounds.
pub open spec fn capture_fits(width: int, height: int) -> bool {
    0 < width <= MAX_CAPTURE_DIMENSION && 0 < height <= MAX_CAPTURE_DIMENSION && width * height * 4
        <= MAX_CAPTURE_BYTES
}

/// The number of bytes of a `width` by `height` capture, where it fits.
pub fn checked_capture_len(width: u32, height: u32) -> (len: Option<usize>)
    ensures
        len is Some <==> capture_fits(width as int, height as int),
        len matches Some(bytes) ==> bytes == width * height * 4,
{
    if width == 0 || height == 0 || width > MAX_CAPTURE_DIMENSION || height > MAX_CAPTURE_DIMENSION
    {
        return None;
    }
    assert(width * height <= 8_192 * 8_192) by (nonlinear_arith)
        requires
            width <= 8_192,
            height <= 8_192,
    ;
    let len: u64 = width as u64 * height as u64 * 4;
    if len <= MAX_CAPTURE_BYTES as u64 {
        Some(len as usize)
    } else {
        None
    }
}

/// `rect` with every edge moved outwards by `padding`, edges saturating.
pub fn inflate_rect(rect: ScreenRect, padding: i32) -> (inflated: ScreenRect)
    ensures
        inflated.left == clamp_i32(rect.left - padding),
        inflated.top == clamp_i32(rect.top - padding),
        inflated.right == clamp_i32(rect.right + padding),
        inflated.bottom == clamp_i32(rect.bottom + padding),
{
    ScreenRect::new(
        saturating_sub_i32(rect.left, padding),
        saturating_sub_i32(rect.top, padding),
        saturating_add_i32(rect.right, padding),
        saturating_add_i32(rect.bottom, padding),
    )
}

/// `rect` with its edges in order, cut to `bounds`; this may be empty.
pub open spec fn intersection(rect: ScreenRect, bounds: ScreenRect) -> ScreenRect {
    ScreenRect {
        left: max_int(min_int(rect.left as int, rect.right as int), bounds.left as int) as i32,
        top: max_int(min_int(rect.top as int, rect.bottom as int), bounds.top as int) as i32,
        right: min_int(max_int(rect.left as int, rect.right as int), bounds.right as int) as i32,
        bottom: min_int(max_int(rect.top as int, rect.bottom as int), bounds.bottom as int) as i32,
    }
}

/// The part of `rect`, its edges in either order, that lies in `bounds`.
pub fn clamp_rect(rect: ScreenRect, bounds: ScreenRect) -> (clamped: Option<ScreenRect>)
    ensures
        clamped is Some <==> intersection(rect, bounds).nonempty(),
        clamped matches Some(inner) ==> inner == intersection(rect, bounds),
{
    let left: i32 = max_i32(min_i32(rect.left, rect.right), bounds.left);
    let top: i32 = max_i32(min_i32(rect.top, rect.bottom), bounds.top);
    let right: i32 = min_i32(max_i32(rect.left, rect.right), bounds.right);
    let bottom: i32 = min_i32(max_i32(rect.top, rect.bottom), bounds.bottom);
    if right > left && bottom > top {
        Some(ScreenRect::new(left, top, right, bottom))
    } else {
        None
    }
}

/// A clamped rectangle lies in the bounds, and for a rectangle whose edges are
/// in order it holds exactly the pixels that the rectangle and the bounds share.
pub proof fn lemma_clamped_pixels_are_the_shared_pixels(
    rect: ScreenRect,
    bounds: ScreenRect,
    x: int,
    y: int,
)
    requires
        rect.left <= rect.right,
        rect.top <= rect.bottom,
    ensures
        intersection(rect, bounds).nonempty() ==> bounds.encloses(intersection(rect, bounds)),
        intersection(rect, bounds).covers(x, y) <==> rect.covers(x, y) && bounds.covers(x, y),
{
}

/// Clamping is idempotent: a clamped rectangle is not cut again.
pub proof fn lemma_clamping_is_idempotent(rect: ScreenRect, bounds: ScreenRect)
    requires
        intersection(rect, bounds).nonempty(),
    ensures
        intersection(intersection(rect, bounds), bounds) == intersection(rect, bounds),
{
}

/// The virtual desktop with its origin and size as the system reports them; a
/// size below one pixel counts as one pixel.
pub fn virtual_screen_bounds(left: i32, top: i32, width: i32, height: i32) -> (bounds: ScreenRect)
    ensures
        bounds.left == left,
        bounds.top == top,
        bounds.right == clamp_i32(left + max_int(width as int, 1)),
        bounds.bottom == clamp_i32(top + max_int(height as int, 1)),
{
    ScreenRect::new(
        left,
        top,
        saturating_add_i32(left, max_i32(width, 1)),
        saturating_add_i32(top, max_i32(height, 1)),
    )
}

/// The area of the monitor nearest to a point: the monitor's own rectangle, or
/// half of the coordinate space in every direction where none is known.
pub fn nearest_work_area(monitor: Option<ScreenRect>) -> (area: ScreenRect)
    ensures
        area == match monitor {
            Some(rect) => rect,
            None => ScreenRect {
                left: (-1_073_741_824) as i32,
                top: (-1_073_741_824) as i32,
                right: 1_073_741_823,
                bottom: 1_073_741_823,
            },
        },
{
    match monitor {
        Some(rect) => rect,
        None => ScreenRect::new(-1_073_741_824, -1_073_741_824, 1_073_741_823, 1_073_741_823),
    }
}

/// The effective resolution of a monitor from its reported value, never below
/// the default.
pub fn monitor_dpi(reported: Option<u32>) -> (dpi: u32)
    ensures
        dpi == match reported {
            Some(value) => if value < DEFAULT_DPI { DEFAULT_DPI } else { value },
            None => DEFAULT_DPI,
        },
{
    match reported {
        Some(value) => if value < DEFAULT_DPI {
            DEFAULT_DPI
        } else {
            value
        },
        None => DEFAULT_DPI,
    }
}

/// What a capture will copy: the clamped rectangle, its size and the length of
/// its buffer.
#[derive(Clone, Copy, Debug, PartialEq, Eq, Structural)]
pub struct CapturePlan {
    pub rect: ScreenRect,
    pub width: u32,
    pub height: u32,
    pub buffer_len: usize,
}

impl CapturePlan {
    /// The plan describes its rectangle, and its buffer is within the bounds.
    pub open spec fn wf(self) -> bool {
        &&& self.rect.nonempty()
        &&& self.width == self.rect.right - self.rect.left
        &&& self.height == self.rect.bottom - self.rect.top
        &&& capture_fits(self.width as int, self.height as int)
        &&& self.buffer_len == self.width * self.height * 4
    }
}

/// The plan for a capture of `rect` on a desktop with the bounds `desktop`.
pub fn plan_capture(rect: ScreenRect, desktop: ScreenRect) -> (plan: Result<
    CapturePlan,
    ExtractionFailure,
>)
    ensures
        ({
            let inner = intersection(rect, desktop);
            let width = inner.right - inner.left;
            let height = inner.bottom - inner.top;
            match plan {
                Ok(plan) => plan.wf() && plan.rect == inner,
                Err(failure) => if !inner.nonempty() {
                    failure == ExtractionFailure::EmptyRange
                } else {
                    failure == ExtractionFailure::Platform && !capture_fits(width, height)
                },
            }
        }),
{
    let inner = match clamp_rect(rect, desktop) {
        Some(inner) => inner,
        None => return Err(ExtractionFailure::EmptyRange),
    };
    let width: i32 = saturating_sub_i32(inner.right, inner.left);
    let height: i32 = saturating_sub_i32(inner.bottom, inner.top);
    match checked_capture_len(width as u32, height as u32) {
        Some(buffer_len) => Ok(
            CapturePlan { rect: inner, width: width as u32, height: height as u32, buffer_len },
        ),
        None => Err(ExtractionFailure::Platform),
    }
}

/// A graphics handle that a capture acquires.
#[derive(Clone, Copy, Debug, PartialEq, Eq, Structural)]
pub enum GdiHandle {
    ScreenDc,
    MemoryDc,
    Bitmap,
}

/// The steps of a capture, in order.
#[derive(Clone, Copy, Debug, PartialEq, Eq, Structural)]
pub enum CaptureStep {
    AcquireScreenDc,
    CreateMemoryDc,
    CreateBitmap,
    SelectBitmap,
    CopyPixels,
    /// Puts the previous object back; pixels are read only from a bitmap that
    /// is no longer selected.
    RestoreObject { copied: bool },
    ReadPixels,
}

/// What follows a step: the next one, or the end with the handles to release,
/// first to last.
#[derive(Debug, PartialEq, Eq)]
pub enum CaptureNext {
    Perform(CaptureStep),
    Finish { release: Vec<GdiHandle>, captured: bool },
}

/// The handles that are held while `step` runs.
pub open spec fn handles_held(step: CaptureStep) -> Seq<GdiHandle> {
    match step {
        CaptureStep::AcquireScreenDc => seq![],
        CaptureStep::CreateMemoryDc => seq![GdiHandle::ScreenDc],
        CaptureStep::CreateBitmap => seq![GdiHandle::MemoryDc, GdiHandle::ScreenDc],
        _ => seq![GdiHandle::Bitmap, GdiHandle::MemoryDc, GdiHandle::ScreenDc],
    }
}

/// The handle that `step` adds when it succeeds.
pub open spec fn handle_acquired(step: CaptureStep) -> Option<GdiHandle> {
    match step {
        CaptureStep::AcquireScreenDc => Some(GdiHandle::ScreenDc),
        CaptureStep::CreateMemoryDc => Some(GdiHandle::MemoryDc),
        CaptureStep::CreateBitmap => Some(GdiHandle::Bitmap),
        _ => None,
    }
}

/// The order in which the handles held at `step` are released: the reverse of
/// their acquisition, but the memory context goes before a bitmap that may
/// still be selected into it.
pub open spec fn release_order(step: CaptureStep) -> Seq<GdiHandle> {
    match step {
        CaptureStep::RestoreObject { .. } => seq![
            GdiHandle::MemoryDc,
            GdiHandle::Bitmap,
            GdiHandle::ScreenDc,
        ],
        _ => handles_held(step),
    }
}

/// The step after `step` succeeded or failed; `None` ends the capture. Failed
/// copying still restores the selection, and then nothing is read.
pub open spec fn step_after(step: CaptureStep, succeeded: bool) -> Option<CaptureStep> {
    match step {
        CaptureStep::AcquireScreenDc => if succeeded {
            Some(CaptureStep::CreateMemoryDc)
        } else {
            None
        },
        CaptureStep::CreateMemoryDc => if succeeded {
            Some(CaptureStep::CreateBitmap)
        } else {
            None
        },
        CaptureStep::CreateBitmap => if succeeded {
            Some(CaptureStep::SelectBitmap)
        } else {
            None
        },
        CaptureStep::SelectBitmap => if succeeded {
            Some(CaptureStep::CopyPixels)
        } else {
            None
        },
        CaptureStep::CopyPixels => Some(CaptureStep::RestoreObject { copied: succeeded }),
        CaptureStep::RestoreObject { copied } => if succeeded && copied {
            Some(CaptureStep::ReadPixels)
        } else {
            None
        },
        CaptureStep::ReadPixels => None,
    }
}

/// The handles released when the capture ends at `step`.
pub open spec fn released_at_end(step: CaptureStep, succeeded: bool) -> Seq<GdiHandle> {
    if step is RestoreObject && succeeded {
        handles_held(step)
    } else {
        release_order(step)
    }
}

/// Advances a capture past `step`.
pub fn capture_step(step: CaptureStep, succeeded: bool) -> (next: CaptureNext)
    ensures
        match next {
            CaptureNext::Perform(following) => step_after(step, succeeded) == Some(following),
            CaptureNext::Finish { release, captured } => {
                &&& step_after(step, succeeded) is None
                &&& release@ == released_at_end(step, succeeded)
                &&& captured == (step is ReadPixels && succeeded)
            },
        },
{
    let mut release: Vec<GdiHandle> = Vec::new();
    match step {
        CaptureStep::AcquireScreenDc => {
            if succeeded {
                return CaptureNext::Perform(CaptureStep::CreateMemoryDc);
            }
        },
        CaptureStep::CreateMemoryDc => {
            if succeeded {
                return CaptureNext::Perform(CaptureStep::CreateBitmap);
            }
            release.push(GdiHandle::ScreenDc);
        },
        CaptureStep::CreateBitmap => {
            if succeeded {
                return CaptureNext::Perform(CaptureStep::SelectBitmap);
            }
            release.push(GdiHandle::MemoryDc);
            release.push(GdiHandle::ScreenDc);
        },
        CaptureStep::SelectBitmap => {
            if succeeded {
                return CaptureNext::Perform(CaptureStep::CopyPixels);
            }
            release.push(GdiHandle::Bitmap);
            release.push(GdiHandle::MemoryDc);
            release.push(GdiHandle::ScreenDc);
        },
        CaptureStep::CopyPixels => {
            return CaptureNext::Perform(CaptureStep::RestoreObject { copied: succeeded });
        },
        CaptureStep::RestoreObject { copied } => {
            if succeeded && copied {
                return CaptureNext::Perform(CaptureStep::ReadPixels);
            }
            if succeeded {
                release.push(GdiHandle::Bitmap);
                release.push(GdiHandle::MemoryDc);
            } else {
                release.push(GdiHandle::MemoryDc);
                release.push(GdiHandle::Bitmap);
            }
            release.push(GdiHandle::ScreenDc);
        },
        CaptureStep::ReadPixels => {
            release.push(GdiHandle::Bitmap);
            release.push(GdiHandle::MemoryDc);
            release.push(GdiHandle::ScreenDc);
        },
    }
    let captured: bool = match step {
        CaptureStep::ReadPixels => succeeded,
        _ => false,
    };
    CaptureNext::Finish { release, captured }
}

/// A capture owns every handle that it acquires: whichever step ends it, each
/// handle acquired so far is released exactly once, and a step that continues
/// adds only the handle that it acquired.
pub proof fn lemma_capture_releases_every_handle(step: CaptureStep, succeeded: bool)
    ensures
        match step_after(step, succeeded) {
            None => released_at_end(step, succeeded).to_multiset() == handles_held(
                step,
            ).to_multiset() && (succeeded ==> handle_acquired(step) is None),
            Some(following) => handles_held(following).to_multiset() == match handle_acquired(
                step,
            ) {
                Some(handle) => handles_held(step).to_multiset().insert(handle),
                None => handles_held(step).to_multiset(),
            },
        },
{
    broadcast use vstd::seq_lib::group_to_multiset_ensures;

    let screen = seq![GdiHandle::ScreenDc];
    let memory = seq![GdiHandle::MemoryDc, GdiHandle::ScreenDc];
    let all = seq![GdiHandle::Bitmap, GdiHandle::MemoryDc, GdiHandle::ScreenDc];
    let swapped = seq![GdiHandle::MemoryDc, GdiHandle::Bitmap, GdiHandle::ScreenDc];
    let none = Seq::<GdiHandle>::empty();
    assert(none.insert(0, GdiHandle::ScreenDc) =~= screen);
    assert(screen.insert(0, GdiHandle::MemoryDc) =~= memory);
    assert(memory.insert(0, GdiHandle::Bitmap) =~= all);
    assert(memory.insert(1, GdiHandle::Bitmap) =~= swapped);
    assert(none.to_multiset() =~= vstd::multiset::Multiset::empty());
}

/// The pixels that a finished capture hands over: a complete buffer, or the
/// failure that every failed step stands for.
pub fn finish_capture(plan: CapturePlan, captured: bool, bgra: Vec<u8>) -> (pixels: Result<
    CapturedPixels,
    ExtractionFailure,
>)
    requires
        plan.wf(),
        bgra@.len() == plan.buffer_len,
    ensures
        match pixels {
            Ok(pixels) => {
                &&& captured
                &&& pixels.rect == plan.rect
                &&& pixels.width == plan.width
                &&& pixels.height == plan.height
                &&& pixels.bgra@ == bgra@
            },
            Err(failure) => !captured && failure == ExtractionFailure::Platform,
        },
{
    if captured {
        Ok(CapturedPixels { rect: plan.rect, width: plan.width, height: plan.height, bgra })
    } else {
        Err(ExtractionFailure::Platform)
    }
}

// What the rules above are for.

/// A capture has at least one pixel, at most 8192 on each side and 64 MiB in
/// all; whatever keeps to that is captured.
pub proof fn lemma_how_much_is_captured(width: int, height: int)
    ensures
        capture_fits(width, height) ==> 1 <= width <= 8192 && 1 <= height <= 8192 && width * height
            * 4 <= 64 * 1024 * 1024,
        1 <= width <= 4096 && 1 <= height <= 4096 ==> capture_fits(width, height),
        1 <= width <= 8192 && 1 <= height <= 2048 ==> capture_fits(width, height),
        !capture_fits(0, height),
        !capture_fits(width, 0),
        !capture_fits(8193, height),
        !capture_fits(width, 8193),
        !capture_fits(8192, 8192),
{
    if 1 <= width <= 4096 && 1 <= height <= 4096 {
        assert(width * height <= 4096 * 4096) by (nonlinear_arith)
            requires
                1 <= width <= 4096,
                1 <= height <= 4096,
        ;
    }
    if 1 <= width <= 8192 && 1 <= height <= 2048 {
        assert(width * height <= 8192 * 2048) by (nonlinear_arith)
            requires
                1 <= width <= 8192,
                1 <= height <= 2048,
        ;
    }
}

/// A plan is the part of the rectangle that lies on the desktop, with a buffer
/// of four bytes for each of its pixels; what lies outside is empty.
pub proof fn lemma_what_a_plan_covers(
    rect: ScreenRect,
    desktop: ScreenRect,
    plan: Result<CapturePlan, ExtractionFailure>,
    x: int,
    y: int,
)
    requires
        rect.left <= rect.right,
        rect.top <= rect.bottom,
        call_ensures(plan_capture, (rect, desktop), plan),
    ensures
        plan matches Ok(plan) ==> {
            &&& plan.rect.covers(x, y) <==> rect.covers(x, y) && desktop.covers(x, y)
            &&& plan.width == plan.rect.right - plan.rect.left
            &&& plan.height == plan.rect.bottom - plan.rect.top
            &&& plan.buffer_len == 4 * (plan.width * plan.height)
            &&& plan.width >= 1 && plan.height >= 1
        },
        rect.covers(x, y) && desktop.covers(x, y) ==> plan
            != Err::<CapturePlan, ExtractionFailure>(ExtractionFailure::EmptyRange),
        desktop.encloses(rect) && rect.nonempty() && rect.right - rect.left <= 4096 && rect.bottom
            - rect.top <= 4096 ==> plan is Ok,
        rect.right <= desktop.left || desktop.right <= rect.left || rect.bottom <= desktop.top
            || desktop.bottom <= rect.top ==> plan == Err::<CapturePlan, ExtractionFailure>(
            ExtractionFailure::EmptyRange,
        ),
{
    lemma_clamped_pixels_are_the_shared_pixels(rect, desktop, x, y);
    let inner = intersection(rect, desktop);
    lemma_how_much_is_captured(inner.right - inner.left, inner.bottom - inner.top);
}

/// A capture that works copies the pixels while the bitmap is selected, puts
/// the old object back, and reads the pixels last; a copy that failed is not
/// read, but the object is put back all the same.
pub proof fn lemma_a_capture_goes_in_order(copied: bool)
    ensures
        step_after(CaptureStep::AcquireScreenDc, true) == Some(CaptureStep::CreateMemoryDc),
        step_after(CaptureStep::CreateMemoryDc, true) == Some(CaptureStep::CreateBitmap),
        step_after(CaptureStep::CreateBitmap, true) == Some(CaptureStep::SelectBitmap),
        step_after(CaptureStep::SelectBitmap, true) == Some(CaptureStep::CopyPixels),
        step_after(CaptureStep::CopyPixels, copied) == Some(CaptureStep::RestoreObject { copied }),
        step_after(CaptureStep::RestoreObject { copied: true }, true) == Some(
            CaptureStep::ReadPixels,
        ),
        step_after(CaptureStep::RestoreObject { copied: false }, true) is None,
        step_after(CaptureStep::RestoreObject { copied }, false) is None,
        step_after(CaptureStep::ReadPixels, copied) is None,
{
}

/// Pixels were captured only where the last step read them; a step that fails
/// before the copy ends the capture.
pub proof fn lemma_only_read_pixels_are_captured(step: CaptureStep, succeeded: bool, next: CaptureNext)
    requires
        call_ensures(capture_step, (step, succeeded), next),
    ensures
        next matches CaptureNext::Finish { captured, .. } ==> (captured <==> step
            == CaptureStep::ReadPixels && succeeded),
        !succeeded && step != CaptureStep::CopyPixels ==> next is Finish,
        step == CaptureStep::CopyPixels ==> next is Perform,
{
}

/// The image that comes out is the planned one, with the bytes that were read;
/// without any it is a failure.
pub proof fn lemma_the_planned_pixels_come_out(
    plan: CapturePlan,
    captured: bool,
    bgra: Vec<u8>,
    pixels: Result<CapturedPixels, ExtractionFailure>,
)
    requires
        call_ensures(finish_capture, (plan, captured, bgra), pixels),
    ensures
        pixels is Ok <==> captured,
        pixels matches Ok(image) ==> image.bgra@ == bgra@ && image.rect == plan.rect && image.width
            == plan.width && image.height == plan.height,
        pixels matches Err(failure) ==> failure == ExtractionFailure::Platform,
{
}

/// A resolution is at least 96 dots per inch, which also stands for an unknown
/// one; without a monitor the work area is as good as unbounded.
pub proof fn lemma_an_unknown_monitor_is_an_ordinary_one(
    reported: u32,
    known: u32,
    unknown: u32,
    area: ScreenRect,
    found: ScreenRect,
    nothing: ScreenRect,
)
    requires
        call_ensures(monitor_dpi, (Some(reported),), known),
        call_ensures(monitor_dpi, (None,), unknown),
        call_ensures(nearest_work_area, (Some(area),), found),
        call_ensures(nearest_work_area, (None,), nothing),
    ensures
        known >= 96 && known >= reported && (known == 96 || known == reported),
        unknown == 96,
        found == area,
        nothing.covers(0, 0) && nothing.covers(-100_000, 100_000) && nothing.covers(
            100_000,
            -100_000,
        ),
{
}

/// A rectangle that shares pixels with the bounds is cut to them, one that
/// does not is gone; a screen has at least one pixel.
pub proof fn lemma_a_rectangle_is_cut_to_the_screen(
    rect: ScreenRect,
    bounds: ScreenRect,
    clamped: Option<ScreenRect>,
    left: i32,
    top: i32,
    width: i32,
    height: i32,
    screen: ScreenRect,
    x: int,
    y: int,
)
    requires
        rect.left <= rect.right,
        rect.top <= rect.bottom,
        left < i32::MAX && top < i32::MAX,
        call_ensures(clamp_rect, (rect, bounds), clamped),
        call_ensures(virtual_screen_bounds, (left, top, width, height), screen),
    ensures
        clamped matches Some(inner) ==> (inner.covers(x, y) <==> rect.covers(x, y) && bounds.covers(
            x,
            y,
        )),
        rect.covers(x, y) && bounds.covers(x, y) ==> clamped is Some,
        rect.right <= bounds.left || bounds.right <= rect.left ==> clamped is None,
        screen.left == left && screen.top == top && screen.nonempty(),
        1 <= width && left + width <= i32::MAX ==> screen.right - screen.left == width,
        1 <= height && top + height <= i32::MAX ==> screen.bottom - screen.top == height,
{
    lemma_clamped_pixels_are_the_shared_pixels(rect, bounds, x, y);
}

} // verus!
