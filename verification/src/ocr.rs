//! Optical character recognition: the crop to recognize, the words a trigger
//! means, and the sentence around them.
//!
//! Recognized boxes have single-precision coordinates. Here a coordinate is
//! kept by its bits and compared by its place in the order of the numbers;
//! what takes arithmetic on coordinates is handed in as a result.

use crate::extraction::{ExtractionFailure, TriggerKind};
use crate::capture::{inflate_rect, DEFAULT_DPI};
use crate::geometry::{
    clamp_i32, max_int, min_int, saturating_add_i32, saturating_sub_i32, ScreenPoint, ScreenRect,
};
use vstd::prelude::*;

verus! {

/// How long a recognition may take, in nanoseconds.
pub const OCR_REQUEST_TIMEOUT: u64 = 3_000_000_000;

/// How long one wait for a recognition lasts, in nanoseconds.
pub const OCR_WAIT_SLICE: u64 = 20_000_000;

pub const MANUAL_POINTER_WIDTH: i32 = 960;

pub const MANUAL_POINTER_HEIGHT: i32 = 320;

pub const HOVER_CONTEXT_WIDTH: i32 = 1_536;

pub const HOVER_CONTEXT_HEIGHT: i32 = 384;

// Coordinates.

/// A single-precision coordinate by its bits.
#[derive(Clone, Copy, Debug, PartialEq, Eq, Structural)]
pub struct Coordinate {
    pub bits: u32,
}

impl Coordinate {
    /// The bits without the sign.
    pub open spec fn magnitude(self) -> int {
        self.bits as int % 0x8000_0000
    }

    pub open spec fn is_nan(self) -> bool {
        self.magnitude() > 0x7f80_0000
    }

    pub open spec fn finite(self) -> bool {
        self.magnitude() < 0x7f80_0000
    }

    /// The place of the number in the order of the numbers; both zeros have
    /// the same.
    pub open spec fn rank(self) -> int {
        if self.bits >= 0x8000_0000 {
            -self.magnitude()
        } else {
            self.magnitude()
        }
    }

    pub open spec fn less(self, other: Coordinate) -> bool {
        !self.is_nan() && !other.is_nan() && self.rank() < other.rank()
    }

    pub open spec fn at_most(self, other: Coordinate) -> bool {
        !self.is_nan() && !other.is_nan() && self.rank() <= other.rank()
    }

    pub fn from_bits(bits: u32) -> (coordinate: Coordinate)
        ensures
            coordinate.bits == bits,
    {
        Coordinate { bits }
    }

    pub fn is_finite(self) -> (finite: bool)
        ensures
            finite == self.finite(),
    {
        self.bits % 0x8000_0000 < 0x7f80_0000
    }

    fn order(self) -> (rank: Option<i64>)
        ensures
            rank == if self.is_nan() {
                None
            } else {
                Some(self.rank() as i64)
            },
    {
        let magnitude: i64 = (self.bits % 0x8000_0000) as i64;
        if magnitude > 0x7f80_0000 {
            None
        } else if self.bits >= 0x8000_0000 {
            Some(-magnitude)
        } else {
            Some(magnitude)
        }
    }

    /// The number is less than the other.
    pub fn lt(self, other: Coordinate) -> (less: bool)
        ensures
            less == self.less(other),
    {
        match (self.order(), other.order()) {
            (Some(a), Some(b)) => a < b,
            _ => false,
        }
    }

    /// The number is less than the other or equal to it.
    pub fn le(self, other: Coordinate) -> (at_most: bool)
        ensures
            at_most == self.at_most(other),
    {
        match (self.order(), other.order()) {
            (Some(a), Some(b)) => a <= b,
            _ => false,
        }
    }
}

/// The edges of a recognized box.
#[derive(Clone, Copy, Debug, PartialEq, Eq, Structural)]
pub struct Bounds {
    pub left: Coordinate,
    pub top: Coordinate,
    pub right: Coordinate,
    pub bottom: Coordinate,
}

impl Bounds {
    /// The edges are finite and in order.
    pub open spec fn valid(self) -> bool {
        &&& self.left.finite() && self.top.finite() && self.right.finite() && self.bottom.finite()
        &&& self.left.less(self.right)
        &&& self.top.less(self.bottom)
    }

    /// The point lies in the box; the right and bottom edges are outside.
    pub open spec fn holds(self, x: Coordinate, y: Coordinate) -> bool {
        self.left.at_most(x) && x.less(self.right) && self.top.at_most(y) && y.less(self.bottom)
    }

    /// The boxes touch or overlap.
    pub open spec fn meets(self, other: Bounds) -> bool {
        other.left.at_most(self.right) && self.left.at_most(other.right) && other.top.at_most(
            self.bottom,
        ) && self.top.at_most(other.bottom)
    }

    /// The smallest box around both.
    pub open spec fn union(self, other: Bounds) -> Bounds {
        Bounds {
            left: if other.left.less(self.left) {
                other.left
            } else {
                self.left
            },
            top: if other.top.less(self.top) {
                other.top
            } else {
                self.top
            },
            right: if self.right.less(other.right) {
                other.right
            } else {
                self.right
            },
            bottom: if self.bottom.less(other.bottom) {
                other.bottom
            } else {
                self.bottom
            },
        }
    }
}

pub fn valid_line_bounds(bounds: Bounds) -> (valid: bool)
    ensures
        valid == bounds.valid(),
{
    bounds.left.is_finite() && bounds.top.is_finite() && bounds.right.is_finite()
        && bounds.bottom.is_finite() && bounds.left.lt(bounds.right) && bounds.top.lt(bounds.bottom)
}

pub(crate) fn union_of(a: Bounds, b: Bounds) -> (both: Bounds)
    ensures
        both == a.union(b),
{
    Bounds {
        left: if b.left.lt(a.left) {
            b.left
        } else {
            a.left
        },
        top: if b.top.lt(a.top) {
            b.top
        } else {
            a.top
        },
        right: if a.right.lt(b.right) {
            b.right
        } else {
            a.right
        },
        bottom: if a.bottom.lt(b.bottom) {
            b.bottom
        } else {
            a.bottom
        },
    }
}

// The crop.

pub open spec fn scaled(logical: int, dpi: int) -> int {
    min_int(max_int(logical, 1) * max_int(dpi, DEFAULT_DPI as int) / 96, i32::MAX as int)
}

fn scale_length(logical: i32, dpi: u32) -> (length: i32)
    ensures
        length == scaled(logical as int, dpi as int),
        length >= 0,
{
    let dpi: u64 = if dpi < DEFAULT_DPI {
        DEFAULT_DPI as u64
    } else {
        dpi as u64
    };
    let logical: u64 = if logical < 1 {
        1
    } else {
        logical as u64
    };
    assert(logical * dpi <= 0x8000_0000 * 0x1_0000_0000) by (nonlinear_arith)
        requires
            logical <= 0x8000_0000,
            dpi <= 0x1_0000_0000,
    ;
    let length: u64 = logical * dpi / 96;
    if length > i32::MAX as u64 {
        i32::MAX
    } else {
        length as i32
    }
}

/// The rectangle of a logical size, scaled to the resolution, around a point.
pub open spec fn rect_around(pointer: ScreenPoint, half_width: int, half_height: int) -> ScreenRect {
    ScreenRect {
        left: clamp_i32(pointer.x - half_width) as i32,
        top: clamp_i32(pointer.y - half_height) as i32,
        right: clamp_i32(pointer.x + half_width) as i32,
        bottom: clamp_i32(pointer.y + half_height) as i32,
    }
}

pub fn pointer_rect_for_dpi(
    pointer: ScreenPoint,
    logical_width: i32,
    logical_height: i32,
    dpi: u32,
) -> (rect: ScreenRect)
    ensures
        rect == rect_around(
            pointer,
            scaled(logical_width as int, dpi as int) / 2,
            scaled(logical_height as int, dpi as int) / 2,
        ),
{
    let half_width: i32 = scale_length(logical_width, dpi) / 2;
    let half_height: i32 = scale_length(logical_height, dpi) / 2;
    ScreenRect::new(
        saturating_sub_i32(pointer.x, half_width),
        saturating_sub_i32(pointer.y, half_height),
        saturating_add_i32(pointer.x, half_width),
        saturating_add_i32(pointer.y, half_height),
    )
}

/// Bounded padding, scaled to the resolution: wide enough for the rest of a
/// sentence, and shallow.
pub fn selection_context_padding(dpi: u32) -> (padding: (i32, i32))
    ensures
        padding.0 == min_int(480 * max_int(dpi as int, 96) / 96, 1_536),
        padding.1 == min_int(48 * max_int(dpi as int, 96) / 96, 256),
{
    let scale: u64 = if dpi < DEFAULT_DPI {
        DEFAULT_DPI as u64
    } else {
        dpi as u64
    };
    let horizontal: u64 = 480 * scale / 96;
    let vertical: u64 = 48 * scale / 96;
    (
        if horizontal > 1_536 {
            1_536
        } else {
            horizontal as i32
        },
        if vertical > 256 {
            256
        } else {
            vertical as i32
        },
    )
}

/// A selected rectangle with room for the sentence around it.
pub open spec fn context_rect(rect: ScreenRect, dpi: int) -> ScreenRect {
    let horizontal = min_int(480 * max_int(dpi, 96) / 96, 1_536);
    let vertical = min_int(48 * max_int(dpi, 96) / 96, 256);
    ScreenRect {
        left: clamp_i32(rect.left - horizontal) as i32,
        top: clamp_i32(rect.top - vertical) as i32,
        right: clamp_i32(rect.right + horizontal) as i32,
        bottom: clamp_i32(rect.bottom + vertical) as i32,
    }
}

pub fn selection_context_rect_for_dpi(rect: ScreenRect, dpi: u32) -> (context: ScreenRect)
    ensures
        context == context_rect(rect, dpi as int),
{
    let (horizontal, vertical) = selection_context_padding(dpi);
    ScreenRect::new(
        saturating_sub_i32(rect.left, horizontal),
        saturating_sub_i32(rect.top, vertical),
        saturating_add_i32(rect.right, horizontal),
        saturating_add_i32(rect.bottom, vertical),
    )
}

/// The context of a selection always covers the selection.
pub proof fn lemma_context_encloses_the_selection(rect: ScreenRect, dpi: int)
    ensures
        context_rect(rect, dpi).encloses(rect),
{
}

/// Half of a sum, rounded towards zero.
pub open spec fn half(sum: int) -> int {
    if sum >= 0 {
        sum / 2
    } else {
        -((-sum) / 2)
    }
}

/// The point whose monitor decides the resolution for a selected rectangle.
pub fn selection_center(rect: ScreenRect) -> (center: ScreenPoint)
    ensures
        center.x == half(rect.left + rect.right),
        center.y == half(rect.top + rect.bottom),
{
    let x: i64 = rect.left as i64 + rect.right as i64;
    let y: i64 = rect.top as i64 + rect.bottom as i64;
    let center_x: i64 = if x >= 0 {
        x / 2
    } else {
        -((-x) / 2)
    };
    let center_y: i64 = if y >= 0 {
        y / 2
    } else {
        -((-y) / 2)
    };
    ScreenPoint::new(center_x as i32, center_y as i32)
}

/// The crops of the three triggers.
pub struct OcrExtractor;

impl OcrExtractor {
    pub fn selection_rect(rect: ScreenRect) -> (inflated: ScreenRect)
        ensures
            inflated.left == clamp_i32(rect.left - 16),
            inflated.top == clamp_i32(rect.top - 16),
            inflated.right == clamp_i32(rect.right + 16),
            inflated.bottom == clamp_i32(rect.bottom + 16),
    {
        inflate_rect(rect, 16)
    }

    pub fn selection_context_rect(rect: ScreenRect, dpi: u32) -> (context: ScreenRect)
        ensures
            context == context_rect(rect, dpi as int),
    {
        selection_context_rect_for_dpi(rect, dpi)
    }

    pub fn manual_rect(selection_rect: Option<ScreenRect>, pointer: ScreenPoint, dpi: u32) -> (rect:
        ScreenRect)
        ensures
            rect == match selection_rect {
                Some(selected) => context_rect(selected, dpi as int),
                None => rect_around(
                    pointer,
                    scaled(MANUAL_POINTER_WIDTH as int, dpi as int) / 2,
                    scaled(MANUAL_POINTER_HEIGHT as int, dpi as int) / 2,
                ),
            },
    {
        match selection_rect {
            Some(selected) => selection_context_rect_for_dpi(selected, dpi),
            None => pointer_rect_for_dpi(pointer, MANUAL_POINTER_WIDTH, MANUAL_POINTER_HEIGHT, dpi),
        }
    }

    pub fn hover_rect(pointer: ScreenPoint, dpi: u32) -> (rect: ScreenRect)
        ensures
            rect == rect_around(
                pointer,
                scaled(HOVER_CONTEXT_WIDTH as int, dpi as int) / 2,
                scaled(HOVER_CONTEXT_HEIGHT as int, dpi as int) / 2,
            ),
    {
        pointer_rect_for_dpi(pointer, HOVER_CONTEXT_WIDTH, HOVER_CONTEXT_HEIGHT, dpi)
    }
}

/// The point whose monitor gives the resolution of a crop: the middle of the
/// selected rectangle, or the pointer. A selection needs its rectangle, the
/// other triggers need the pointer.
pub fn crop_anchor(
    trigger: TriggerKind,
    pointer: Option<ScreenPoint>,
    selection_rect: Option<ScreenRect>,
) -> (anchor: Result<ScreenPoint, ExtractionFailure>)
    ensures
        match anchor {
            Ok(point) => match trigger {
                TriggerKind::Hover => pointer == Some(point),
                _ => match selection_rect {
                    Some(rect) => {
                        &&& trigger == TriggerKind::Manual ==> pointer is Some
                        &&& point.x == half(rect.left + rect.right)
                        &&& point.y == half(rect.top + rect.bottom)
                    },
                    None => trigger == TriggerKind::Manual && pointer == Some(point),
                },
            },
            Err(failure) => failure == ExtractionFailure::EmptyRange && if trigger
                == TriggerKind::Selection {
                selection_rect is None
            } else {
                pointer is None
            },
        },
{
    match trigger {
        TriggerKind::Selection => match selection_rect {
            Some(rect) => Ok(selection_center(rect)),
            None => Err(ExtractionFailure::EmptyRange),
        },
        TriggerKind::Manual => match pointer {
            Some(point) => match selection_rect {
                Some(rect) => Ok(selection_center(rect)),
                None => Ok(point),
            },
            None => Err(ExtractionFailure::EmptyRange),
        },
        TriggerKind::Hover => match pointer {
            Some(point) => Ok(point),
            None => Err(ExtractionFailure::EmptyRange),
        },
    }
}

/// The rectangle to capture, at the resolution of its anchor's monitor.
pub fn crop_rect(
    trigger: TriggerKind,
    pointer: Option<ScreenPoint>,
    selection_rect: Option<ScreenRect>,
    dpi: u32,
) -> (rect: Result<ScreenRect, ExtractionFailure>)
    ensures
        rect == match trigger {
            TriggerKind::Selection => match selection_rect {
                Some(selected) => Ok(context_rect(selected, dpi as int)),
                None => Err(ExtractionFailure::EmptyRange),
            },
            TriggerKind::Manual => match (pointer, selection_rect) {
                (Some(_), Some(selected)) => Ok(context_rect(selected, dpi as int)),
                (Some(point), None) => Ok(
                    rect_around(
                        point,
                        scaled(MANUAL_POINTER_WIDTH as int, dpi as int) / 2,
                        scaled(MANUAL_POINTER_HEIGHT as int, dpi as int) / 2,
                    ),
                ),
                (None, _) => Err(ExtractionFailure::EmptyRange),
            },
            TriggerKind::Hover => match pointer {
                Some(point) => Ok(
                    rect_around(
                        point,
                        scaled(HOVER_CONTEXT_WIDTH as int, dpi as int) / 2,
                        scaled(HOVER_CONTEXT_HEIGHT as int, dpi as int) / 2,
                    ),
                ),
                None => Err(ExtractionFailure::EmptyRange),
            },
        },
{
    match trigger {
        TriggerKind::Selection => match selection_rect {
            Some(selected) => Ok(OcrExtractor::selection_context_rect(selected, dpi)),
            None => Err(ExtractionFailure::EmptyRange),
        },
        TriggerKind::Manual => match pointer {
            Some(point) => Ok(OcrExtractor::manual_rect(selection_rect, point, dpi)),
            None => Err(ExtractionFailure::EmptyRange),
        },
        TriggerKind::Hover => match pointer {
            Some(point) => Ok(OcrExtractor::hover_rect(point, dpi)),
            None => Err(ExtractionFailure::EmptyRange),
        },
    }
}

// The image.

/// The number of bytes of a tightly packed image, where it can be counted.
pub fn expected_bgra8_len(width: u32, height: u32) -> (len: Option<usize>)
    ensures
        len == if width * height * 4 <= usize::MAX {
            Some((width * height * 4) as usize)
        } else {
            None
        },
{
    assert(0 <= width * height <= 0xffff_ffff * 0xffff_ffff) by (nonlinear_arith)
        requires
            0 <= width <= 0xffff_ffff,
            0 <= height <= 0xffff_ffff,
    ;
    let len: u128 = width as u128 * height as u128 * 4;
    if len <= usize::MAX as u128 {
        Some(len as usize)
    } else {
        None
    }
}

/// The buffer is exactly that of an image whose sides are positive and fit in
/// `i32`.
pub open spec fn is_bgra8_image(width: u32, height: u32, actual: int) -> bool {
    width * height * 4 == actual && 0 < width <= i32::MAX && 0 < height <= i32::MAX
}

pub fn has_exact_bgra8_len(width: u32, height: u32, actual: usize) -> (exact: bool)
    ensures
        exact == is_bgra8_image(width, height, actual as int),
{
    let matching: bool = match expected_bgra8_len(width, height) {
        Some(len) => len == actual,
        None => false,
    };
    matching && width > 0 && height > 0 && width <= i32::MAX as u32 && height <= i32::MAX as u32
}

/// An image can be recognized: its buffer is exact and no side exceeds what the
/// recognizer takes.
pub fn check_image(width: u32, height: u32, actual: usize, max_dimension: u32) -> (checked: Result<
    (),
    ExtractionFailure,
>)
    ensures
        checked == if is_bgra8_image(width, height, actual as int) && width <= max_dimension
            && height <= max_dimension {
            Ok(())
        } else {
            Err(ExtractionFailure::Platform)
        },
{
    if !has_exact_bgra8_len(width, height, actual) {
        return Err(ExtractionFailure::Platform);
    }
    if width > max_dimension || height > max_dimension {
        return Err(ExtractionFailure::Platform);
    }
    Ok(())
}

/// The buffer handed to the recognizer has the length of the image.
pub fn check_buffer(width: u32, height: u32, buffer_len: u32) -> (checked: Result<
    (),
    ExtractionFailure,
>)
    ensures
        checked == if width * height * 4 <= usize::MAX && width * height * 4 == buffer_len {
            Ok(())
        } else {
            Err(ExtractionFailure::Platform)
        },
{
    match expected_bgra8_len(width, height) {
        Some(len) => if len as u64 == buffer_len as u64 {
            Ok(())
        } else {
            Err(ExtractionFailure::Platform)
        },
        None => Err(ExtractionFailure::Platform),
    }
}

// The recognizer's worker.

/// A recognition that an earlier request started.
#[derive(Clone, Copy, Debug, PartialEq, Eq, Structural)]
pub enum OcrWorker {
    Idle,
    Finished,
    Running,
}

/// A recognition may start unless it is cancelled or one still runs: at most
/// one recognition that does not return is ever waited for.
pub fn admit_recognition(cancelled: bool, worker: OcrWorker) -> (admitted: Result<
    (),
    ExtractionFailure,
>)
    ensures
        admitted == if cancelled || worker == OcrWorker::Running {
            Err(ExtractionFailure::Platform)
        } else {
            Ok(())
        },
{
    if cancelled || worker == OcrWorker::Running {
        Err(ExtractionFailure::Platform)
    } else {
        Ok(())
    }
}

/// How long to wait next for a recognition, in nanoseconds.
pub fn recognition_wait(cancelled: bool, now: u64, deadline: u64) -> (wait: Result<
    u64,
    ExtractionFailure,
>)
    ensures
        wait == if cancelled || now > deadline {
            Err(ExtractionFailure::Platform)
        } else {
            Ok(min_int(deadline - now, OCR_WAIT_SLICE as int) as u64)
        },
{
    if cancelled || now > deadline {
        return Err(ExtractionFailure::Platform);
    }
    let remaining: u64 = deadline - now;
    Ok(
        if remaining <= OCR_WAIT_SLICE {
            remaining
        } else {
            OCR_WAIT_SLICE
        },
    )
}

// Words under the pointer and in the selection.

/// A recognized word with its box in the crop.
#[derive(Debug, PartialEq, Eq)]
pub struct WordBox {
    pub text: String,
    pub bounds: Bounds,
}

/// The word lies directly under the point.
pub open spec fn is_under(words: Seq<WordBox>, i: int, x: Coordinate, y: Coordinate) -> bool {
    0 <= i < words.len() && words[i].bounds.valid() && words[i].bounds.holds(x, y)
}

/// The first word whose valid box holds the point. A nearby word is no
/// evidence that the pointer is over text.
pub fn hover_word(words: &[WordBox], x: Coordinate, y: Coordinate) -> (word: Option<usize>)
    ensures
        match word {
            Some(i) => {
                &&& x.finite() && y.finite()
                &&& is_under(words@, i as int, x, y)
                &&& forall|j: int| 0 <= j < i ==> !is_under(words@, j, x, y)
            },
            None => !x.finite() || !y.finite() || forall|j: int| !is_under(words@, j, x, y),
        },
{
    if !x.is_finite() || !y.is_finite() {
        return None;
    }
    let mut i: usize = 0;
    while i < words.len()
        invariant
            i <= words@.len(),
            x.finite() && y.finite(),
            forall|j: int| 0 <= j < i ==> !is_under(words@, j, x, y),
        decreases words@.len() - i,
    {
        let bounds: Bounds = words[i].bounds;
        if valid_line_bounds(bounds) && bounds.left.le(x) && x.lt(bounds.right) && bounds.top.le(y)
            && y.lt(bounds.bottom) {
            return Some(i);
        }
        i = i + 1;
    }
    None
}

/// The index of the least distance: an earlier one stays unless a later one is
/// less. Distances that are no numbers displace nothing and are not displaced.
pub open spec fn least_distance(distances: Seq<Coordinate>) -> Option<int>
    decreases distances.len(),
{
    if distances.len() == 0 {
        None
    } else {
        match least_distance(distances.drop_last()) {
            None => Some(0),
            Some(best) => if distances.last().less(distances[best]) {
                Some(distances.len() - 1)
            } else {
                Some(best)
            },
        }
    }
}

/// The word whose squared distance from the pointer is least.
pub fn nearest_word(distances: &[Coordinate]) -> (word: Option<usize>)
    ensures
        match word {
            Some(i) => i < distances@.len() && least_distance(distances@) == Some(i as int),
            None => distances@.len() == 0,
        },
{
    let mut best: Option<usize> = None;
    let mut i: usize = 0;
    proof {
        assert(distances@.take(0) =~= Seq::<Coordinate>::empty());
    }
    while i < distances.len()
        invariant
            i <= distances@.len(),
            best is None <==> i == 0,
            match best {
                Some(b) => b < i && least_distance(distances@.take(i as int)) == Some(b as int),
                None => least_distance(distances@.take(i as int)) is None,
            },
        decreases distances@.len() - i,
    {
        proof {
            assert(distances@.take(i as int + 1).drop_last() =~= distances@.take(i as int));
        }
        best = match best {
            None => Some(i),
            Some(b) => if distances[i].lt(distances[b]) {
                Some(i)
            } else {
                Some(b)
            },
        };
        i = i + 1;
    }
    proof {
        assert(distances@.take(i as int) =~= distances@);
    }
    best
}

/// Among distances that are numbers the nearest word is the first one with the
/// least distance.
pub proof fn lemma_nearest_word_is_the_first_minimum(distances: Seq<Coordinate>)
    requires
        distances.len() > 0,
        forall|i: int| 0 <= i < distances.len() ==> !(#[trigger] distances[i]).is_nan(),
    ensures
        least_distance(distances) matches Some(best) && 0 <= best < distances.len() && (forall|i: int|
            0 <= i < distances.len() ==> distances[best].rank() <= (#[trigger] distances[i]).rank())
            && (forall|i: int|
            0 <= i < best ==> distances[best].rank() < (#[trigger] distances[i]).rank()),
    decreases distances.len(),
{
    if distances.len() > 1 {
        let before = distances.drop_last();
        lemma_nearest_word_is_the_first_minimum(before);
        assert forall|i: int| 0 <= i < distances.len() - 1 implies before[i] == distances[i] by {}
        assert(!distances.last().is_nan());
    } else {
        assert(least_distance(distances.drop_last()) is None);
    }
}

/// Every word whose box on the screen touches the region, in order.
pub fn word_indices_in_region(on_screen: &[Bounds], region: Bounds) -> (indices: Vec<usize>)
    ensures
        forall|i: int, j: int| 0 <= i < j < indices@.len() ==> indices@[i] < indices@[j],
        forall|i: usize|
            indices@.contains(i) <==> i < on_screen@.len() && on_screen@[i as int].meets(region),
{
    let mut indices: Vec<usize> = Vec::new();
    let mut i: usize = 0;
    while i < on_screen.len()
        invariant
            i <= on_screen@.len(),
            forall|a: int, b: int| 0 <= a < b < indices@.len() ==> indices@[a] < indices@[b],
            forall|a: int| 0 <= a < indices@.len() ==> indices@[a] < i,
            forall|k: usize|
                indices@.contains(k) <==> k < i && on_screen@[k as int].meets(region),
        decreases on_screen@.len() - i,
    {
        let bounds: Bounds = on_screen[i];
        let ghost before = indices@;
        if region.left.le(bounds.right) && bounds.left.le(region.right) && region.top.le(
            bounds.bottom,
        ) && bounds.top.le(region.bottom) {
            indices.push(i);
            proof {
                assert(indices@.last() == i);
                assert forall|k: usize|
                    indices@.contains(k) <==> k < i + 1 && on_screen@[k as int].meets(region) by {
                    if before.contains(k) {
                        let at = before.index_of(k);
                        assert(indices@[at] == k);
                    }
                    if indices@.contains(k) && k != i {
                        let at = indices@.index_of(k);
                        assert(before[at] == k);
                    }
                }
            }
        }
        i = i + 1;
    }
    indices
}

/// Where the recognized words are, as far as choosing among them depends on it.
#[derive(Debug)]
pub struct OcrScene {
    /// The box of each word on the screen.
    pub on_screen: Vec<Bounds>,
    /// The selected rectangle.
    pub region: Option<Bounds>,
    /// The pointer in the crop.
    pub pointer: Option<(Coordinate, Coordinate)>,
    /// The squared distance of each word from the pointer.
    pub distances: Vec<Coordinate>,
}

impl OcrScene {
    /// Each of `count` words has its box on the screen and, with a pointer, its
    /// distance.
    pub open spec fn places(self, count: nat) -> bool {
        self.on_screen@.len() == count && (self.pointer is Some ==> self.distances@.len() == count)
    }
}

/// The words that a trigger means: those in the selected rectangle, the one
/// under a hovering pointer, or the one nearest to the pointer.
pub open spec fn are_target_words(
    trigger: TriggerKind,
    words: Seq<WordBox>,
    scene: OcrScene,
    indices: Seq<usize>,
) -> bool {
    match (trigger, scene.region) {
        (TriggerKind::Hover, _) => match scene.pointer {
            None => indices.len() == 0,
            Some((x, y)) => if indices.len() == 0 {
                !x.finite() || !y.finite() || forall|j: int| !is_under(words, j, x, y)
            } else {
                &&& indices.len() == 1
                &&& x.finite() && y.finite()
                &&& is_under(words, indices[0] as int, x, y)
                &&& forall|j: int| 0 <= j < indices[0] ==> !is_under(words, j, x, y)
            },
        },
        (_, Some(region)) => {
            &&& forall|i: int, j: int| 0 <= i < j < indices.len() ==> indices[i] < indices[j]
            &&& forall|i: usize|
                indices.contains(i) <==> i < scene.on_screen@.len()
                    && scene.on_screen@[i as int].meets(region)
        },
        (_, None) => match (scene.pointer, least_distance(scene.distances@)) {
            (Some(_), Some(best)) => indices =~= seq![best as usize],
            _ => indices.len() == 0,
        },
    }
}

pub fn target_words(trigger: TriggerKind, words: &Vec<WordBox>, scene: &OcrScene) -> (indices: Vec<
    usize,
>)
    requires
        scene.places(words@.len()),
    ensures
        are_target_words(trigger, words@, *scene, indices@),
        forall|i: int| 0 <= i < indices@.len() ==> (#[trigger] indices@[i]) < words@.len(),
{
    let mut indices: Vec<usize> = Vec::new();
    match trigger {
        TriggerKind::Hover => {
            if let Some((x, y)) = scene.pointer {
                if let Some(i) = hover_word(words.as_slice(), x, y) {
                    indices.push(i);
                }
            }
        },
        _ => match scene.region {
            Some(region) => {
                let met: Vec<usize> = word_indices_in_region(scene.on_screen.as_slice(), region);
                proof {
                    assert forall|i: int| 0 <= i < met@.len() implies (#[trigger] met@[i])
                        < words@.len() by {
                        assert(met@.contains(met@[i]));
                    }
                }
                return met;
            },
            None => {
                if scene.pointer.is_some() {
                    if let Some(i) = nearest_word(scene.distances.as_slice()) {
                        indices.push(i);
                    }
                }
            },
        },
    }
    indices
}

// What the spec functions and operations are for.

/// Coordinates are ordered as the numbers that their bits stand for: a
/// negative one is below a positive one, of two positive ones the one with the
/// larger bits is larger, of two negative ones the smaller; the zeros are
/// equal, and what is no number compares with nothing.
pub proof fn lemma_coordinates_are_ordered_as_numbers(a: Coordinate, b: Coordinate)
    ensures
        a.bits < b.bits && b.bits <= 0x7f80_0000 ==> a.less(b) && !b.less(a),
        0x8000_0000 <= a.bits && a.bits < b.bits && b.bits <= 0xff80_0000 ==> b.less(a) && !a.less(
            b,
        ),
        0x8000_0000 < a.bits && a.bits <= 0xff80_0000 && b.bits <= 0x7f80_0000 ==> a.less(b),
        a.bits == 0 && b.bits == 0x8000_0000 ==> !a.less(b) && !b.less(a) && a.at_most(b)
            && b.at_most(a),
        0x7f80_0000 < a.bits && a.bits < 0x8000_0000 || 0xff80_0000 < a.bits ==> !a.less(b)
            && !b.less(a) && !a.at_most(b) && !b.at_most(a) && !a.finite(),
        a.bits == 0x7f80_0000 || a.bits == 0xff80_0000 ==> !a.finite(),
        a.bits < 0x7f80_0000 || 0x8000_0000 <= a.bits && a.bits < 0xff80_0000 ==> a.finite(),
        a.less(b) ==> a.at_most(b) && !b.at_most(a),
{
}

/// A box holds the points between its edges, the left and top ones included and
/// the right and bottom ones not; two boxes meet where they share a point or an
/// edge, whichever comes first.
pub proof fn lemma_what_a_box_holds(box_: Bounds, other: Bounds, x: Coordinate, y: Coordinate)
    ensures
        box_.valid() ==> box_.holds(box_.left, box_.top),
        !box_.holds(box_.right, y),
        !box_.holds(x, box_.bottom),
        x.less(box_.left) || y.less(box_.top) || box_.right.less(x) || box_.bottom.less(y)
            ==> !box_.holds(x, y),
        box_.meets(other) == other.meets(box_),
        box_.valid() ==> box_.meets(box_),
        box_.holds(x, y) && other.holds(x, y) && box_.valid() && other.valid() ==> box_.meets(
            other,
        ),
        box_.right.less(other.left) || other.right.less(box_.left) || box_.bottom.less(other.top)
            || other.bottom.less(box_.top) ==> !box_.meets(other),
{
}

/// The union of two boxes is the least box around both.
pub proof fn lemma_a_union_is_the_least_box_around_both(a: Bounds, b: Bounds, c: Bounds)
    requires
        a.valid(),
        b.valid(),
    ensures
        a.union(b).valid(),
        a.union(b).left.at_most(a.left) && a.union(b).left.at_most(b.left),
        a.union(b).top.at_most(a.top) && a.union(b).top.at_most(b.top),
        a.right.at_most(a.union(b).right) && b.right.at_most(a.union(b).right),
        a.bottom.at_most(a.union(b).bottom) && b.bottom.at_most(a.union(b).bottom),
        a.union(b).left == a.left || a.union(b).left == b.left,
        a.union(b).top == a.top || a.union(b).top == b.top,
        a.union(b).right == a.right || a.union(b).right == b.right,
        a.union(b).bottom == a.bottom || a.union(b).bottom == b.bottom,
{
}

proof fn lemma_scaled_by(logical: int, dpi: int)
    requires
        1 <= logical <= 10_000,
        96 <= dpi <= 200,
    ensures
        scaled(logical, dpi) == logical * dpi / 96,
{
    assert(max_int(logical, 1) == logical);
    assert(max_int(dpi, DEFAULT_DPI as int) == dpi);
    assert(0 <= logical * dpi <= 10_000 * 200) by (nonlinear_arith)
        requires
            1 <= logical <= 10_000,
            96 <= dpi <= 200,
    ;
}

/// A length grows with the resolution: it is itself at 96 dots per inch and
/// below, twice that at 192, and never less than one.
pub proof fn lemma_lengths_scale_with_the_resolution(logical: int, dpi: int)
    requires
        1 <= logical <= 10_000,
        0 <= dpi <= 100_000,
    ensures
        dpi <= 96 ==> scaled(logical, dpi) == logical,
        scaled(logical, 192) == 2 * logical,
        scaled(logical, 144) == logical * 3 / 2,
        scaled(logical, dpi) >= logical,
        scaled(0, 96) == 1,
{
    lemma_scaled_by(logical, 192);
    lemma_scaled_by(logical, 144);
    lemma_scaled_by(1, 96);
    assert(scaled(0, 96) == scaled(1, 96));
    let product = logical * max_int(dpi, 96);
    assert(logical * 96 <= product <= 10_000 * 100_000) by (nonlinear_arith)
        requires
            1 <= logical <= 10_000,
            product == logical * max_int(dpi, 96),
            96 <= max_int(dpi, 96) <= 100_000,
    ;
}

/// The area around the pointer reaches as far left as right and as far up as
/// down, and holds the pointer.
pub proof fn lemma_an_area_has_the_pointer_in_its_middle(
    pointer: ScreenPoint,
    half_width: int,
    half_height: int,
)
    requires
        1 <= half_width <= 1_000_000,
        1 <= half_height <= 1_000_000,
        -1_000_000_000 <= pointer.x <= 1_000_000_000,
        -1_000_000_000 <= pointer.y <= 1_000_000_000,
    ensures
        ({
            let area = rect_around(pointer, half_width, half_height);
            &&& pointer.x - area.left == half_width
            &&& area.right - pointer.x == half_width
            &&& pointer.y - area.top == half_height
            &&& area.bottom - pointer.y == half_height
            &&& area.covers(pointer.x as int, pointer.y as int)
        }),
{
}

/// A selection is read with what stands around it: 480 by 48 on each side at 96
/// dots per inch, more at a higher resolution, and at most 1536 by 256.
pub proof fn lemma_a_selection_is_read_with_its_surroundings(rect: ScreenRect, dpi: int)
    requires
        rect.nonempty(),
        -1_000_000_000 <= rect.left && rect.right <= 1_000_000_000,
        -1_000_000_000 <= rect.top && rect.bottom <= 1_000_000_000,
        0 <= dpi <= 100_000,
    ensures
        ({
            let context = context_rect(rect, dpi);
            &&& rect.left - context.left == context.right - rect.right
            &&& rect.top - context.top == context.bottom - rect.bottom
            &&& 480 <= rect.left - context.left <= 1536
            &&& 48 <= rect.top - context.top <= 256
            &&& dpi <= 96 ==> rect.left - context.left == 480 && rect.top - context.top == 48
            &&& dpi == 192 ==> rect.left - context.left == 960 && rect.top - context.top == 96
            &&& dpi >= 512 ==> rect.left - context.left == 1536 && rect.top - context.top == 256
        }),
{
}

/// The middle of a selection lies in it, as far from one edge as from the other
/// to within a pixel.
pub proof fn lemma_the_middle_of_a_selection(rect: ScreenRect, center: ScreenPoint)
    requires
        rect.nonempty(),
        call_ensures(selection_center, (rect,), center),
    ensures
        -1 <= (center.x - rect.left) - (rect.right - center.x) <= 1,
        -1 <= (center.y - rect.top) - (rect.bottom - center.y) <= 1,
{
}

/// What is captured: the surroundings of the selection, or for the hotkey
/// without one an area of 960 by 320 around the pointer, and for a hover one of
/// 1536 by 384, at 96 dots per inch.
pub proof fn lemma_what_is_captured(
    trigger: TriggerKind,
    pointer: Option<ScreenPoint>,
    selection: Option<ScreenRect>,
    dpi: u32,
    rect: Result<ScreenRect, ExtractionFailure>,
)
    requires
        dpi <= 96,
        call_ensures(crop_rect, (trigger, pointer, selection, dpi), rect),
    ensures
        trigger == TriggerKind::Selection ==> (rect is Ok <==> selection is Some),
        trigger != TriggerKind::Selection ==> (rect is Ok <==> pointer is Some),
        rect matches Err(failure) ==> failure == ExtractionFailure::EmptyRange,
        trigger != TriggerKind::Hover ==> (rect matches Ok(area) ==> (selection matches Some(chosen)
            ==> area == context_rect(chosen, 96) && area.encloses(chosen))),
        pointer matches Some(point) ==> (-1_000_000 <= point.x <= 1_000_000 && -1_000_000 <= point.y
            <= 1_000_000 ==> {
            &&& trigger == TriggerKind::Hover ==> (rect matches Ok(area) && area.right - area.left
                == 1536 && area.bottom - area.top == 384 && area.covers(
                point.x as int,
                point.y as int,
            ))
            &&& trigger == TriggerKind::Manual && selection is None ==> (rect matches Ok(area)
                && area.right - area.left == 960 && area.bottom - area.top == 320 && area.covers(
                point.x as int,
                point.y as int,
            ))
        }),
{
    lemma_lengths_scale_with_the_resolution(960, dpi as int);
    lemma_lengths_scale_with_the_resolution(320, dpi as int);
    lemma_lengths_scale_with_the_resolution(1536, dpi as int);
    lemma_lengths_scale_with_the_resolution(384, dpi as int);
    if let Some(chosen) = selection {
        lemma_context_encloses_the_selection(chosen, dpi as int);
    }
}

/// A capture is anchored at the pointer for a hover, and at the middle of the
/// selection where there is one otherwise.
pub proof fn lemma_where_a_capture_is_anchored(
    trigger: TriggerKind,
    pointer: Option<ScreenPoint>,
    selection: Option<ScreenRect>,
    anchor: Result<ScreenPoint, ExtractionFailure>,
)
    requires
        call_ensures(crop_anchor, (trigger, pointer, selection), anchor),
    ensures
        trigger == TriggerKind::Hover ==> (anchor is Ok <==> pointer is Some),
        trigger == TriggerKind::Manual ==> (anchor is Ok <==> pointer is Some),
        trigger == TriggerKind::Selection ==> (anchor is Ok <==> selection is Some),
        anchor matches Ok(point) ==> {
            &&& trigger == TriggerKind::Hover || selection is None ==> pointer == Some(point)
            &&& trigger != TriggerKind::Hover ==> (selection matches Some(rect) ==> -1 <= 2
                * point.x - (rect.left + rect.right) <= 1 && -1 <= 2 * point.y - (rect.top
                + rect.bottom) <= 1)
        },
        anchor matches Err(failure) ==> failure == ExtractionFailure::EmptyRange,
{
}

/// A selection is grown by sixteen pixels on each side.
pub proof fn lemma_a_selection_is_grown_evenly(rect: ScreenRect, grown: ScreenRect)
    requires
        -1_000_000_000 <= rect.left && rect.right <= 1_000_000_000,
        -1_000_000_000 <= rect.top && rect.bottom <= 1_000_000_000,
        rect.left <= 1_000_000_000 && -1_000_000_000 <= rect.right,
        rect.top <= 1_000_000_000 && -1_000_000_000 <= rect.bottom,
        call_ensures(OcrExtractor::selection_rect, (rect,), grown),
    ensures
        rect.left - grown.left == 16,
        rect.top - grown.top == 16,
        grown.right - rect.right == 16,
        grown.bottom - rect.bottom == 16,
{
}

/// An image is taken only with four bytes for each pixel, at least one pixel
/// and no side beyond the limit.
pub proof fn lemma_an_image_has_four_bytes_a_pixel(
    width: u32,
    height: u32,
    actual: usize,
    limit: u32,
    checked: Result<(), ExtractionFailure>,
)
    requires
        call_ensures(check_image, (width, height, actual, limit), checked),
    ensures
        checked is Ok ==> actual == width * height * 4 && 1 <= width <= limit && 1 <= height
            <= limit,
        actual == width * height * 4 && 1 <= width <= limit && 1 <= height <= limit && limit
            <= 0x7fff_ffff ==> checked is Ok,
        checked matches Err(failure) ==> failure == ExtractionFailure::Platform,
{
}

/// One recognition runs at a time, and none is begun for a cancelled request;
/// the wait for one is cut into slices of at most twenty milliseconds.
pub proof fn lemma_one_recognition_at_a_time(
    cancelled: bool,
    worker: OcrWorker,
    admitted: Result<(), ExtractionFailure>,
    now: u64,
    deadline: u64,
    wait: Result<u64, ExtractionFailure>,
)
    requires
        call_ensures(admit_recognition, (cancelled, worker), admitted),
        call_ensures(recognition_wait, (cancelled, now, deadline), wait),
    ensures
        admitted is Ok <==> !cancelled && worker != OcrWorker::Running,
        wait is Ok <==> !cancelled && now <= deadline,
        wait matches Ok(pause) ==> pause <= 20_000_000 && now + pause <= deadline && (pause
            == 20_000_000 || now + pause == deadline),
{
}

/// The words of a selection are those that meet its rectangle, all of them and
/// in reading order; the pointer stands for the word under it in a hover, and
/// for the nearest one with the hotkey.
pub proof fn lemma_which_words_are_meant(
    trigger: TriggerKind,
    words: Vec<WordBox>,
    scene: OcrScene,
    indices: Vec<usize>,
    i: int,
)
    requires
        scene.places(words@.len()),
        call_ensures(target_words, (trigger, &words, &scene), indices),
    ensures
        trigger != TriggerKind::Hover ==> (scene.region matches Some(region) ==> {
            &&& 0 <= i < words@.len() && i <= usize::MAX ==> (indices@.contains(i as usize)
                <==> scene.on_screen@[i].meets(region))
            &&& 0 <= i && i + 1 < indices@.len() ==> indices@[i] < indices@[i + 1]
        }),
        trigger == TriggerKind::Hover ==> indices@.len() <= 1,
        trigger == TriggerKind::Hover && indices@.len() == 1 ==> (scene.pointer matches Some((x, y))
            && words@[indices@[0] as int].bounds.holds(x, y)
            && words@[indices@[0] as int].bounds.valid()),
        trigger == TriggerKind::Hover ==> (scene.pointer matches Some((x, y)) ==> (x.finite()
            && y.finite() && 0 <= i < words@.len() && words@[i].bounds.valid()
            && words@[i].bounds.holds(x, y) ==> indices@.len() == 1 && indices@[0] <= i)),
        trigger != TriggerKind::Hover && scene.region is None ==> indices@.len() <= 1,
        trigger != TriggerKind::Hover && scene.region is None && scene.pointer is Some
            && scene.distances@.len() > 0 ==> indices@.len() == 1,
        scene.pointer is None && (trigger == TriggerKind::Hover || scene.region is None)
            ==> indices@.len() == 0,
{
    if scene.distances@.len() > 0 {
        lemma_least_distance_exists(scene.distances@);
    }
    if trigger == TriggerKind::Hover {
        if let Some((x, y)) = scene.pointer {
            if 0 <= i < words@.len() && words@[i].bounds.valid() && words@[i].bounds.holds(x, y) {
                assert(is_under(words@, i, x, y));
            }
        }
    }
}

proof fn lemma_least_distance_exists(distances: Seq<Coordinate>)
    requires
        distances.len() > 0,
    ensures
        least_distance(distances) is Some,
    decreases distances.len(),
{
    if distances.len() > 1 {
        lemma_least_distance_exists(distances.drop_last());
    }
}

/// The buffer holds four bytes for each pixel, no more and no fewer.
pub proof fn lemma_a_buffer_holds_the_whole_image(
    width: u32,
    height: u32,
    buffer_len: u32,
    checked: Result<(), ExtractionFailure>,
    len: Option<usize>,
)
    requires
        call_ensures(check_buffer, (width, height, buffer_len), checked),
        call_ensures(expected_bgra8_len, (width, height), len),
    ensures
        checked is Ok ==> buffer_len == 4 * (width * height),
        len matches Some(count) ==> count == 4 * (width * height),
        4 * (width * height) <= 0x7fff_ffff ==> len is Some && (checked is Ok <==> buffer_len == 4
            * (width * height)),
{
}

} // verus!
