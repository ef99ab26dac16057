//! Scaling of captured frames to the presentation.
use std::borrow::Cow;

use vstd::prelude::*;

use crate::display::geometry::{
    cut, lemma_shown_range, shown, the_picture_lies_inside, PresentationGeometry, Rect, Region, Size,
};
use crate::text::{decimal, push_decimal};

verus! {

/// The order of a pixel's four bytes.
#[derive(Clone, Copy, Debug, PartialEq, Eq, Structural)]
pub enum PixelFormat {
    ARgb32,
    XRgb32,
    ABgr32,
    XBgr32,
    BgrA32,
    BgrX32,
    RgbA32,
    RgbX32,
}

/// The output that is captured and how it is presented.
#[derive(Debug, PartialEq, Eq)]
pub struct OutputLayoutSnapshot {
    pub output_name: String,
    pub output_w: u32,
    pub output_h: u32,
    pub layout_extent_w: u32,
    pub layout_extent_h: u32,
    pub output_offset_x: i32,
    pub output_offset_y: i32,
    pub presentation_geometry: PresentationGeometry,
    pub geometry_generation: u32,
}

/// A frame in the size of the presentation.
#[derive(Debug)]
pub struct PreparedPresentationFrame<'a> {
    pub data: Cow<'a, [u8]>,
    pub width: u32,
    pub height: u32,
    pub stride: u32,
    pub damage_regions: Vec<Region>,
    pub geometry_generation: u32,
}

/// What a frame asks of the frame processor.
#[derive(Debug, PartialEq, Eq)]
pub struct PresentationGenerationAction {
    pub refresh_processor: bool,
    pub next_generation: u32,
    pub damage_regions: Vec<Region>,
}

/// Why a frame was not scaled.
#[derive(Clone, Copy, Debug, PartialEq, Eq, Structural)]
pub enum ScaleError {
    InvalidSourceSize,
    SourceSizeOverflow,
    SourceTooSmall { got: usize, need: usize },
    SourceStrideTooSmall { stride: usize, width: u32 },
    PresentationStrideOverflow,
    PresentationSizeOverflow,
}

impl ScaleError {
    /// The error in words.
    pub open spec fn words(self) -> Seq<char> {
        match self {
            ScaleError::InvalidSourceSize => "invalid source size"@,
            ScaleError::SourceSizeOverflow => "source frame size overflow"@,
            ScaleError::SourceTooSmall { got, need } => {
                "source frame too small: got "@ + decimal(got as nat) + " bytes, need "@ + decimal(
                    need as nat,
                )
            },
            ScaleError::SourceStrideTooSmall { stride, width } => {
                "source stride "@ + decimal(stride as nat) + " too small for width "@ + decimal(
                    width as nat,
                )
            },
            ScaleError::PresentationStrideOverflow => "presentation stride overflow"@,
            ScaleError::PresentationSizeOverflow => "presentation frame size overflow"@,
        }
    }

    /// The error in words.
    pub fn message(&self) -> (r: String)
        ensures
            r@ == self.words(),
    {
        match self {
            ScaleError::InvalidSourceSize => "invalid source size".to_owned(),
            ScaleError::SourceSizeOverflow => "source frame size overflow".to_owned(),
            ScaleError::SourceTooSmall { got, need } => {
                let mut out = "source frame too small: got ".to_owned();
                push_decimal(&mut out, *got as u64);
                out.append(" bytes, need ");
                push_decimal(&mut out, *need as u64);
                out
            },
            ScaleError::SourceStrideTooSmall { stride, width } => {
                let mut out = "source stride ".to_owned();
                push_decimal(&mut out, *stride as u64);
                out.append(" too small for width ");
                push_decimal(&mut out, *width as u64);
                out
            },
            ScaleError::PresentationStrideOverflow => "presentation stride overflow".to_owned(),
            ScaleError::PresentationSizeOverflow => "presentation frame size overflow".to_owned(),
        }
    }
}

/// The first source pixel that output pixel `rel` of `visible` covers.
pub open spec fn box_start(rel: int, source: int, visible: int) -> int {
    rel * source / visible
}

/// The end of the source pixels that output pixel `rel` of `visible` covers, at
/// least one and none outside the source.
pub open spec fn box_end(rel: int, source: int, visible: int) -> int {
    let end = (rel + 1) * source / visible;
    let at_least = if end > box_start(rel, source, visible) {
        end
    } else {
        box_start(rel, source, visible) + 1
    };
    if at_least <= source {
        at_least
    } else {
        source
    }
}

/// The sum of channel `c` over the pixels `[from, to)` of a row.
pub open spec fn row_sum(data: Seq<u8>, stride: int, row: int, from: int, to: int, c: int) -> int
    decreases to - from,
{
    if to <= from {
        0
    } else {
        row_sum(data, stride, row, from, to - 1, c) + data[row * stride + (to - 1) * 4 + c]
    }
}

/// The sum of channel `c` over the rows `[top, bottom)` of a box.
pub open spec fn box_sum(
    data: Seq<u8>,
    stride: int,
    top: int,
    bottom: int,
    left: int,
    right: int,
    c: int,
) -> int
    decreases bottom - top,
{
    if bottom <= top {
        0
    } else {
        box_sum(data, stride, top, bottom - 1, left, right, c) + row_sum(
            data,
            stride,
            bottom - 1,
            left,
            right,
            c,
        )
    }
}

/// Channel `c` of an output pixel: the mean over the source pixels that it
/// covers, rounded to the nearest.
pub open spec fn averaged(
    data: Seq<u8>,
    stride: int,
    source: Size,
    visible: Rect,
    rel_y: int,
    rel_x: int,
    c: int,
) -> u8 {
    let top = box_start(rel_y, source.height as int, visible.height as int);
    let bottom = box_end(rel_y, source.height as int, visible.height as int);
    let left = box_start(rel_x, source.width as int, visible.width as int);
    let right = box_end(rel_x, source.width as int, visible.width as int);
    let count = (bottom - top) * (right - left);
    ((box_sum(data, stride, top, bottom, left, right, c) + count / 2) / count) as u8
}

/// Whether byte `k` belongs to a pixel of `area` that comes before pixel
/// `(row, col)` in reading order.
pub open spec fn painted(k: int, stride: int, area: Rect, row: int, col: int) -> bool {
    let y = k / stride;
    let b = k % stride;
    &&& area.y <= y < area.y + area.height
    &&& 4 * area.x <= b < 4 * (area.x + area.width)
    &&& y < row || (y == row && b < 4 * col)
}

/// `output` after the pixels of the visible rectangle before `(row, col)` are
/// painted with the scaled source.
pub open spec fn scaled_until(
    output: Seq<u8>,
    output_stride: int,
    data: Seq<u8>,
    stride: int,
    geometry: PresentationGeometry,
    row: int,
    col: int,
) -> Seq<u8> {
    let area = geometry.visible();
    Seq::new(
        output.len(),
        |k: int|
            if painted(k, output_stride, area, row, col) {
                averaged(
                    data,
                    stride,
                    geometry.source,
                    area,
                    k / output_stride - area.y,
                    k % output_stride / 4 - area.x,
                    k % output_stride % 4,
                )
            } else {
                output[k]
            },
    )
}

/// `output` with the whole visible rectangle painted.
pub open spec fn scaled(
    output: Seq<u8>,
    output_stride: int,
    data: Seq<u8>,
    stride: int,
    geometry: PresentationGeometry,
) -> Seq<u8> {
    let area = geometry.visible();
    scaled_until(output, output_stride, data, stride, geometry, area.y + area.height, 0)
}

/// What keeps the source from being scaled.
pub open spec fn copy_obstacle(len: usize, stride: u32, source: Size) -> Option<ScaleError> {
    if stride * source.height > usize::MAX {
        Some(ScaleError::SourceSizeOverflow)
    } else if len < stride * source.height {
        Some(
            ScaleError::SourceTooSmall { got: len, need: (stride * source.height) as usize },
        )
    } else if stride < source.width * 4 {
        Some(ScaleError::SourceStrideTooSmall { stride: stride as usize, width: source.width })
    } else {
        None
    }
}

/// Byte `c` of a black pixel: opaque where the format has an alpha byte.
pub open spec fn black_byte(format: PixelFormat, c: int) -> u8 {
    match format {
        PixelFormat::ARgb32 | PixelFormat::ABgr32 => if c == 0 {
            255
        } else {
            0
        },
        PixelFormat::BgrA32 | PixelFormat::RgbA32 => if c == 3 {
            255
        } else {
            0
        },
        _ => 0,
    }
}

/// `n` bytes of black pixels.
pub open spec fn black(n: nat, format: PixelFormat) -> Seq<u8> {
    Seq::new(n, |k: int| black_byte(format, k % 4))
}

/// `output` with every whole pixel black.
pub open spec fn blackened(output: Seq<u8>, format: PixelFormat) -> Seq<u8> {
    Seq::new(
        output.len(),
        |k: int|
            if k < output.len() - output.len() % 4 {
                black_byte(format, k % 4)
            } else {
                output[k]
            },
    )
}

fn black_pixel(format: PixelFormat) -> (r: (u8, u8, u8, u8))
    ensures
        r.0 == black_byte(format, 0),
        r.1 == black_byte(format, 1),
        r.2 == black_byte(format, 2),
        r.3 == black_byte(format, 3),
{
    match format {
        PixelFormat::ARgb32 | PixelFormat::ABgr32 => (255, 0, 0, 0),
        PixelFormat::BgrA32 | PixelFormat::RgbA32 => (0, 0, 0, 255),
        PixelFormat::XRgb32
        | PixelFormat::XBgr32
        | PixelFormat::BgrX32
        | PixelFormat::RgbX32 => (0, 0, 0, 0),
    }
}

/// Makes every pixel black.
pub fn fill_black_bars(output: &mut [u8], pixel_format: PixelFormat)
    ensures
        final(output)@ == blackened(old(output)@, pixel_format),
{
    let len: usize = output.len();
    let pixel = black_pixel(pixel_format);
    let mut i: usize = 0;
    while len - i >= 4
        invariant
            i <= len,
            i % 4 == 0,
            output@.len() == len == old(output)@.len(),
            pixel.0 == black_byte(pixel_format, 0),
            pixel.1 == black_byte(pixel_format, 1),
            pixel.2 == black_byte(pixel_format, 2),
            pixel.3 == black_byte(pixel_format, 3),
            forall|k: int| 0 <= k < i ==> output@[k] == black_byte(pixel_format, k % 4),
            forall|k: int| i <= k < len ==> output@[k] == old(output)@[k],
        decreases len - i,
    {
        output[i] = pixel.0;
        output[i + 1] = pixel.1;
        output[i + 2] = pixel.2;
        output[i + 3] = pixel.3;
        i = i + 4;
    }
    assert(output@ =~= blackened(old(output)@, pixel_format));
}

proof fn lemma_box(rel: int, source: int, visible: int)
    requires
        0 <= rel < visible,
        0 < source,
    ensures
        0 <= box_start(rel, source, visible) < box_end(rel, source, visible) <= source,
{
    assert(0 <= rel * source / visible) by (nonlinear_arith)
        requires
            0 <= rel,
            0 < source,
            0 < visible,
    ;
    assert(rel * source / visible < source) by (nonlinear_arith)
        requires
            0 <= rel < visible,
            0 < source,
    ;
}

fn source_box(rel: u32, source: u32, visible: u32) -> (r: (usize, usize))
    requires
        rel < visible,
        0 < source,
    ensures
        r.0 == box_start(rel as int, source as int, visible as int),
        r.1 == box_end(rel as int, source as int, visible as int),
        r.0 < r.1 <= source,
{
    proof {
        lemma_box(rel as int, source as int, visible as int);
        assert(0 <= rel * source <= 0xffff_ffff * 0xffff_ffff) by (nonlinear_arith)
            requires
                rel <= 0xffff_ffff,
                source <= 0xffff_ffff,
        ;
        assert(0 <= (rel + 1) * source <= 0xffff_ffff * 0xffff_ffff) by (nonlinear_arith)
            requires
                rel + 1 <= 0xffff_ffff,
                source <= 0xffff_ffff,
        ;
    }
    let s: u64 = source as u64;
    let start: u64 = (rel as u64) * s / (visible as u64);
    let covered: u64 = (rel as u64 + 1) * s / (visible as u64);
    let at_least: u64 = if covered > start {
        covered
    } else {
        start + 1
    };
    let end: u64 = if at_least <= s {
        at_least
    } else {
        s
    };
    (start as usize, end as usize)
}

/// The four channel sums of a box.
spec fn sums_are(
    sum: (u128, u128, u128, u128),
    data: Seq<u8>,
    stride: int,
    top: int,
    bottom: int,
    left: int,
    right: int,
) -> bool {
    &&& sum.0 == box_sum(data, stride, top, bottom, left, right, 0)
    &&& sum.1 == box_sum(data, stride, top, bottom, left, right, 1)
    &&& sum.2 == box_sum(data, stride, top, bottom, left, right, 2)
    &&& sum.3 == box_sum(data, stride, top, bottom, left, right, 3)
}

proof fn lemma_row_sum_bound(data: Seq<u8>, stride: int, row: int, from: int, to: int, c: int)
    requires
        from <= to,
    ensures
        0 <= row_sum(data, stride, row, from, to, c) <= 255 * (to - from),
    decreases to - from,
{
    if from < to {
        lemma_row_sum_bound(data, stride, row, from, to - 1, c);
    }
}

proof fn lemma_box_sum_bound(
    data: Seq<u8>,
    stride: int,
    top: int,
    bottom: int,
    left: int,
    right: int,
    c: int,
)
    requires
        top <= bottom,
        left <= right,
    ensures
        0 <= box_sum(data, stride, top, bottom, left, right, c) <= 255 * ((bottom - top) * (right
            - left)),
    decreases bottom - top,
{
    if top < bottom {
        lemma_box_sum_bound(data, stride, top, bottom - 1, left, right, c);
        lemma_row_sum_bound(data, stride, bottom - 1, left, right, c);
        assert((bottom - top) * (right - left) == (bottom - 1 - top) * (right - left) + (right
            - left)) by (nonlinear_arith);
    } else {
        assert((bottom - top) * (right - left) == 0) by (nonlinear_arith)
            requires
                bottom == top,
        ;
    }
}

proof fn lemma_source_index(len: int, stride: int, source: Size, row: int, col: int)
    requires
        0 <= row < source.height,
        0 <= col < source.width,
        source.width * 4 <= stride,
        stride * source.height <= len,
    ensures
        0 <= row * stride,
        row * stride + col * 4 + 3 < len,
{
    assert(0 <= row * stride) by (nonlinear_arith)
        requires
            0 <= row,
            0 <= stride,
    ;
    assert((row + 1) * stride <= source.height * stride) by (nonlinear_arith)
        requires
            row + 1 <= source.height,
            0 <= stride,
    ;
    assert((row + 1) * stride == row * stride + stride) by (nonlinear_arith);
    assert(source.height * stride == stride * source.height) by (nonlinear_arith);
}

fn add_row(
    data: &[u8],
    stride: usize,
    source: Size,
    row: usize,
    left: usize,
    right: usize,
) -> (r: (u64, u64, u64, u64))
    requires
        left <= right <= source.width,
        row < source.height,
        source.width * 4 <= stride,
        stride * source.height <= data.len(),
    ensures
        r.0 == row_sum(data@, stride as int, row as int, left as int, right as int, 0),
        r.1 == row_sum(data@, stride as int, row as int, left as int, right as int, 1),
        r.2 == row_sum(data@, stride as int, row as int, left as int, right as int, 2),
        r.3 == row_sum(data@, stride as int, row as int, left as int, right as int, 3),
{
    let mut a: u64 = 0;
    let mut b: u64 = 0;
    let mut c: u64 = 0;
    let mut d: u64 = 0;
    let mut x: usize = left;
    while x < right
        invariant
            left <= x <= right <= source.width,
            row < source.height,
            source.width * 4 <= stride,
            stride * source.height <= data.len(),
            a == row_sum(data@, stride as int, row as int, left as int, x as int, 0),
            b == row_sum(data@, stride as int, row as int, left as int, x as int, 1),
            c == row_sum(data@, stride as int, row as int, left as int, x as int, 2),
            d == row_sum(data@, stride as int, row as int, left as int, x as int, 3),
        decreases right - x,
    {
        proof {
            lemma_source_index(data.len() as int, stride as int, source, row as int, x as int);
            lemma_row_sum_bound(data@, stride as int, row as int, left as int, x as int, 0);
            lemma_row_sum_bound(data@, stride as int, row as int, left as int, x as int, 1);
            lemma_row_sum_bound(data@, stride as int, row as int, left as int, x as int, 2);
            lemma_row_sum_bound(data@, stride as int, row as int, left as int, x as int, 3);
        }
        let s: usize = row * stride + x * 4;
        a = a + data[s] as u64;
        b = b + data[s + 1] as u64;
        c = c + data[s + 2] as u64;
        d = d + data[s + 3] as u64;
        x = x + 1;
    }
    (a, b, c, d)
}

fn add_box(
    data: &[u8],
    stride: usize,
    source: Size,
    top: usize,
    bottom: usize,
    left: usize,
    right: usize,
) -> (sum: (u128, u128, u128, u128))
    requires
        top <= bottom <= source.height,
        left <= right <= source.width,
        source.width * 4 <= stride,
        stride * source.height <= data.len(),
    ensures
        sums_are(
            sum,
            data@,
            stride as int,
            top as int,
            bottom as int,
            left as int,
            right as int,
        ),
{
    let mut sum: (u128, u128, u128, u128) = (0, 0, 0, 0);
    let mut y: usize = top;
    while y < bottom
        invariant
            top <= y <= bottom <= source.height,
            left <= right <= source.width,
            source.width * 4 <= stride,
            stride * source.height <= data.len(),
            sums_are(
                sum,
                data@,
                stride as int,
                top as int,
                y as int,
                left as int,
                right as int,
            ),
        decreases bottom - y,
    {
        proof {
            lemma_box_sum_bound(data@, stride as int, top as int, y as int, left as int, right as int, 0);
            lemma_box_sum_bound(data@, stride as int, top as int, y as int, left as int, right as int, 1);
            lemma_box_sum_bound(data@, stride as int, top as int, y as int, left as int, right as int, 2);
            lemma_box_sum_bound(data@, stride as int, top as int, y as int, left as int, right as int, 3);
            assert((y - top) * (right - left) <= 0xffff_ffff * 0xffff_ffff) by (nonlinear_arith)
                requires
                    0 <= y - top <= 0xffff_ffff,
                    0 <= right - left <= 0xffff_ffff,
            ;
        }
        let row = add_row(data, stride, source, y, left, right);
        sum = (
            sum.0 + row.0 as u128,
            sum.1 + row.1 as u128,
            sum.2 + row.2 as u128,
            sum.3 + row.3 as u128,
        );
        y = y + 1;
    }
    sum
}

fn rounded_mean(sum: u128, count: u128) -> (r: u8)
    requires
        0 < count <= 0xffff_ffff_ffff_ffff,
        sum <= 255 * count,
    ensures
        r == (sum + count as int / 2) / count as int,
{
    proof {
        assert((sum + count as int / 2) / count as int <= 255) by (nonlinear_arith)
            requires
                0 < count,
                sum <= 255 * count,
        ;
    }
    ((sum + count / 2) / count) as u8
}

fn average_pixel(
    data: &[u8],
    stride: usize,
    source: Size,
    visible: Rect,
    rel_y: u32,
    rel_x: u32,
) -> (r: (u8, u8, u8, u8))
    requires
        source.wf(),
        rel_y < visible.height,
        rel_x < visible.width,
        source.width * 4 <= stride,
        stride * source.height <= data.len(),
    ensures
        r.0 == averaged(data@, stride as int, source, visible, rel_y as int, rel_x as int, 0),
        r.1 == averaged(data@, stride as int, source, visible, rel_y as int, rel_x as int, 1),
        r.2 == averaged(data@, stride as int, source, visible, rel_y as int, rel_x as int, 2),
        r.3 == averaged(data@, stride as int, source, visible, rel_y as int, rel_x as int, 3),
{
    let (top, bottom) = source_box(rel_y, source.height, visible.height);
    let (left, right) = source_box(rel_x, source.width, visible.width);
    let sum = add_box(data, stride, source, top, bottom, left, right);
    proof {
        assert(0 < (bottom - top) * (right - left) <= 0xffff_ffff * 0xffff_ffff)
            by (nonlinear_arith)
            requires
                0 < bottom - top <= 0xffff_ffff,
                0 < right - left <= 0xffff_ffff,
        ;
        lemma_box_sum_bound(data@, stride as int, top as int, bottom as int, left as int, right as int, 0);
        lemma_box_sum_bound(data@, stride as int, top as int, bottom as int, left as int, right as int, 1);
        lemma_box_sum_bound(data@, stride as int, top as int, bottom as int, left as int, right as int, 2);
        lemma_box_sum_bound(data@, stride as int, top as int, bottom as int, left as int, right as int, 3);
    }
    let count: u128 = ((bottom - top) as u128) * ((right - left) as u128);
    (
        rounded_mean(sum.0, count),
        rounded_mean(sum.1, count),
        rounded_mean(sum.2, count),
        rounded_mean(sum.3, count),
    )
}

proof fn lemma_pixel_position(row: int, col: int, stride: int, c: int)
    requires
        0 <= row,
        0 <= col,
        0 <= c < 4,
        4 * (col + 1) <= stride,
    ensures
        (row * stride + 4 * col + c) / stride == row,
        (row * stride + 4 * col + c) % stride == 4 * col + c,
{
    vstd::arithmetic::div_mod::lemma_fundamental_div_mod_converse(
        row * stride + 4 * col + c,
        stride,
        row,
        4 * col + c,
    );
}

/// Painting one pixel more.
proof fn lemma_paint_pixel(
    before: Seq<u8>,
    now: Seq<u8>,
    painted_pixel: (u8, u8, u8, u8),
    output: Seq<u8>,
    output_stride: int,
    data: Seq<u8>,
    stride: int,
    geometry: PresentationGeometry,
    row: int,
    col: int,
)
    requires
        ({
            let area = geometry.visible();
            let at = row * output_stride + 4 * col;
            let source = geometry.source;
            let (y, x) = (row - area.y, col - area.x);
            &&& area.y <= row < area.y + area.height
            &&& area.x <= col < area.x + area.width
            &&& 4 * (area.x + area.width) <= output_stride
            &&& 0 <= at
            &&& at + 3 < output.len()
            &&& before == scaled_until(output, output_stride, data, stride, geometry, row, col)
            &&& now == before.update(at, painted_pixel.0).update(at + 1, painted_pixel.1).update(
                at + 2,
                painted_pixel.2,
            ).update(at + 3, painted_pixel.3)
            &&& painted_pixel.0 == averaged(data, stride, source, area, y, x, 0)
            &&& painted_pixel.1 == averaged(data, stride, source, area, y, x, 1)
            &&& painted_pixel.2 == averaged(data, stride, source, area, y, x, 2)
            &&& painted_pixel.3 == averaged(data, stride, source, area, y, x, 3)
        }),
    ensures
        now == scaled_until(output, output_stride, data, stride, geometry, row, col + 1),
{
    let area = geometry.visible();
    let at = row * output_stride + 4 * col;
    let after = scaled_until(output, output_stride, data, stride, geometry, row, col + 1);
    assert forall|k: int| 0 <= k < now.len() implies now[k] == after[k] by {
        if at <= k < at + 4 {
            lemma_pixel_position(row, col, output_stride, k - at);
        } else {
            vstd::arithmetic::div_mod::lemma_fundamental_div_mod(k, output_stride);
            assert(output_stride * (k / output_stride) == (k / output_stride) * output_stride)
                by (nonlinear_arith);
        }
    }
    assert(now =~= after);
}

/// The end of one row is the start of the next.
proof fn lemma_next_row(
    output: Seq<u8>,
    output_stride: int,
    data: Seq<u8>,
    stride: int,
    geometry: PresentationGeometry,
    row: int,
)
    ensures
        ({
            let area = geometry.visible();
            scaled_until(output, output_stride, data, stride, geometry, row, area.x + area.width)
                == scaled_until(output, output_stride, data, stride, geometry, row + 1, area.x as int)
        }),
{
    let area = geometry.visible();
    let done = scaled_until(
        output,
        output_stride,
        data,
        stride,
        geometry,
        row,
        area.x + area.width,
    );
    assert(done =~= scaled_until(
        output,
        output_stride,
        data,
        stride,
        geometry,
        row + 1,
        area.x as int,
    ));
}

proof fn lemma_output_index(len: int, stride: int, area: Rect, row: int, col: int)
    requires
        area.y <= row < area.y + area.height,
        area.x <= col < area.x + area.width,
        0 <= stride,
        stride * (area.y + area.height - 1) + 4 * (area.x + area.width) <= len,
    ensures
        0 <= row * stride,
        row * stride + 4 * col + 3 < len,
{
    assert(0 <= row * stride <= stride * (area.y + area.height - 1)) by (nonlinear_arith)
        requires
            0 <= row <= area.y + area.height - 1,
            0 <= stride,
    ;
}

fn copy_row(
    source_data: &[u8],
    source_stride: usize,
    output: &mut [u8],
    output_stride: usize,
    geometry: PresentationGeometry,
    visible: Rect,
    py: u32,
    Ghost(blank): Ghost<Seq<u8>>,
)
    requires
        geometry.wf(),
        visible == geometry.visible(),
        visible.inside(geometry.presentation),
        visible.y <= py < visible.y + visible.height,
        geometry.source.width * 4 <= source_stride,
        source_stride * geometry.source.height <= source_data.len(),
        4 * (visible.x + visible.width) <= output_stride,
        output_stride * (visible.y + visible.height - 1) + 4 * (visible.x + visible.width) <= old(
            output,
        )@.len(),
        blank.len() == old(output)@.len(),
        old(output)@ == scaled_until(
            blank,
            output_stride as int,
            source_data@,
            source_stride as int,
            geometry,
            py as int,
            visible.x as int,
        ),
    ensures
        final(output)@ == scaled_until(
            blank,
            output_stride as int,
            source_data@,
            source_stride as int,
            geometry,
            py + 1,
            visible.x as int,
        ),
{
    let len: usize = output.len();
    let end: u32 = visible.right();
    let mut px: u32 = visible.x;
    while px < end
        invariant
            geometry.wf(),
            visible == geometry.visible(),
            visible.inside(geometry.presentation),
            visible.y <= py < visible.y + visible.height,
            end == visible.x + visible.width,
            visible.x <= px <= end,
            geometry.source.width * 4 <= source_stride,
            source_stride * geometry.source.height <= source_data.len(),
            4 * (visible.x + visible.width) <= output_stride,
            output_stride * (visible.y + visible.height - 1) + 4 * (visible.x + visible.width)
                <= len,
            output@.len() == len == blank.len(),
            output@ == scaled_until(
                blank,
                output_stride as int,
                source_data@,
                source_stride as int,
                geometry,
                py as int,
                px as int,
            ),
        decreases end - px,
    {
        let pixel = average_pixel(
            source_data,
            source_stride,
            geometry.source(),
            visible,
            py - visible.y,
            px - visible.x,
        );
        proof {
            lemma_output_index(len as int, output_stride as int, visible, py as int, px as int);
        }
        let at: usize = py as usize * output_stride + 4 * (px as usize);
        let ghost before = output@;
        output[at] = pixel.0;
        output[at + 1] = pixel.1;
        output[at + 2] = pixel.2;
        output[at + 3] = pixel.3;
        proof {
            lemma_paint_pixel(
                before,
                output@,
                pixel,
                blank,
                output_stride as int,
                source_data@,
                source_stride as int,
                geometry,
                py as int,
                px as int,
            );
        }
        px = px + 1;
    }
    proof {
        lemma_next_row(
            blank,
            output_stride as int,
            source_data@,
            source_stride as int,
            geometry,
            py as int,
        );
    }
}

/// Paints the visible rectangle with the scaled source.
///
/// Every output pixel averages the source region that it covers, so downscaling
/// anti-aliases instead of dropping pixels; for upscaling the region is a single
/// source pixel. The source is refused where its buffer or its rows are too
/// short.
pub fn copy_scaled_visible_rect(
    source_data: &[u8],
    source_stride: u32,
    output: &mut [u8],
    output_stride: u32,
    geometry: PresentationGeometry,
) -> (r: Result<(), ScaleError>)
    requires
        geometry.wf(),
        ({
            let area = geometry.visible();
            &&& 4 * (area.x + area.width) <= output_stride
            &&& output_stride * (area.y + area.height - 1) + 4 * (area.x + area.width) <= old(
                output,
            )@.len()
        }),
    ensures
        match copy_obstacle(source_data.len(), source_stride, geometry.source) {
            Some(e) => r == Err::<(), ScaleError>(e) && final(output)@ == old(output)@,
            None => r == Ok::<(), ScaleError>(()) && final(output)@ == scaled(
                old(output)@,
                output_stride as int,
                source_data@,
                source_stride as int,
                geometry,
            ),
        },
{
    let source = geometry.source();
    let visible = geometry.visible_rect();
    let source_required: usize = match (source_stride as usize).checked_mul(
        source.height as usize,
    ) {
        Some(n) => n,
        None => return Err(ScaleError::SourceSizeOverflow),
    };
    if source_data.len() < source_required {
        return Err(
            ScaleError::SourceTooSmall { got: source_data.len(), need: source_required },
        );
    }
    if (source_stride as u64) < source.width as u64 * 4 {
        return Err(
            ScaleError::SourceStrideTooSmall {
                stride: source_stride as usize,
                width: source.width,
            },
        );
    }
    let stride: usize = source_stride as usize;
    let out_stride: usize = output_stride as usize;
    let len: usize = output.len();
    let bottom: u32 = visible.bottom();
    let mut py: u32 = visible.y;
    let ghost blank = output@;
    assert(output@ =~= scaled_until(
        blank,
        out_stride as int,
        source_data@,
        stride as int,
        geometry,
        py as int,
        visible.x as int,
    ));
    while py < bottom
        invariant
            geometry.wf(),
            visible == geometry.visible(),
            visible.inside(geometry.presentation),
            bottom == visible.y + visible.height,
            visible.y <= py <= bottom,
            geometry.source.width * 4 <= stride,
            stride * geometry.source.height <= source_data.len(),
            4 * (visible.x + visible.width) <= out_stride,
            out_stride * (visible.y + visible.height - 1) + 4 * (visible.x + visible.width) <= len,
            output@.len() == len == blank.len(),
            output@ == scaled_until(
                blank,
                out_stride as int,
                source_data@,
                stride as int,
                geometry,
                py as int,
                visible.x as int,
            ),
        decreases bottom - py,
    {
        copy_row(
            source_data,
            stride,
            output,
            out_stride,
            geometry,
            visible,
            py,
            Ghost(blank),
        );
        py = py + 1;
    }
    assert(output@ =~= scaled(
        blank,
        out_stride as int,
        source_data@,
        stride as int,
        geometry,
    ));
    Ok(())
}

impl OutputLayoutSnapshot {
    /// The layout's geometry is one of sizes that are not empty.
    pub open spec fn wf(&self) -> bool {
        self.presentation_geometry.wf()
    }

    /// The geometry of a frame of size `source` under this layout.
    pub open spec fn geometry_for(&self, source: Size) -> PresentationGeometry {
        PresentationGeometry { source, presentation: self.presentation_geometry.presentation }
    }

    fn geometry_of(&self, source: Size) -> (r: PresentationGeometry)
        ensures
            r == self.geometry_for(source),
    {
        if self.presentation_geometry.source() == source {
            self.presentation_geometry
        } else {
            PresentationGeometry::new(source, self.presentation_geometry.presentation())
        }
    }
}

/// What keeps a frame from being prepared.
pub open spec fn prepare_obstacle(
    len: usize,
    source: Size,
    stride: u32,
    geometry: PresentationGeometry,
) -> Option<ScaleError> {
    let presentation = geometry.presentation;
    if !source.wf() {
        Some(ScaleError::InvalidSourceSize)
    } else if geometry.identity() {
        if stride * source.height > u32::MAX {
            Some(ScaleError::SourceSizeOverflow)
        } else if len < stride * source.height {
            Some(
                ScaleError::SourceTooSmall { got: len, need: (stride * source.height) as usize },
            )
        } else {
            None
        }
    } else if presentation.width * 4 > u32::MAX {
        Some(ScaleError::PresentationStrideOverflow)
    } else if presentation.width * 4 * presentation.height > u32::MAX {
        Some(ScaleError::PresentationSizeOverflow)
    } else {
        copy_obstacle(len, stride, source)
    }
}

/// The frame's bytes are the source's own.
pub open spec fn borrows(frame: Cow<'_, [u8]>, bytes: Seq<u8>) -> bool {
    match frame {
        Cow::Borrowed(b) => b@ == bytes,
        Cow::Owned(_) => false,
    }
}

/// The frame's bytes are its own.
pub open spec fn owns(frame: Cow<'_, [u8]>, bytes: Seq<u8>) -> bool {
    match frame {
        Cow::Borrowed(_) => false,
        Cow::Owned(v) => v@ == bytes,
    }
}

/// The frame that a source becomes: the source itself where it is shown as it
/// is, else the scaled source on black.
pub open spec fn is_prepared(
    frame: PreparedPresentationFrame<'_>,
    data: Seq<u8>,
    stride: u32,
    format: PixelFormat,
    damage: Seq<Region>,
    geometry: PresentationGeometry,
    generation: u32,
) -> bool {
    let presentation = geometry.presentation;
    &&& frame.damage_regions@ == geometry.shown_damage(damage)
    &&& frame.geometry_generation == generation
    &&& if geometry.identity() {
        &&& borrows(frame.data, data)
        &&& frame.width == geometry.source.width
        &&& frame.height == geometry.source.height
        &&& frame.stride == stride
    } else {
        &&& owns(
            frame.data,
            scaled(
                black((presentation.width * 4 * presentation.height) as nat, format),
                presentation.width * 4,
                data,
                stride as int,
                geometry,
            ),
        )
        &&& frame.width == presentation.width
        &&& frame.height == presentation.height
        &&& frame.stride == presentation.width * 4
    }
}

/// What becomes of a captured frame under a layout.
pub open spec fn prepares(
    data: Seq<u8>,
    width: u32,
    height: u32,
    stride: u32,
    format: PixelFormat,
    damage: Seq<Region>,
    snapshot: OutputLayoutSnapshot,
    r: Result<PreparedPresentationFrame<'_>, ScaleError>,
) -> bool {
    let source = Size { width, height };
    let geometry = snapshot.geometry_for(source);
    match prepare_obstacle(data.len() as usize, source, stride, geometry) {
        Some(e) => r is Err && r->Err_0 == e,
        None => r is Ok && is_prepared(
            r->Ok_0,
            data,
            stride,
            format,
            damage,
            geometry,
            snapshot.geometry_generation,
        ),
    }
}

/// Brings a captured frame to the size of the presentation.
pub fn prepare_presentation_frame<'a>(
    source_data: &'a [u8],
    source_width: u32,
    source_height: u32,
    source_stride: u32,
    pixel_format: PixelFormat,
    source_damage_regions: &[Region],
    snapshot: &OutputLayoutSnapshot,
) -> (r: Result<PreparedPresentationFrame<'a>, ScaleError>)
    requires
        snapshot.wf(),
    ensures
        prepares(
            source_data@,
            source_width,
            source_height,
            source_stride,
            pixel_format,
            source_damage_regions@,
            *snapshot,
            r,
        ),
{
    let source = match Size::new(source_width, source_height) {
        Some(size) => size,
        None => return Err(ScaleError::InvalidSourceSize),
    };
    let geometry = snapshot.geometry_of(source);
    let presentation = geometry.presentation();
    let damage_regions = geometry.map_source_damage(source_damage_regions);
    if geometry.is_identity() {
        let min_len: usize = match source_stride.checked_mul(source_height) {
            Some(n) => n as usize,
            None => return Err(ScaleError::SourceSizeOverflow),
        };
        if source_data.len() < min_len {
            return Err(ScaleError::SourceTooSmall { got: source_data.len(), need: min_len });
        }
        return Ok(
            PreparedPresentationFrame {
                data: Cow::Borrowed(source_data),
                width: source_width,
                height: source_height,
                stride: source_stride,
                damage_regions,
                geometry_generation: snapshot.geometry_generation,
            },
        );
    }
    let stride: u32 = match presentation.width.checked_mul(4) {
        Some(n) => n,
        None => return Err(ScaleError::PresentationStrideOverflow),
    };
    let len: usize = match stride.checked_mul(presentation.height) {
        Some(n) => n as usize,
        None => return Err(ScaleError::PresentationSizeOverflow),
    };
    let mut output: Vec<u8> = vec![0; len];
    fill_black_bars(output.as_mut_slice(), pixel_format);
    proof {
        let pixels = presentation.width * presentation.height;
        assert(len == 4 * pixels) by (nonlinear_arith)
            requires
                len == stride * presentation.height,
                stride == presentation.width * 4,
                pixels == presentation.width * presentation.height,
        ;
        assert(output@ =~= black(len as nat, pixel_format));
        let area = geometry.visible();
        the_picture_lies_inside(source, presentation);
        lemma_area_fits(presentation, stride as int, area);
    }
    if let Err(e) = copy_scaled_visible_rect(
        source_data,
        source_stride,
        output.as_mut_slice(),
        stride,
        geometry,
    ) {
        return Err(e);
    }
    Ok(
        PreparedPresentationFrame {
            data: Cow::Owned(output),
            width: presentation.width,
            height: presentation.height,
            stride,
            damage_regions,
            geometry_generation: snapshot.geometry_generation,
        },
    )
}

proof fn lemma_area_fits(presentation: Size, stride: int, area: Rect)
    requires
        area.inside(presentation),
        stride == presentation.width * 4,
    ensures
        4 * (area.x + area.width) <= stride,
        stride * (area.y + area.height - 1) + 4 * (area.x + area.width) <= stride
            * presentation.height,
{
    assert(stride * (area.y + area.height - 1) <= stride * (presentation.height - 1))
        by (nonlinear_arith)
        requires
            area.y + area.height - 1 <= presentation.height - 1,
            0 <= stride,
    ;
    assert(stride * (presentation.height - 1) + stride == stride * presentation.height)
        by (nonlinear_arith);
}

/// A buffer can be handed on as it is only where it is shown as it is.
pub fn dmabuf_zero_copy_allowed(snapshot: &OutputLayoutSnapshot) -> (r: bool)
    ensures
        r == snapshot.presentation_geometry.identity(),
{
    snapshot.presentation_geometry.is_identity()
}

/// `v` as a signed coordinate, wrapping as a cast does.
pub open spec fn wrapped(v: u32) -> int {
    if v <= i32::MAX {
        v as int
    } else {
        v - 0x1_0000_0000
    }
}

fn wrap_coordinate(v: u32) -> (r: i32)
    ensures
        r == wrapped(v),
{
    if v <= 0x7fff_ffff {
        v as i32
    } else {
        (v - 0x8000_0000) as i32 + i32::MIN
    }
}

/// What a frame asks of the frame processor: one of a new geometry refreshes it and
/// is damaged as a whole, any other keeps its own damage.
pub open spec fn is_generation_action(
    action: PresentationGenerationAction,
    current: u32,
    frame: PreparedPresentationFrame<'_>,
) -> bool {
    &&& action.refresh_processor == (frame.geometry_generation != current)
    &&& action.next_generation == frame.geometry_generation
    &&& action.damage_regions@ == if frame.geometry_generation != current {
        seq![(0i32, 0i32, wrapped(frame.width) as i32, wrapped(frame.height) as i32)]
    } else {
        frame.damage_regions@
    }
}

/// A frame of a new geometry refreshes the processor and is damaged as a whole;
/// any other frame keeps its own damage.
pub fn output_downscaling_generation_action(
    current_generation: u32,
    prepared: &PreparedPresentationFrame<'_>,
) -> (r: PresentationGenerationAction)
    ensures
        is_generation_action(r, current_generation, *prepared),
{
    if prepared.geometry_generation != current_generation {
        let mut regions: Vec<Region> = Vec::new();
        regions.push((0, 0, wrap_coordinate(prepared.width), wrap_coordinate(prepared.height)));
        PresentationGenerationAction {
            refresh_processor: true,
            next_generation: prepared.geometry_generation,
            damage_regions: regions,
        }
    } else {
        PresentationGenerationAction {
            refresh_processor: false,
            next_generation: current_generation,
            damage_regions: copy_regions(&prepared.damage_regions),
        }
    }
}

fn copy_regions(regions: &Vec<Region>) -> (r: Vec<Region>)
    ensures
        r@ == regions@,
{
    let mut out: Vec<Region> = Vec::new();
    let mut i: usize = 0;
    while i < regions.len()
        invariant
            i <= regions.len(),
            out@ == regions@.take(i as int),
        decreases regions.len() - i,
    {
        out.push(regions[i]);
        i = i + 1;
        assert(out@ =~= regions@.take(i as int));
    }
    assert(out@ =~= regions@);
    out
}

/// The shape that a frame will have once it is prepared.
pub open spec fn prepared_shape(source: Size, stride: u32, geometry: PresentationGeometry) -> Result<
    (u32, u32, u32),
    ScaleError,
> {
    if !source.wf() {
        Err(ScaleError::InvalidSourceSize)
    } else if geometry.identity() {
        Ok((source.width, source.height, stride))
    } else if geometry.presentation.width * 4 > u32::MAX {
        Err(ScaleError::PresentationStrideOverflow)
    } else {
        Ok(
            (
                geometry.presentation.width,
                geometry.presentation.height,
                (geometry.presentation.width * 4) as u32,
            ),
        )
    }
}

/// Width, height and stride of the frame that a source will become.
pub fn presentation_frame_shape(
    source_width: u32,
    source_height: u32,
    source_stride: u32,
    snapshot: &OutputLayoutSnapshot,
) -> (r: Result<(u32, u32, u32), ScaleError>)
    ensures
        ({
            let source = Size { width: source_width, height: source_height };
            r == prepared_shape(source, source_stride, snapshot.geometry_for(source))
        }),
{
    let source = match Size::new(source_width, source_height) {
        Some(size) => size,
        None => return Err(ScaleError::InvalidSourceSize),
    };
    let geometry = snapshot.geometry_of(source);
    if geometry.is_identity() {
        Ok((source_width, source_height, source_stride))
    } else {
        let presentation = geometry.presentation();
        match presentation.width.checked_mul(4) {
            Some(stride) => Ok((presentation.width, presentation.height, stride)),
            None => Err(ScaleError::PresentationStrideOverflow),
        }
    }
}

/// The announced shape is the shape that the prepared frame has.
pub proof fn the_announced_shape_is_kept(
    frame: PreparedPresentationFrame<'_>,
    data: Seq<u8>,
    stride: u32,
    format: PixelFormat,
    damage: Seq<Region>,
    geometry: PresentationGeometry,
    generation: u32,
)
    requires
        geometry.wf(),
        is_prepared(frame, data, stride, format, damage, geometry, generation),
        geometry.identity() || geometry.presentation.width * 4 <= u32::MAX,
    ensures
        prepared_shape(geometry.source, stride, geometry) == Ok::<(u32, u32, u32), ScaleError>(
            (frame.width, frame.height, frame.stride),
        ),
{
}

/// An output pixel that covers a source pixel of `[from, to)` lies in what is
/// shown of `[from, to)`.
proof fn lemma_shown_covers(rel: int, source: u32, at: u32, visible: u32, from: int, to: int)
    requires
        0 <= rel < visible,
        0 <= from < to <= source,
        box_start(rel, source as int, visible as int) < to,
        from < box_end(rel, source as int, visible as int),
    ensures
        shown(from, to, source, at, visible).0 <= at + rel < shown(from, to, source, at, visible).1,
{
    let s = source as int;
    let v = visible as int;
    let start = rel * s / v;
    let end = (rel + 1) * s / v;
    assert(rel * s < to * v) by (nonlinear_arith)
        requires
            start == rel * s / v,
            start < to,
            v > 0,
    ;
    let last = (to * v + s - 1) / s;
    assert(rel < last) by (nonlinear_arith)
        requires
            rel * s < to * v,
            last == (to * v + s - 1) / s,
            s > 0,
    ;
    let first = from * v / s;
    if start >= from {
        assert(from * v <= rel * s) by (nonlinear_arith)
            requires
                start == rel * s / v,
                start >= from,
                v > 0,
        ;
        assert(first <= rel) by (nonlinear_arith)
            requires
                from * v <= rel * s,
                first == from * v / s,
                s > 0,
        ;
    } else {
        assert(end > from);
        assert((from + 1) * v <= (rel + 1) * s) by (nonlinear_arith)
            requires
                end == (rel + 1) * s / v,
                end >= from + 1,
                v > 0,
        ;
        assert(first <= rel) by (nonlinear_arith)
            requires
                (from + 1) * v <= (rel + 1) * s,
                v > 0,
                first == from * v / s,
                s > 0,
        ;
    }
}

/// Mapped damage misses nothing: an output pixel that averages any damaged
/// source pixel lies in the mapped region.
pub proof fn mapped_damage_covers_every_changed_pixel(
    geometry: PresentationGeometry,
    region: Region,
    rel_x: int,
    rel_y: int,
)
    requires
        geometry.wf(),
        geometry.presentation.width <= i32::MAX,
        geometry.presentation.height <= i32::MAX,
        0 <= rel_x < geometry.visible().width,
        0 <= rel_y < geometry.visible().height,
        ({
            let source = geometry.source;
            let v = geometry.visible();
            let (x0, x1) = cut(region.0, region.2, source.width);
            let (y0, y1) = cut(region.1, region.3, source.height);
            &&& x0 < x1 && y0 < y1
            &&& box_start(rel_x, source.width as int, v.width as int) < x1
            &&& x0 < box_end(rel_x, source.width as int, v.width as int)
            &&& box_start(rel_y, source.height as int, v.height as int) < y1
            &&& y0 < box_end(rel_y, source.height as int, v.height as int)
        }),
    ensures
        ({
            let v = geometry.visible();
            match geometry.shown_region(region) {
                Some(r) => {
                    &&& r.0 <= v.x + rel_x < r.0 + r.2
                    &&& r.1 <= v.y + rel_y < r.1 + r.3
                },
                None => false,
            }
        }),
{
    let source = geometry.source;
    let v = geometry.visible();
    the_picture_lies_inside(source, geometry.presentation);
    let (x0, x1) = cut(region.0, region.2, source.width);
    let (y0, y1) = cut(region.1, region.3, source.height);
    lemma_shown_covers(rel_x, source.width, v.x, v.width, x0, x1);
    lemma_shown_covers(rel_y, source.height, v.y, v.height, y0, y1);
    lemma_shown_range(x0, x1, source.width, v.x, v.width);
    lemma_shown_range(y0, y1, source.height, v.y, v.height);
}

/// Where the picture is no smaller than the source, every output pixel is a copy
/// of one source pixel.
pub proof fn upscaling_copies_single_pixels(
    data: Seq<u8>,
    stride: int,
    source: Size,
    visible: Rect,
    rel_y: int,
    rel_x: int,
    c: int,
)
    requires
        source.wf(),
        source.width <= visible.width,
        source.height <= visible.height,
        0 <= rel_y < visible.height,
        0 <= rel_x < visible.width,
    ensures
        averaged(data, stride, source, visible, rel_y, rel_x, c) == data[box_start(
            rel_y,
            source.height as int,
            visible.height as int,
        ) * stride + box_start(rel_x, source.width as int, visible.width as int) * 4 + c],
{
    let y = box_start(rel_y, source.height as int, visible.height as int);
    let x = box_start(rel_x, source.width as int, visible.width as int);
    lemma_single_pixel_box(rel_y, source.height as int, visible.height as int);
    lemma_single_pixel_box(rel_x, source.width as int, visible.width as int);
    assert((y + 1 - y) * (x + 1 - x) == 1) by (nonlinear_arith);
    assert(row_sum(data, stride, y, x, x, c) == 0);
    assert(row_sum(data, stride, y, x, x + 1, c) == data[y * stride + x * 4 + c]);
    assert(box_sum(data, stride, y, y, x, x + 1, c) == 0);
    assert(box_sum(data, stride, y, y + 1, x, x + 1, c) == data[y * stride + x * 4 + c]);
}

proof fn lemma_single_pixel_box(rel: int, source: int, visible: int)
    requires
        0 <= rel < visible,
        0 < source <= visible,
    ensures
        box_end(rel, source, visible) == box_start(rel, source, visible) + 1,
{
    lemma_box(rel, source, visible);
    let start = rel * source / visible;
    assert((rel + 1) * source / visible <= start + 1) by (nonlinear_arith)
        requires
            start == rel * source / visible,
            0 < source <= visible,
            0 <= rel,
    ;
}

/// Outside the picture a scaled frame stays black.
pub proof fn bars_stay_black(
    data: Seq<u8>,
    stride: int,
    format: PixelFormat,
    geometry: PresentationGeometry,
    k: int,
)
    requires
        ({
            let size = geometry.presentation;
            let area = geometry.visible();
            &&& 0 <= k < size.width * 4 * size.height
            &&& !painted(k, size.width * 4, area, area.y + area.height, 0)
        }),
    ensures
        ({
            let size = geometry.presentation;
            scaled(
                black((size.width * 4 * size.height) as nat, format),
                size.width * 4,
                data,
                stride,
                geometry,
            )[k] == black_byte(format, k % 4)
        }),
{
}

proof fn lemma_uniform_row(
    data: Seq<u8>,
    stride: int,
    row: int,
    from: int,
    to: int,
    c: int,
    v: u8,
)
    requires
        from <= to,
        forall|x: int| from <= x < to ==> #[trigger] data[row * stride + x * 4 + c] == v,
    ensures
        row_sum(data, stride, row, from, to, c) == v * (to - from),
    decreases to - from,
{
    if from < to {
        lemma_uniform_row(data, stride, row, from, to - 1, c, v);
        assert(data[row * stride + (to - 1) * 4 + c] == v);
        assert(v * (to - 1 - from) + v == v * (to - from)) by (nonlinear_arith);
    } else {
        assert(v * (to - from) == 0) by (nonlinear_arith)
            requires
                to == from,
        ;
    }
}

/// Whether channel `c` is the same all over the source.
pub open spec fn is_uniform(data: Seq<u8>, stride: int, source: Size, c: int, v: u8) -> bool {
    forall|y: int, x: int|
        0 <= y < source.height && 0 <= x < source.width ==> #[trigger] data[y * stride + x * 4 + c]
            == v
}

proof fn lemma_uniform_box(
    data: Seq<u8>,
    stride: int,
    source: Size,
    top: int,
    bottom: int,
    left: int,
    right: int,
    c: int,
    v: u8,
)
    requires
        0 <= top <= bottom <= source.height,
        0 <= left <= right <= source.width,
        is_uniform(data, stride, source, c, v),
    ensures
        box_sum(data, stride, top, bottom, left, right, c) == v * ((bottom - top) * (right - left)),
    decreases bottom - top,
{
    if top < bottom {
        lemma_uniform_box(data, stride, source, top, bottom - 1, left, right, c, v);
        lemma_uniform_row(data, stride, bottom - 1, left, right, c, v);
        assert(v * ((bottom - 1 - top) * (right - left)) + v * (right - left) == v * ((bottom - top)
            * (right - left))) by (nonlinear_arith);
    } else {
        assert(v * ((bottom - top) * (right - left)) == 0) by (nonlinear_arith)
            requires
                bottom == top,
        ;
    }
}

/// A source of one colour stays that colour, whatever it is scaled to.
pub proof fn one_colour_stays_that_colour(
    data: Seq<u8>,
    stride: int,
    source: Size,
    visible: Rect,
    rel_y: int,
    rel_x: int,
    c: int,
    v: u8,
)
    requires
        source.wf(),
        0 <= rel_y < visible.height,
        0 <= rel_x < visible.width,
        is_uniform(data, stride, source, c, v),
    ensures
        averaged(data, stride, source, visible, rel_y, rel_x, c) == v,
{
    let top = box_start(rel_y, source.height as int, visible.height as int);
    let bottom = box_end(rel_y, source.height as int, visible.height as int);
    let left = box_start(rel_x, source.width as int, visible.width as int);
    let right = box_end(rel_x, source.width as int, visible.width as int);
    lemma_box(rel_y, source.height as int, visible.height as int);
    lemma_box(rel_x, source.width as int, visible.width as int);
    lemma_uniform_box(data, stride, source, top, bottom, left, right, c, v);
    let count = (bottom - top) * (right - left);
    assert(count > 0) by (nonlinear_arith)
        requires
            count == (bottom - top) * (right - left),
            bottom > top,
            right > left,
    ;
    assert((v * count + count / 2) / count == v) by (nonlinear_arith)
        requires
            count > 0,
    ;
}

} // verus!
