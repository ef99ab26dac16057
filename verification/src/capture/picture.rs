//! What a prepared frame shows, told by the source and the presentation alone.
use std::borrow::Cow;

use vstd::prelude::*;

use super::scale::{
    averaged, blackened, box_end, box_start, box_sum, is_generation_action, is_prepared,
    mapped_damage_covers_every_changed_pixel, prepared_shape, prepares, row_sum, scaled,
    OutputLayoutSnapshot, PixelFormat, PreparedPresentationFrame, PresentationGenerationAction,
    ScaleError,
};
use crate::display::geometry::{
    cut, lemma_shown_range, the_picture_lies_inside, PresentationGeometry, Rect, Region, Size,
};

verus! {

/// The bytes of a prepared frame.
pub open spec fn frame_bytes(frame: PreparedPresentationFrame<'_>) -> Seq<u8> {
    match frame.data {
        Cow::Borrowed(bytes) => bytes@,
        Cow::Owned(bytes) => bytes@,
    }
}

/// Channel `c` of a pixel of a prepared frame.
pub open spec fn frame_channel(frame: PreparedPresentationFrame<'_>, y: int, x: int, c: int) -> u8 {
    frame_bytes(frame)[y * frame.stride + x * 4 + c]
}

/// The sum of `f` over `[from, to)`.
pub open spec fn total(f: spec_fn(int) -> int, from: int, to: int) -> int
    decreases to - from,
{
    if to <= from {
        0
    } else {
        total(f, from, to - 1) + f(to - 1)
    }
}

/// The sum of channel `c` over the source pixels of rows `[top, bottom)` and columns
/// `[left, right)`.
pub open spec fn source_total(
    data: Seq<u8>,
    stride: int,
    top: int,
    bottom: int,
    left: int,
    right: int,
    c: int,
) -> int {
    total(
        |y: int| total(|x: int| data[y * stride + x * 4 + c] as int, left, right),
        top,
        bottom,
    )
}

/// Pixel `rel` of `visible` lies over the source pixels `[from, to)`: it begins in
/// the first of them, and ends where the last of them ends, up to a part of a pixel.
/// Where the source is the smaller one, that is a single pixel.
pub open spec fn covers(rel: int, source: int, visible: int, from: int, to: int) -> bool {
    &&& from * visible <= rel * source < (from + 1) * visible
    &&& if source >= visible {
        to * visible <= (rel + 1) * source < (to + 1) * visible
    } else {
        to == from + 1
    }
}

proof fn lemma_covers(rel: int, source: int, visible: int, from: int, to: int)
    requires
        0 <= rel < visible,
        0 < source,
        covers(rel, source, visible, from, to),
    ensures
        from == box_start(rel, source, visible),
        to == box_end(rel, source, visible),
        0 <= from < to <= source,
{
    let start = rel * source / visible;
    let end = (rel + 1) * source / visible;
    assert(start == from) by (nonlinear_arith)
        requires
            start == rel * source / visible,
            from * visible <= rel * source < (from + 1) * visible,
            visible > 0,
    ;
    assert(0 <= from) by (nonlinear_arith)
        requires
            start == rel * source / visible,
            start == from,
            0 <= rel,
            0 < source,
            0 < visible,
    ;
    assert(rel * source < visible * source) by (nonlinear_arith)
        requires
            rel < visible,
            0 < source,
    ;
    assert(from < source) by (nonlinear_arith)
        requires
            from * visible < visible * source,
            0 < visible,
    ;
    if source >= visible {
        assert(end == to) by (nonlinear_arith)
            requires
                end == (rel + 1) * source / visible,
                to * visible <= (rel + 1) * source < (to + 1) * visible,
                visible > 0,
        ;
        assert(to > from) by (nonlinear_arith)
            requires
                from * visible <= rel * source,
                (rel + 1) * source < (to + 1) * visible,
                source >= visible,
                visible > 0,
        ;
        assert(to <= source) by (nonlinear_arith)
            requires
                to * visible <= (rel + 1) * source,
                rel + 1 <= visible,
                0 < source,
                visible > 0,
        ;
    } else {
        assert(end <= from + 1) by (nonlinear_arith)
            requires
                end == (rel + 1) * source / visible,
                rel * source < (from + 1) * visible,
                source <= visible,
                visible > 0,
        ;
    }
}

proof fn lemma_row_total(data: Seq<u8>, stride: int, row: int, from: int, to: int, c: int)
    ensures
        row_sum(data, stride, row, from, to, c) == total(
            |x: int| data[row * stride + x * 4 + c] as int,
            from,
            to,
        ),
    decreases to - from,
{
    if from < to {
        lemma_row_total(data, stride, row, from, to - 1, c);
    }
}

proof fn lemma_box_total(
    data: Seq<u8>,
    stride: int,
    top: int,
    bottom: int,
    left: int,
    right: int,
    c: int,
)
    ensures
        box_sum(data, stride, top, bottom, left, right, c) == source_total(
            data,
            stride,
            top,
            bottom,
            left,
            right,
            c,
        ),
    decreases bottom - top,
{
    if top < bottom {
        lemma_box_total(data, stride, top, bottom - 1, left, right, c);
        lemma_row_total(data, stride, bottom - 1, left, right, c);
    }
}

proof fn lemma_total_bounds(f: spec_fn(int) -> int, from: int, to: int, most: int)
    requires
        from <= to,
        forall|i: int| from <= i < to ==> 0 <= #[trigger] f(i) <= most,
    ensures
        0 <= total(f, from, to) <= most * (to - from),
    decreases to - from,
{
    if from < to {
        lemma_total_bounds(f, from, to - 1, most);
        assert(0 <= f(to - 1) <= most);
        assert(most * (to - 1 - from) + most == most * (to - from)) by (nonlinear_arith);
    } else {
        assert(most * (to - from) == 0) by (nonlinear_arith)
            requires
                to == from,
        ;
    }
}

proof fn lemma_source_total_bounds(
    data: Seq<u8>,
    stride: int,
    top: int,
    bottom: int,
    left: int,
    right: int,
    c: int,
)
    requires
        top <= bottom,
        left <= right,
    ensures
        0 <= source_total(data, stride, top, bottom, left, right, c) <= 255 * ((bottom - top) * (
        right - left)),
{
    let rows = |y: int| total(|x: int| data[y * stride + x * 4 + c] as int, left, right);
    assert forall|y: int| top <= y < bottom implies 0 <= #[trigger] rows(y) <= 255 * (right
        - left) by {
        lemma_total_bounds(|x: int| data[y * stride + x * 4 + c] as int, left, right, 255);
    }
    lemma_total_bounds(rows, top, bottom, 255 * (right - left));
    assert(255 * (right - left) * (bottom - top) == 255 * ((bottom - top) * (right - left)))
        by (nonlinear_arith);
}

proof fn lemma_mean(
    data: Seq<u8>,
    stride: int,
    source: Size,
    visible: Rect,
    y: int,
    x: int,
    c: int,
    top: int,
    bottom: int,
    left: int,
    right: int,
)
    requires
        source.wf(),
        0 <= y < visible.height,
        0 <= x < visible.width,
        covers(y, source.height as int, visible.height as int, top, bottom),
        covers(x, source.width as int, visible.width as int, left, right),
    ensures
        ({
            let count = (bottom - top) * (right - left);
            let value = averaged(data, stride, source, visible, y, x, c) as int;
            let sum = source_total(data, stride, top, bottom, left, right, c);
            count > 0 && value * count <= sum + count / 2 < (value + 1) * count
        }),
{
    lemma_covers(y, source.height as int, visible.height as int, top, bottom);
    lemma_covers(x, source.width as int, visible.width as int, left, right);
    lemma_box_total(data, stride, top, bottom, left, right, c);
    lemma_source_total_bounds(data, stride, top, bottom, left, right, c);
    let count = (bottom - top) * (right - left);
    let sum = source_total(data, stride, top, bottom, left, right, c);
    assert(count > 0) by (nonlinear_arith)
        requires
            count == (bottom - top) * (right - left),
            bottom > top,
            right > left,
    ;
    let q = (sum + count / 2) / count;
    assert(0 <= q <= 255 && q * count <= sum + count / 2 < (q + 1) * count) by (nonlinear_arith)
        requires
            q == (sum + count / 2) / count,
            0 <= sum <= 255 * count,
            count > 0,
    ;
}

proof fn lemma_pixel_index(stride: int, y: int, x: int, c: int)
    requires
        0 <= y,
        0 <= x,
        0 <= c < 4,
        4 * (x + 1) <= stride,
    ensures
        ({
            let k = y * stride + x * 4 + c;
            k / stride == y && k % stride == x * 4 + c && k % stride / 4 == x && k % stride % 4 == c
        }),
{
    let k = y * stride + x * 4 + c;
    vstd::arithmetic::div_mod::lemma_fundamental_div_mod_converse(k, stride, y, x * 4 + c);
}

proof fn lemma_pixel_in_frame(size: Size, y: int, x: int, c: int)
    requires
        0 <= y < size.height,
        0 <= x < size.width,
        0 <= c < 4,
    ensures
        0 <= y * (size.width * 4) + x * 4 + c < size.width * 4 * size.height,
        (y * (size.width * 4) + x * 4 + c) % 4 == c,
{
    let w = size.width as int;
    let h = size.height as int;
    assert(0 <= y * (w * 4)) by (nonlinear_arith)
        requires
            0 <= y,
            0 <= w,
    ;
    assert(y * (w * 4) + w * 4 <= w * 4 * h) by (nonlinear_arith)
        requires
            y + 1 <= h,
            0 <= w,
    ;
    assert(y * (w * 4) == 4 * (y * w)) by (nonlinear_arith);
}

/// Every pixel of the picture is the mean of the source pixels that it lies over,
/// all of them and no others, rounded to the nearest with halves rounded up. It
/// stands in the presentation where the picture does.
pub proof fn the_picture_averages_what_it_covers(
    frame: PreparedPresentationFrame<'_>,
    data: Seq<u8>,
    stride: u32,
    format: PixelFormat,
    damage: Seq<Region>,
    geometry: PresentationGeometry,
    generation: u32,
    y: int,
    x: int,
    c: int,
    top: int,
    bottom: int,
    left: int,
    right: int,
)
    requires
        geometry.wf(),
        geometry.source != geometry.presentation,
        is_prepared(frame, data, stride, format, damage, geometry, generation),
        0 <= y < geometry.visible().height,
        0 <= x < geometry.visible().width,
        0 <= c < 4,
        covers(
            y,
            geometry.source.height as int,
            geometry.visible().height as int,
            top,
            bottom,
        ),
        covers(x, geometry.source.width as int, geometry.visible().width as int, left, right),
    ensures
        ({
            let area = geometry.visible();
            let count = (bottom - top) * (right - left);
            let value = frame_channel(frame, area.y + y, area.x + x, c) as int;
            let sum = source_total(data, stride as int, top, bottom, left, right, c);
            &&& 0 <= top < bottom <= geometry.source.height
            &&& 0 <= left < right <= geometry.source.width
            &&& value * count <= sum + count / 2 < (value + 1) * count
        }),
{
    let area = geometry.visible();
    let size = geometry.presentation;
    the_picture_lies_inside(geometry.source, size);
    lemma_covers(y, geometry.source.height as int, area.height as int, top, bottom);
    lemma_covers(x, geometry.source.width as int, area.width as int, left, right);
    lemma_mean(
        data,
        stride as int,
        geometry.source,
        area,
        y,
        x,
        c,
        top,
        bottom,
        left,
        right,
    );
    lemma_pixel_index(size.width * 4, area.y + y, area.x + x, c);
    lemma_pixel_in_frame(size, area.y + y, area.x + x, c);
}

proof fn lemma_total_shift(f: spec_fn(int) -> int, g: spec_fn(int) -> int, at: int, n: int)
    requires
        forall|i: int| 0 <= i < n ==> #[trigger] g(i) == f(at + i),
    ensures
        total(g, 0, n) == total(f, at, at + n),
    decreases n,
{
    if n > 0 {
        lemma_total_shift(f, g, at, n - 1);
        assert(g(n - 1) == f(at + (n - 1)));
    }
}

/// Where the source is `k` times the picture in both directions, a pixel of the
/// picture is the mean of the `k` times `k` source pixels in its place.
pub proof fn whole_blocks_are_averaged(
    frame: PreparedPresentationFrame<'_>,
    data: Seq<u8>,
    stride: u32,
    format: PixelFormat,
    damage: Seq<Region>,
    geometry: PresentationGeometry,
    generation: u32,
    k: int,
    y: int,
    x: int,
    c: int,
)
    requires
        geometry.wf(),
        geometry.source != geometry.presentation,
        is_prepared(frame, data, stride, format, damage, geometry, generation),
        k >= 1,
        geometry.source.height == k * geometry.visible().height,
        geometry.source.width == k * geometry.visible().width,
        0 <= y < geometry.visible().height,
        0 <= x < geometry.visible().width,
        0 <= c < 4,
    ensures
        ({
            let area = geometry.visible();
            let value = frame_channel(frame, area.y + y, area.x + x, c) as int;
            let sum = total(
                |i: int|
                    total(
                        |j: int| data[(k * y + i) * stride + (k * x + j) * 4 + c] as int,
                        0,
                        k,
                    ),
                0,
                k,
            );
            value * (k * k) <= sum + (k * k) / 2 < (value + 1) * (k * k)
        }),
{
    let area = geometry.visible();
    let s = stride as int;
    let h = area.height as int;
    let w = area.width as int;
    lemma_whole_block(y, k, h);
    lemma_whole_block(x, k, w);
    the_picture_averages_what_it_covers(
        frame,
        data,
        stride,
        format,
        damage,
        geometry,
        generation,
        y,
        x,
        c,
        k * y,
        k * y + k,
        k * x,
        k * x + k,
    );
    let rows = |r: int| total(|q: int| data[r * s + q * 4 + c] as int, k * x, k * x + k);
    let block = |i: int|
        total(|j: int| data[(k * y + i) * stride + (k * x + j) * 4 + c] as int, 0, k);
    assert forall|i: int| 0 <= i < k implies #[trigger] block(i) == rows(k * y + i) by {
        lemma_total_shift(
            |q: int| data[(k * y + i) * s + q * 4 + c] as int,
            |j: int| data[(k * y + i) * stride + (k * x + j) * 4 + c] as int,
            k * x,
            k,
        );
    }
    lemma_total_shift(rows, block, k * y, k);
    assert((k * y + k - k * y) * (k * x + k - k * x) == k * k);
}

proof fn lemma_whole_block(rel: int, k: int, visible: int)
    requires
        0 <= rel < visible,
        k >= 1,
    ensures
        covers(rel, k * visible, visible, k * rel, k * rel + k),
{
    assert((k * rel) * visible == rel * (k * visible)) by (nonlinear_arith);
    assert((k * rel + k) * visible == (rel + 1) * (k * visible)) by (nonlinear_arith);
    assert((k * rel + 1) * visible == (k * rel) * visible + visible) by (nonlinear_arith);
    assert((k * rel + k + 1) * visible == (k * rel + k) * visible + visible) by (nonlinear_arith);
    assert(k * visible >= visible) by (nonlinear_arith)
        requires
            k >= 1,
            visible > 0,
    ;
}

/// Downscaling drops nothing: every source row, and every source column, is covered
/// by some row or column of the picture.
pub proof fn no_source_pixel_is_dropped(at: int, source: int, visible: int)
    requires
        0 <= at < source,
        0 < visible <= source,
    ensures
        exists|rel: int, from: int, to: int|
            0 <= rel < visible && #[trigger] covers(rel, source, visible, from, to) && from <= at
                < to,
{
    let rel = ((at + 1) * visible - 1) / source;
    let from = rel * source / visible;
    let to = (rel + 1) * source / visible;
    assert(rel * source < (at + 1) * visible <= (rel + 1) * source && 0 <= rel < visible)
        by (nonlinear_arith)
        requires
            rel == ((at + 1) * visible - 1) / source,
            0 <= at < source,
            0 < visible,
    ;
    assert(from * visible <= rel * source < (from + 1) * visible) by (nonlinear_arith)
        requires
            from == rel * source / visible,
            visible > 0,
    ;
    assert(to * visible <= (rel + 1) * source < (to + 1) * visible) by (nonlinear_arith)
        requires
            to == (rel + 1) * source / visible,
            visible > 0,
    ;
    assert(from <= at) by (nonlinear_arith)
        requires
            from * visible <= rel * source,
            rel * source < (at + 1) * visible,
            visible > 0,
    ;
    assert(at < to) by (nonlinear_arith)
        requires
            (at + 1) * visible <= (rel + 1) * source,
            (rel + 1) * source < (to + 1) * visible,
            visible > 0,
    ;
    assert(covers(rel, source, visible, from, to));
}

/// Around the picture the frame is black, and opaque where its format has an alpha
/// byte: the first one, or the last.
pub proof fn the_bars_are_black(
    frame: PreparedPresentationFrame<'_>,
    data: Seq<u8>,
    stride: u32,
    format: PixelFormat,
    damage: Seq<Region>,
    geometry: PresentationGeometry,
    generation: u32,
    y: int,
    x: int,
    c: int,
)
    requires
        geometry.wf(),
        geometry.source != geometry.presentation,
        is_prepared(frame, data, stride, format, damage, geometry, generation),
        0 <= y < geometry.presentation.height,
        0 <= x < geometry.presentation.width,
        0 <= c < 4,
        ({
            let area = geometry.visible();
            ||| y < area.y
            ||| y >= area.y + area.height
            ||| x < area.x
            ||| x >= area.x + area.width
        }),
    ensures
        frame_channel(frame, y, x, c) == match format {
            PixelFormat::ARgb32 | PixelFormat::ABgr32 => if c == 0 {
                255u8
            } else {
                0u8
            },
            PixelFormat::BgrA32 | PixelFormat::RgbA32 => if c == 3 {
                255u8
            } else {
                0u8
            },
            PixelFormat::XRgb32
            | PixelFormat::XBgr32
            | PixelFormat::BgrX32
            | PixelFormat::RgbX32 => 0u8,
        },
{
    let size = geometry.presentation;
    lemma_pixel_index(size.width * 4, y, x, c);
    lemma_pixel_in_frame(size, y, x, c);
}

/// A prepared frame has the size of the presentation and whole rows of it; one that
/// is shown as it is has the source's bytes.
pub proof fn a_prepared_frame_fills_the_presentation(
    frame: PreparedPresentationFrame<'_>,
    data: Seq<u8>,
    stride: u32,
    format: PixelFormat,
    damage: Seq<Region>,
    geometry: PresentationGeometry,
    generation: u32,
)
    requires
        geometry.wf(),
        is_prepared(frame, data, stride, format, damage, geometry, generation),
    ensures
        frame.width == geometry.presentation.width,
        frame.height == geometry.presentation.height,
        frame.geometry_generation == generation,
        if geometry.source == geometry.presentation {
            frame_bytes(frame) == data && frame.stride == stride && frame.data is Borrowed
        } else {
            frame_bytes(frame).len() == frame.stride * frame.height && frame.stride == 4
                * frame.width && frame.data is Owned
        },
{
}

/// A frame is prepared for the layout's presentation, as a source of its own size
/// and with the layout's generation, exactly where the source is not empty, its rows
/// are long enough and all there, and the presentation can be addressed.
pub proof fn what_a_frame_becomes(
    data: Seq<u8>,
    width: u32,
    height: u32,
    stride: u32,
    format: PixelFormat,
    damage: Seq<Region>,
    snapshot: OutputLayoutSnapshot,
    r: Result<PreparedPresentationFrame<'_>, ScaleError>,
)
    requires
        data.len() <= usize::MAX,
        prepares(data, width, height, stride, format, damage, snapshot, r),
    ensures
        ({
            let size = snapshot.presentation_geometry.presentation;
            &&& r is Ok ==> is_prepared(
                r->Ok_0,
                data,
                stride,
                format,
                damage,
                PresentationGeometry { source: Size { width, height }, presentation: size },
                snapshot.geometry_generation,
            )
            &&& r is Ok <==> {
                &&& width > 0 && height > 0
                &&& data.len() >= stride * height
                &&& if width == size.width && height == size.height {
                    stride * height <= u32::MAX
                } else {
                    &&& size.width * 4 <= u32::MAX
                    &&& size.width * 4 * size.height <= u32::MAX
                    &&& stride >= width * 4
                }
            }
        }),
{
    assert(data.len() as usize == data.len());
}

/// Damage reaches the presentation: a pixel of the picture that lies over a damaged
/// source pixel is in the region that the damage becomes.
pub proof fn damage_is_shown(
    geometry: PresentationGeometry,
    region: Region,
    sy: int,
    sx: int,
    y: int,
    x: int,
    top: int,
    bottom: int,
    left: int,
    right: int,
)
    requires
        geometry.wf(),
        geometry.presentation.width <= i32::MAX,
        geometry.presentation.height <= i32::MAX,
        0 <= sx < geometry.source.width,
        0 <= sy < geometry.source.height,
        region.0 <= sx < region.0 + region.2,
        region.1 <= sy < region.1 + region.3,
        0 <= x < geometry.visible().width,
        0 <= y < geometry.visible().height,
        covers(x, geometry.source.width as int, geometry.visible().width as int, left, right),
        covers(
            y,
            geometry.source.height as int,
            geometry.visible().height as int,
            top,
            bottom,
        ),
        left <= sx < right,
        top <= sy < bottom,
    ensures
        ({
            let v = geometry.visible();
            match geometry.shown_region(region) {
                Some(r) => {
                    &&& r.0 <= v.x + x < r.0 + r.2
                    &&& r.1 <= v.y + y < r.1 + r.3
                },
                None => false,
            }
        }),
{
    let v = geometry.visible();
    lemma_covers(x, geometry.source.width as int, v.width as int, left, right);
    lemma_covers(y, geometry.source.height as int, v.height as int, top, bottom);
    mapped_damage_covers_every_changed_pixel(geometry, region, x, y);
}

/// Whether pixel `rel` of `visible` overlaps pixel `at` of a source.
pub open spec fn overlaps(rel: int, source: int, visible: int, at: int) -> bool {
    rel * source < (at + 1) * visible && at * visible < (rel + 1) * source
}

proof fn lemma_overlap(rel: int, source: int, visible: int, from: int, to: int) -> (at: int)
    requires
        0 < source,
        0 < visible,
        0 <= from < to <= source,
        from * visible / source <= rel < (to * visible + source - 1) / source,
    ensures
        from <= at < to,
        overlaps(rel, source, visible, at),
{
    let under = rel * source / visible;
    assert(under * visible <= rel * source < (under + 1) * visible) by (nonlinear_arith)
        requires
            under == rel * source / visible,
            visible > 0,
    ;
    assert(from * visible < (rel + 1) * source) by (nonlinear_arith)
        requires
            from * visible / source <= rel,
            source > 0,
    ;
    assert(rel * source < to * visible) by (nonlinear_arith)
        requires
            rel < (to * visible + source - 1) / source,
            source > 0,
    ;
    assert(under < to) by (nonlinear_arith)
        requires
            under * visible <= rel * source,
            rel * source < to * visible,
            visible > 0,
    ;
    if under >= from {
        assert(under * visible < (rel + 1) * source) by (nonlinear_arith)
            requires
                under * visible <= rel * source,
                source > 0,
        ;
        under
    } else {
        assert(rel * source < (from + 1) * visible) by (nonlinear_arith)
            requires
                rel * source < (under + 1) * visible,
                under < from,
                visible > 0,
        ;
        from
    }
}

/// Damage is not spread: every pixel of the region that it becomes overlaps a
/// damaged source pixel.
pub proof fn only_damage_is_shown(geometry: PresentationGeometry, region: Region, y: int, x: int)
    requires
        geometry.wf(),
        geometry.presentation.width <= i32::MAX,
        geometry.presentation.height <= i32::MAX,
        match geometry.shown_region(region) {
            Some(r) => r.0 <= x < r.0 + r.2 && r.1 <= y < r.1 + r.3,
            None => false,
        },
    ensures
        ({
            let v = geometry.visible();
            exists|sy: int, sx: int|
                {
                    &&& region.0 <= sx < region.0 + region.2
                    &&& region.1 <= sy < region.1 + region.3
                    &&& 0 <= sx < geometry.source.width
                    &&& 0 <= sy < geometry.source.height
                    &&& #[trigger] overlaps(
                        x - v.x,
                        geometry.source.width as int,
                        v.width as int,
                        sx,
                    )
                    &&& #[trigger] overlaps(
                        y - v.y,
                        geometry.source.height as int,
                        v.height as int,
                        sy,
                    )
                }
        }),
{
    let source = geometry.source;
    let v = geometry.visible();
    the_picture_lies_inside(source, geometry.presentation);
    let (x0, x1) = cut(region.0, region.2, source.width);
    let (y0, y1) = cut(region.1, region.3, source.height);
    lemma_shown_range(x0, x1, source.width, v.x, v.width);
    lemma_shown_range(y0, y1, source.height, v.y, v.height);
    let sx = lemma_overlap(x - v.x, source.width as int, v.width as int, x0, x1);
    let sy = lemma_overlap(y - v.y, source.height as int, v.height as int, y0, y1);
    assert(overlaps(x - v.x, source.width as int, v.width as int, sx));
    assert(overlaps(y - v.y, source.height as int, v.height as int, sy));
}

/// Damage outside the source is nothing; all other damage becomes a region.
pub proof fn damage_outside_the_source_is_dropped(geometry: PresentationGeometry, region: Region)
    ensures
        geometry.shown_region(region) is Some <==> {
            &&& region.2 > 0 && region.3 > 0
            &&& region.0 < geometry.source.width && region.0 + region.2 > 0
            &&& region.1 < geometry.source.height && region.1 + region.3 > 0
        } && geometry.source.wf(),
{
}

/// Damage is mapped region by region and in order; where the source is shown as it
/// is, so is its damage.
pub proof fn damage_keeps_its_order(
    geometry: PresentationGeometry,
    first: Seq<Region>,
    region: Region,
)
    ensures
        geometry.source == geometry.presentation ==> geometry.shown_damage(first) == first,
        geometry.source != geometry.presentation ==> {
            &&& geometry.shown_damage(Seq::<Region>::empty()) == Seq::<Region>::empty()
            &&& geometry.shown_damage(first.push(region)) == match geometry.shown_region(region) {
                Some(r) => geometry.shown_damage(first).push(r),
                None => geometry.shown_damage(first),
            }
        },
{
    assert(first.push(region).drop_last() =~= first);
}

/// The damage of a prepared frame is that of its source, mapped.
pub proof fn a_prepared_frame_carries_its_damage(
    frame: PreparedPresentationFrame<'_>,
    data: Seq<u8>,
    stride: u32,
    format: PixelFormat,
    damage: Seq<Region>,
    geometry: PresentationGeometry,
    generation: u32,
)
    requires
        is_prepared(frame, data, stride, format, damage, geometry, generation),
    ensures
        frame.damage_regions@ == geometry.shown_damage(damage),
{
}

/// The first frame of another geometry is encoded as a whole and refreshes the
/// processor, once: after it, frames of that geometry keep their own damage.
pub proof fn a_new_geometry_is_shown_once(
    first: PresentationGenerationAction,
    second: PresentationGenerationAction,
    current: u32,
    frame: PreparedPresentationFrame<'_>,
    next: PreparedPresentationFrame<'_>,
)
    requires
        is_generation_action(first, current, frame),
        is_generation_action(second, first.next_generation, next),
        next.geometry_generation == frame.geometry_generation,
    ensures
        first.refresh_processor <==> frame.geometry_generation != current,
        first.refresh_processor && frame.width <= i32::MAX && frame.height <= i32::MAX ==> {
            &&& first.damage_regions@.len() == 1
            &&& first.damage_regions@[0].0 == 0 && first.damage_regions@[0].1 == 0
            &&& first.damage_regions@[0].2 == frame.width
            &&& first.damage_regions@[0].3 == frame.height
        },
        !first.refresh_processor ==> first.damage_regions@ == frame.damage_regions@,
        !second.refresh_processor,
        second.damage_regions@ == next.damage_regions@,
{
}

/// A frame that can be prepared has the shape that is announced for it: that of the
/// presentation, with rows of its own unless it is shown as it is.
pub proof fn the_announced_shape_is_the_presentation(
    source: Size,
    stride: u32,
    geometry: PresentationGeometry,
)
    requires
        geometry.source == source,
        source.wf(),
        geometry.presentation.width * 4 <= u32::MAX,
    ensures
        ({
            let size = geometry.presentation;
            match prepared_shape(source, stride, geometry) {
                Ok(shape) => {
                    &&& shape.0 == size.width && shape.1 == size.height
                    &&& shape.2 == if source == size {
                        stride as int
                    } else {
                        4 * size.width
                    }
                },
                Err(_) => false,
            }
        }),
{
}

/// Each refusal has its own reason, the first one that holds.
pub proof fn why_a_frame_is_refused(
    data: Seq<u8>,
    width: u32,
    height: u32,
    stride: u32,
    format: PixelFormat,
    damage: Seq<Region>,
    snapshot: OutputLayoutSnapshot,
    r: Result<PreparedPresentationFrame<'_>, ScaleError>,
)
    requires
        data.len() <= usize::MAX,
        stride * height <= usize::MAX,
        prepares(data, width, height, stride, format, damage, snapshot, r),
        r is Err,
    ensures
        ({
            let size = snapshot.presentation_geometry.presentation;
            let same = width == size.width && height == size.height;
            match r->Err_0 {
                ScaleError::InvalidSourceSize => width == 0 || height == 0,
                ScaleError::SourceSizeOverflow => same && stride * height > u32::MAX,
                ScaleError::SourceTooSmall { got, need } => got == data.len() && need == stride
                    * height && got < need,
                ScaleError::SourceStrideTooSmall { stride: s, width: w } => !same && s == stride
                    && w == width && s < 4 * w,
                ScaleError::PresentationStrideOverflow => !same && size.width * 4 > u32::MAX,
                ScaleError::PresentationSizeOverflow => !same && size.width * 4 * size.height
                    > u32::MAX,
            }
        }),
{
    assert(data.len() as usize == data.len());
}

/// Painting a picture into any buffer: each of its pixels is the mean of the source pixels
/// that it lies over, and every other byte is kept.
pub proof fn painting_keeps_what_is_around(
    output: Seq<u8>,
    output_stride: int,
    data: Seq<u8>,
    stride: int,
    geometry: PresentationGeometry,
    y: int,
    x: int,
    c: int,
    top: int,
    bottom: int,
    left: int,
    right: int,
)
    requires
        geometry.wf(),
        0 <= y,
        0 <= x,
        0 <= c < 4,
        4 * (x + 1) <= output_stride,
        y * output_stride + x * 4 + c < output.len(),
    ensures
        ({
            let area = geometry.visible();
            let at = y * output_stride + x * 4 + c;
            let painted = scaled(output, output_stride, data, stride, geometry);
            let value = painted[at] as int;
            let inside = area.y <= y < area.y + area.height && area.x <= x < area.x + area.width;
            &&& painted.len() == output.len()
            &&& !inside ==> painted[at] == output[at]
            &&& inside && covers(
                y - area.y,
                geometry.source.height as int,
                area.height as int,
                top,
                bottom,
            ) && covers(
                x - area.x,
                geometry.source.width as int,
                area.width as int,
                left,
                right,
            ) ==> {
                let count = (bottom - top) * (right - left);
                let sum = source_total(data, stride, top, bottom, left, right, c);
                value * count <= sum + count / 2 < (value + 1) * count
            }
        }),
{
    let area = geometry.visible();
    the_picture_lies_inside(geometry.source, geometry.presentation);
    lemma_pixel_index(output_stride, y, x, c);
    assert(0 <= y * output_stride) by (nonlinear_arith)
        requires
            0 <= y,
            0 <= output_stride,
    ;
    if area.y <= y < area.y + area.height && area.x <= x < area.x + area.width && covers(
        y - area.y,
        geometry.source.height as int,
        area.height as int,
        top,
        bottom,
    ) && covers(x - area.x, geometry.source.width as int, area.width as int, left, right) {
        lemma_mean(
            data,
            stride,
            geometry.source,
            area,
            y - area.y,
            x - area.x,
            c,
            top,
            bottom,
            left,
            right,
        );
    }
}

/// Blackening makes every whole pixel black, and opaque where the format has an alpha
/// byte, and leaves the bytes behind the last whole pixel.
pub proof fn what_is_blackened(output: Seq<u8>, format: PixelFormat, pixel: int, c: int)
    requires
        0 <= pixel,
        0 <= c < 4,
        4 * pixel + c < output.len(),
    ensures
        blackened(output, format).len() == output.len(),
        4 * pixel + 4 > output.len() ==> blackened(output, format)[4 * pixel + c] == output[4
            * pixel + c],
        4 * pixel + 4 <= output.len() ==> blackened(output, format)[4 * pixel + c] == match format {
            PixelFormat::ARgb32 | PixelFormat::ABgr32 => if c == 0 {
                255u8
            } else {
                0u8
            },
            PixelFormat::BgrA32 | PixelFormat::RgbA32 => if c == 3 {
                255u8
            } else {
                0u8
            },
            PixelFormat::XRgb32
            | PixelFormat::XBgr32
            | PixelFormat::BgrX32
            | PixelFormat::RgbX32 => 0u8,
        },
{
    assert((4 * pixel + c) % 4 == c);
}

} // verus!
