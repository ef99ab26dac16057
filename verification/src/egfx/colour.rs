//! What a converted picture looks like, told by the bytes of the BGRA picture.
use vstd::prelude::*;

use super::nv12::{
    block_mean, chroma_u, chroma_v, converted, every_block_has_its_chroma,
    every_pixel_has_its_luma, lemma_uv_plane_keeps, lemma_y_plane_keeps, nv12_fits, y_plane,
    BgraShape, Nv12Layout,
};

verus! {

/// `y` is the luma of a colour, in 256ths rounded down: the weights of BT.709 for red,
/// green and blue.
pub open spec fn is_luma(y: int, r: int, g: int, b: int) -> bool {
    256 * y <= 54 * r + 183 * g + 18 * b < 256 * y + 256
}

/// `u` is the blue difference of a colour around 128, in 256ths rounded down.
pub open spec fn is_blue_difference(u: int, r: int, g: int, b: int) -> bool {
    256 * (u - 128) <= 128 * b - 29 * r - 99 * g < 256 * (u - 128) + 256
}

/// `v` is the red difference of a colour around 128, in 256ths rounded down.
pub open spec fn is_red_difference(v: int, r: int, g: int, b: int) -> bool {
    256 * (v - 128) <= 128 * r - 116 * g - 12 * b < 256 * (v - 128) + 256
}

/// `mean` is the mean of four bytes, rounded down.
pub open spec fn is_mean(mean: int, a: u8, b: u8, c: u8, d: u8) -> bool {
    4 * mean <= a + b + c + d < 4 * mean + 4
}

/// `mean` is the mean of channel `c` over the two by two pixels whose first is
/// `(2 * row, 2 * col)`.
pub open spec fn is_block_mean(
    mean: int,
    src: Seq<u8>,
    stride: int,
    row: int,
    col: int,
    c: int,
) -> bool {
    is_mean(
        mean,
        src[(2 * row) * stride + (2 * col) * 4 + c],
        src[(2 * row) * stride + (2 * col + 1) * 4 + c],
        src[(2 * row + 1) * stride + (2 * col) * 4 + c],
        src[(2 * row + 1) * stride + (2 * col + 1) * 4 + c],
    )
}

/// Every pixel has its own luma byte in the luma plane: its blue byte comes first in
/// the picture, then green, then red.
pub proof fn every_pixel_is_lit(
    dst: Seq<u8>,
    src: Seq<u8>,
    shape: BgraShape,
    l: Nv12Layout,
    row: int,
    col: int,
)
    requires
        l.y_pitch >= shape.width,
        l.uv_pitch >= shape.width,
        l.uv_offset >= l.y_offset + shape.height * l.y_pitch,
        src.len() >= shape.height * shape.stride,
        nv12_fits(src.len(), dst.len(), shape, l),
        0 <= row < shape.height,
        0 <= col < shape.width,
    ensures
        is_luma(
            converted(dst, src, shape, l)[l.y_offset + row * l.y_pitch + col] as int,
            src[row * shape.stride + col * 4 + 2] as int,
            src[row * shape.stride + col * 4 + 1] as int,
            src[row * shape.stride + col * 4] as int,
        ),
{
    every_pixel_has_its_luma(dst, src, shape, l, row, col);
}

proof fn lemma_block_mean(mean: int, src: Seq<u8>, stride: int, row: int, col: int, c: int)
    requires
        is_block_mean(mean, src, stride, row, col, c),
    ensures
        block_mean(src, stride, row, col, c) == mean,
        0 <= mean <= 255,
{
}

proof fn lemma_differences(r: int, g: int, b: int)
    requires
        0 <= r <= 255,
        0 <= g <= 255,
        0 <= b <= 255,
    ensures
        is_blue_difference(chroma_u(r, g, b), r, g, b),
        is_red_difference(chroma_v(r, g, b), r, g, b),
        0 <= chroma_u(r, g, b) <= 255,
        0 <= chroma_v(r, g, b) <= 255,
{
}

/// Every two by two pixels have their own pair of chroma bytes in the chroma plane,
/// blue difference first: that of their mean colour.
pub proof fn every_block_is_coloured(
    dst: Seq<u8>,
    src: Seq<u8>,
    shape: BgraShape,
    l: Nv12Layout,
    row: int,
    col: int,
    r: int,
    g: int,
    b: int,
)
    requires
        l.y_pitch >= shape.width,
        l.uv_pitch >= shape.width,
        l.uv_offset >= l.y_offset + shape.height * l.y_pitch,
        src.len() >= shape.height * shape.stride,
        nv12_fits(src.len(), dst.len(), shape, l),
        0 <= row < shape.height as int / 2,
        0 <= col < shape.width as int / 2,
        is_block_mean(r, src, shape.stride as int, row, col, 2),
        is_block_mean(g, src, shape.stride as int, row, col, 1),
        is_block_mean(b, src, shape.stride as int, row, col, 0),
    ensures
        is_blue_difference(
            converted(dst, src, shape, l)[l.uv_offset + row * l.uv_pitch + col * 2] as int,
            r,
            g,
            b,
        ),
        is_red_difference(
            converted(dst, src, shape, l)[l.uv_offset + row * l.uv_pitch + col * 2 + 1] as int,
            r,
            g,
            b,
        ),
{
    let stride = shape.stride as int;
    lemma_block_mean(r, src, stride, row, col, 2);
    lemma_block_mean(g, src, stride, row, col, 1);
    lemma_block_mean(b, src, stride, row, col, 0);
    lemma_differences(r, g, b);
    every_block_has_its_chroma(dst, src, shape, l, row, col);
    let at = l.uv_offset + row * l.uv_pitch + col * 2;
    assert(converted(dst, src, shape, l)[at] == chroma_u(r, g, b) as u8);
    assert(converted(dst, src, shape, l)[at + 1] == chroma_v(r, g, b) as u8);
}

/// A block of one colour has the chroma of that colour, whatever is around it.
pub proof fn a_block_of_one_colour_has_its_chroma(
    dst: Seq<u8>,
    src: Seq<u8>,
    shape: BgraShape,
    l: Nv12Layout,
    row: int,
    col: int,
    r: u8,
    g: u8,
    b: u8,
)
    requires
        l.y_pitch >= shape.width,
        l.uv_pitch >= shape.width,
        l.uv_offset >= l.y_offset + shape.height * l.y_pitch,
        src.len() >= shape.height * shape.stride,
        nv12_fits(src.len(), dst.len(), shape, l),
        0 <= row < shape.height as int / 2,
        0 <= col < shape.width as int / 2,
        forall|i: int, j: int|
            0 <= i < 2 && 0 <= j < 2 ==> {
                &&& #[trigger] src[(2 * row + i) * shape.stride + (2 * col + j) * 4] == b
                &&& src[(2 * row + i) * shape.stride + (2 * col + j) * 4 + 1] == g
                &&& src[(2 * row + i) * shape.stride + (2 * col + j) * 4 + 2] == r
            },
    ensures
        is_blue_difference(
            converted(dst, src, shape, l)[l.uv_offset + row * l.uv_pitch + col * 2] as int,
            r as int,
            g as int,
            b as int,
        ),
        is_red_difference(
            converted(dst, src, shape, l)[l.uv_offset + row * l.uv_pitch + col * 2 + 1] as int,
            r as int,
            g as int,
            b as int,
        ),
{
    assert(src[(2 * row + 0) * shape.stride + (2 * col + 0) * 4] == b);
    assert(src[(2 * row + 0) * shape.stride + (2 * col + 1) * 4] == b);
    assert(src[(2 * row + 1) * shape.stride + (2 * col + 0) * 4] == b);
    assert(src[(2 * row + 1) * shape.stride + (2 * col + 1) * 4] == b);
    every_block_is_coloured(dst, src, shape, l, row, col, r as int, g as int, b as int);
}

/// Chroma is local: two pictures that agree in a block have the same pair for it.
pub proof fn chroma_is_local(
    dst: Seq<u8>,
    src: Seq<u8>,
    other: Seq<u8>,
    shape: BgraShape,
    l: Nv12Layout,
    row: int,
    col: int,
)
    requires
        l.y_pitch >= shape.width,
        l.uv_pitch >= shape.width,
        l.uv_offset >= l.y_offset + shape.height * l.y_pitch,
        src.len() >= shape.height * shape.stride,
        other.len() >= shape.height * shape.stride,
        nv12_fits(src.len(), dst.len(), shape, l),
        nv12_fits(other.len(), dst.len(), shape, l),
        0 <= row < shape.height as int / 2,
        0 <= col < shape.width as int / 2,
        forall|i: int, j: int|
            0 <= i < 2 && 0 <= j < 2 ==> {
                let at = (2 * row + i) * shape.stride + (2 * col + j) * 4;
                &&& #[trigger] src[(2 * row + i) * shape.stride + (2 * col + j) * 4] == other[at]
                &&& src[at + 1] == other[at + 1]
                &&& src[at + 2] == other[at + 2]
            },
    ensures
        ({
            let at = l.uv_offset + row * l.uv_pitch + col * 2;
            &&& converted(dst, src, shape, l)[at] == converted(dst, other, shape, l)[at]
            &&& converted(dst, src, shape, l)[at + 1] == converted(dst, other, shape, l)[at + 1]
        }),
{
    assert(src[(2 * row + 0) * shape.stride + (2 * col + 0) * 4] == other[(2 * row + 0)
        * shape.stride + (2 * col + 0) * 4]);
    assert(src[(2 * row + 0) * shape.stride + (2 * col + 1) * 4] == other[(2 * row + 0)
        * shape.stride + (2 * col + 1) * 4]);
    assert(src[(2 * row + 1) * shape.stride + (2 * col + 0) * 4] == other[(2 * row + 1)
        * shape.stride + (2 * col + 0) * 4]);
    assert(src[(2 * row + 1) * shape.stride + (2 * col + 1) * 4] == other[(2 * row + 1)
        * shape.stride + (2 * col + 1) * 4]);
    every_block_has_its_chroma(dst, src, shape, l, row, col);
    every_block_has_its_chroma(dst, other, shape, l, row, col);
}

/// Nothing outside the two planes is written, and a picture whose buffer is too short
/// writes nothing at all.
pub proof fn only_the_planes_are_written(
    dst: Seq<u8>,
    src: Seq<u8>,
    shape: BgraShape,
    l: Nv12Layout,
    k: int,
)
    requires
        l.y_pitch >= shape.width,
        l.uv_pitch >= shape.width,
        src.len() >= shape.height * shape.stride ==> nv12_fits(src.len(), dst.len(), shape, l),
        0 <= k < dst.len(),
    ensures
        converted(dst, src, shape, l).len() == dst.len(),
        ({
            ||| src.len() < shape.height * shape.stride
            ||| k < l.y_offset && k < l.uv_offset
            ||| k < l.uv_offset && k >= l.y_offset + shape.height * l.y_pitch
            ||| k >= l.y_offset + shape.height * l.y_pitch && k >= l.uv_offset + (
            shape.height as int / 2) * l.uv_pitch
        }) ==> converted(dst, src, shape, l)[k] == dst[k],
{
    if src.len() >= shape.height * shape.stride {
        let stride = shape.stride as int;
        let lit = y_plane(dst, src, stride, l, shape.height as nat, shape.width as nat);
        lemma_y_plane_keeps(dst, src, stride, l, shape.height as nat, shape.width as nat);
        lemma_uv_plane_keeps(
            lit,
            src,
            stride,
            l,
            (shape.height / 2) as nat,
            (shape.width / 2) as nat,
        );
    }
}

} // verus!
