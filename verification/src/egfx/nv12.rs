//! Conversion of BGRA pictures to NV12 (BT.709, full range).
use vstd::prelude::*;

verus! {

/// Where the planes of an NV12 image lie in its buffer.
#[derive(Clone, Copy, Debug, PartialEq, Eq, Structural)]
pub struct Nv12Layout {
    pub y_offset: usize,
    pub y_pitch: usize,
    pub uv_offset: usize,
    pub uv_pitch: usize,
}

/// A BGRA picture in memory, as its size and the distance of its rows.
#[derive(Clone, Copy, Debug, PartialEq, Eq, Structural)]
pub struct BgraShape {
    pub width: usize,
    pub height: usize,
    pub stride: usize,
}

/// Luma of a colour.
pub open spec fn luma(r: int, g: int, b: int) -> int {
    (54 * r + 183 * g + 18 * b) / 256
}

/// Blue-difference chroma of a colour.
pub open spec fn chroma_u(r: int, g: int, b: int) -> int {
    (-29 * r - 99 * g + 128 * b) / 256 + 128
}

/// Red-difference chroma of a colour.
pub open spec fn chroma_v(r: int, g: int, b: int) -> int {
    (128 * r - 116 * g - 12 * b) / 256 + 128
}

/// Channel `c` of a pixel: 0 blue, 1 green, 2 red.
pub open spec fn channel(src: Seq<u8>, stride: int, row: int, col: int, c: int) -> int {
    src[row * stride + col * 4 + c] as int
}

/// The mean of channel `c` over the 2x2 block at chroma position `(row, col)`,
/// rounded down.
pub open spec fn block_mean(src: Seq<u8>, stride: int, row: int, col: int, c: int) -> int {
    (channel(src, stride, 2 * row, 2 * col, c) + channel(src, stride, 2 * row, 2 * col + 1, c)
        + channel(src, stride, 2 * row + 1, 2 * col, c) + channel(
        src,
        stride,
        2 * row + 1,
        2 * col + 1,
        c,
    )) / 4
}

/// The luma byte of a pixel.
pub open spec fn y_byte(src: Seq<u8>, stride: int, row: int, col: int) -> u8 {
    luma(
        channel(src, stride, row, col, 2),
        channel(src, stride, row, col, 1),
        channel(src, stride, row, col, 0),
    ) as u8
}

/// The first chroma byte of a block.
pub open spec fn u_byte(src: Seq<u8>, stride: int, row: int, col: int) -> u8 {
    chroma_u(
        block_mean(src, stride, row, col, 2),
        block_mean(src, stride, row, col, 1),
        block_mean(src, stride, row, col, 0),
    ) as u8
}

/// The second chroma byte of a block.
pub open spec fn v_byte(src: Seq<u8>, stride: int, row: int, col: int) -> u8 {
    chroma_v(
        block_mean(src, stride, row, col, 2),
        block_mean(src, stride, row, col, 1),
        block_mean(src, stride, row, col, 0),
    ) as u8
}

impl Nv12Layout {
    /// Where the luma byte of a pixel stands.
    pub open spec fn y_at(&self, row: int, col: int) -> int {
        self.y_offset + row * self.y_pitch + col
    }

    /// Where the first chroma byte of a block stands.
    pub open spec fn uv_at(&self, row: int, col: int) -> int {
        self.uv_offset + row * self.uv_pitch + col * 2
    }

    /// Rows that do not overlap, and the chroma plane behind the luma plane.
    pub open spec fn disjoint(&self, shape: BgraShape) -> bool {
        &&& self.y_pitch >= shape.width
        &&& self.uv_pitch >= shape.width
        &&& self.uv_offset >= self.y_offset + shape.height * self.y_pitch
    }
}

/// `dst` after the first `cols` luma bytes of a row are written.
pub open spec fn y_row(dst: Seq<u8>, src: Seq<u8>, stride: int, l: Nv12Layout, row: int, cols: nat) -> Seq<
    u8,
>
    decreases cols,
{
    if cols == 0 {
        dst
    } else {
        y_row(dst, src, stride, l, row, (cols - 1) as nat).update(
            l.y_at(row, cols - 1),
            y_byte(src, stride, row, cols - 1),
        )
    }
}

/// `dst` after the first `rows` luma rows are written.
pub open spec fn y_plane(
    dst: Seq<u8>,
    src: Seq<u8>,
    stride: int,
    l: Nv12Layout,
    rows: nat,
    width: nat,
) -> Seq<u8>
    decreases rows,
{
    if rows == 0 {
        dst
    } else {
        y_row(
            y_plane(dst, src, stride, l, (rows - 1) as nat, width),
            src,
            stride,
            l,
            rows - 1,
            width,
        )
    }
}

/// `dst` after the first `cols` chroma pairs of a row are written.
pub open spec fn uv_row(
    dst: Seq<u8>,
    src: Seq<u8>,
    stride: int,
    l: Nv12Layout,
    row: int,
    cols: nat,
) -> Seq<u8>
    decreases cols,
{
    if cols == 0 {
        dst
    } else {
        let at = l.uv_at(row, cols - 1);
        uv_row(dst, src, stride, l, row, (cols - 1) as nat).update(
            at,
            u_byte(src, stride, row, cols - 1),
        ).update(at + 1, v_byte(src, stride, row, cols - 1))
    }
}

/// `dst` after the first `rows` chroma rows are written.
pub open spec fn uv_plane(
    dst: Seq<u8>,
    src: Seq<u8>,
    stride: int,
    l: Nv12Layout,
    rows: nat,
    half_width: nat,
) -> Seq<u8>
    decreases rows,
{
    if rows == 0 {
        dst
    } else {
        uv_row(
            uv_plane(dst, src, stride, l, (rows - 1) as nat, half_width),
            src,
            stride,
            l,
            rows - 1,
            half_width,
        )
    }
}

/// The image after the whole picture is written: first the luma plane row by
/// row, then the chroma plane.
pub open spec fn nv12_image(dst: Seq<u8>, src: Seq<u8>, shape: BgraShape, l: Nv12Layout) -> Seq<
    u8,
> {
    uv_plane(
        y_plane(dst, src, shape.stride as int, l, shape.height as nat, shape.width as nat),
        src,
        shape.stride as int,
        l,
        (shape.height / 2) as nat,
        (shape.width / 2) as nat,
    )
}

/// The image after a conversion; a picture whose buffer is shorter than its rows
/// leaves it as it was.
pub open spec fn converted(dst: Seq<u8>, src: Seq<u8>, shape: BgraShape, l: Nv12Layout) -> Seq<u8> {
    if src.len() < shape.height * shape.stride {
        dst
    } else {
        nv12_image(dst, src, shape, l)
    }
}

/// Every byte that the conversion reads or writes lies in its buffer.
pub open spec fn nv12_fits(src_len: nat, dst_len: nat, shape: BgraShape, l: Nv12Layout) -> bool {
    &&& shape.width > 0 && shape.height > 0 ==> {
        &&& (shape.height - 1) * shape.stride + (shape.width - 1) * 4 + 2 < src_len
        &&& l.y_at(shape.height - 1, shape.width - 1) < dst_len
    }
    &&& shape.width >= 2 && shape.height >= 2 ==> l.uv_at(
        shape.height as int / 2 - 1,
        shape.width as int / 2 - 1,
    ) + 1 < dst_len
}

proof fn lemma_colour_ranges(r: int, g: int, b: int)
    requires
        0 <= r <= 255,
        0 <= g <= 255,
        0 <= b <= 255,
    ensures
        0 <= luma(r, g, b) <= 255,
        0 <= chroma_u(r, g, b) <= 255,
        0 <= chroma_v(r, g, b) <= 255,
{
}

/// Grey has no colour: its chroma is neutral, and its luma is its own brightness
/// scaled by 255/256.
pub proof fn grey_has_neutral_chroma(v: int)
    requires
        0 <= v <= 255,
    ensures
        chroma_u(v, v, v) == 128,
        chroma_v(v, v, v) == 128,
        luma(v, v, v) == 255 * v / 256,
{
}

proof fn lemma_y_row_keeps(dst: Seq<u8>, src: Seq<u8>, stride: int, l: Nv12Layout, row: int, cols: nat)
    requires
        cols > 0 ==> 0 <= l.y_at(row, 0) && l.y_at(row, cols - 1) < dst.len(),
    ensures
        y_row(dst, src, stride, l, row, cols).len() == dst.len(),
        forall|k: int|
            0 <= k < dst.len() && !(l.y_at(row, 0) <= k < l.y_at(row, cols as int))
                ==> y_row(dst, src, stride, l, row, cols)[k] == dst[k],
    decreases cols,
{
    if cols > 0 {
        lemma_y_row_keeps(dst, src, stride, l, row, (cols - 1) as nat);
    }
}

proof fn lemma_y_row_at(
    dst: Seq<u8>,
    src: Seq<u8>,
    stride: int,
    l: Nv12Layout,
    row: int,
    cols: nat,
    col: int,
)
    requires
        0 <= col < cols,
        0 <= l.y_at(row, 0),
        l.y_at(row, cols as int) <= dst.len(),
    ensures
        y_row(dst, src, stride, l, row, cols)[l.y_at(row, col)] == y_byte(src, stride, row, col),
    decreases cols,
{
    lemma_y_row_keeps(dst, src, stride, l, row, (cols - 1) as nat);
    if col < cols - 1 {
        lemma_y_row_at(dst, src, stride, l, row, (cols - 1) as nat, col);
    }
}

pub(crate) proof fn lemma_y_plane_keeps(
    dst: Seq<u8>,
    src: Seq<u8>,
    stride: int,
    l: Nv12Layout,
    rows: nat,
    width: nat,
)
    requires
        l.y_pitch >= width,
        rows > 0 && width > 0 ==> l.y_at(rows - 1, width - 1) < dst.len(),
    ensures
        y_plane(dst, src, stride, l, rows, width).len() == dst.len(),
        forall|k: int|
            0 <= k < dst.len() && !(l.y_offset <= k < l.y_at(rows as int, 0)) ==> y_plane(
                dst,
                src,
                stride,
                l,
                rows,
                width,
            )[k] == dst[k],
    decreases rows,
{
    if rows > 0 {
        let before = y_plane(dst, src, stride, l, (rows - 1) as nat, width);
        assert(l.y_at(rows - 2, 0) + l.y_pitch == l.y_at(rows - 1, 0)) by (nonlinear_arith);
        lemma_y_plane_keeps(dst, src, stride, l, (rows - 1) as nat, width);
        assert(l.y_at(rows - 1, 0) + l.y_pitch == l.y_at(rows as int, 0)) by (nonlinear_arith);
        assert(l.y_at(rows - 1, 0) >= l.y_offset) by (nonlinear_arith)
            requires
                rows >= 1,
        ;
        lemma_y_row_keeps(before, src, stride, l, rows - 1, width);
    }
}

proof fn lemma_y_plane_at(
    dst: Seq<u8>,
    src: Seq<u8>,
    stride: int,
    l: Nv12Layout,
    rows: nat,
    width: nat,
    row: int,
    col: int,
)
    requires
        l.y_pitch >= width,
        0 <= row < rows,
        0 <= col < width,
        l.y_at(rows - 1, width as int) <= dst.len(),
    ensures
        y_plane(dst, src, stride, l, rows, width)[l.y_at(row, col)] == y_byte(
            src,
            stride,
            row,
            col,
        ),
    decreases rows,
{
    let before = y_plane(dst, src, stride, l, (rows - 1) as nat, width);
    assert(l.y_at(rows - 2, 0) + l.y_pitch == l.y_at(rows - 1, 0)) by (nonlinear_arith);
    lemma_y_plane_keeps(dst, src, stride, l, (rows - 1) as nat, width);
    assert(l.y_at(rows - 1, 0) >= l.y_offset) by (nonlinear_arith)
        requires
            rows >= 1,
    ;
    if row == rows - 1 {
        lemma_y_row_at(before, src, stride, l, row, width, col);
    } else {
        lemma_y_plane_at(dst, src, stride, l, (rows - 1) as nat, width, row, col);
        lemma_y_row_keeps(before, src, stride, l, rows - 1, width);
        assert(l.y_at(row, 0) + l.y_pitch <= l.y_at(rows - 1, 0)) by (nonlinear_arith)
            requires
                row + 1 <= rows - 1,
        ;
        assert(l.y_at(row, 0) >= l.y_offset) by (nonlinear_arith)
            requires
                row >= 0,
        ;
    }
}

proof fn lemma_uv_row_keeps(
    dst: Seq<u8>,
    src: Seq<u8>,
    stride: int,
    l: Nv12Layout,
    row: int,
    cols: nat,
)
    requires
        cols > 0 ==> 0 <= l.uv_at(row, 0) && l.uv_at(row, cols as int) <= dst.len(),
    ensures
        uv_row(dst, src, stride, l, row, cols).len() == dst.len(),
        forall|k: int|
            0 <= k < dst.len() && !(l.uv_at(row, 0) <= k < l.uv_at(row, cols as int))
                ==> uv_row(dst, src, stride, l, row, cols)[k] == dst[k],
    decreases cols,
{
    if cols > 0 {
        lemma_uv_row_keeps(dst, src, stride, l, row, (cols - 1) as nat);
    }
}

proof fn lemma_uv_row_at(
    dst: Seq<u8>,
    src: Seq<u8>,
    stride: int,
    l: Nv12Layout,
    row: int,
    cols: nat,
    col: int,
)
    requires
        0 <= col < cols,
        0 <= l.uv_at(row, 0),
        l.uv_at(row, cols as int) <= dst.len(),
    ensures
        uv_row(dst, src, stride, l, row, cols)[l.uv_at(row, col)] == u_byte(src, stride, row, col),
        uv_row(dst, src, stride, l, row, cols)[l.uv_at(row, col) + 1] == v_byte(
            src,
            stride,
            row,
            col,
        ),
    decreases cols,
{
    lemma_uv_row_keeps(dst, src, stride, l, row, (cols - 1) as nat);
    if col < cols - 1 {
        lemma_uv_row_at(dst, src, stride, l, row, (cols - 1) as nat, col);
    }
}

pub(crate) proof fn lemma_uv_plane_keeps(
    dst: Seq<u8>,
    src: Seq<u8>,
    stride: int,
    l: Nv12Layout,
    rows: nat,
    half_width: nat,
)
    requires
        l.uv_pitch >= 2 * half_width,
        rows > 0 && half_width > 0 ==> l.uv_at(rows - 1, half_width as int) <= dst.len(),
    ensures
        uv_plane(dst, src, stride, l, rows, half_width).len() == dst.len(),
        forall|k: int|
            0 <= k < dst.len() && !(l.uv_offset <= k < l.uv_at(rows as int, 0)) ==> uv_plane(
                dst,
                src,
                stride,
                l,
                rows,
                half_width,
            )[k] == dst[k],
    decreases rows,
{
    if rows > 0 {
        let before = uv_plane(dst, src, stride, l, (rows - 1) as nat, half_width);
        assert(l.uv_at(rows - 2, 0) + l.uv_pitch == l.uv_at(rows - 1, 0)) by (nonlinear_arith);
        lemma_uv_plane_keeps(dst, src, stride, l, (rows - 1) as nat, half_width);
        assert(l.uv_at(rows - 1, 0) + l.uv_pitch == l.uv_at(rows as int, 0)) by (nonlinear_arith);
        assert(l.uv_at(rows - 1, 0) >= l.uv_offset) by (nonlinear_arith)
            requires
                rows >= 1,
        ;
        lemma_uv_row_keeps(before, src, stride, l, rows - 1, half_width);
    }
}

proof fn lemma_uv_plane_at(
    dst: Seq<u8>,
    src: Seq<u8>,
    stride: int,
    l: Nv12Layout,
    rows: nat,
    half_width: nat,
    row: int,
    col: int,
)
    requires
        l.uv_pitch >= 2 * half_width,
        0 <= row < rows,
        0 <= col < half_width,
        l.uv_at(rows - 1, half_width as int) <= dst.len(),
    ensures
        uv_plane(dst, src, stride, l, rows, half_width)[l.uv_at(row, col)] == u_byte(
            src,
            stride,
            row,
            col,
        ),
        uv_plane(dst, src, stride, l, rows, half_width)[l.uv_at(row, col) + 1] == v_byte(
            src,
            stride,
            row,
            col,
        ),
    decreases rows,
{
    let before = uv_plane(dst, src, stride, l, (rows - 1) as nat, half_width);
    assert(l.uv_at(rows - 2, 0) + l.uv_pitch == l.uv_at(rows - 1, 0)) by (nonlinear_arith);
    lemma_uv_plane_keeps(dst, src, stride, l, (rows - 1) as nat, half_width);
    assert(l.uv_at(rows - 1, 0) >= l.uv_offset) by (nonlinear_arith)
        requires
            rows >= 1,
    ;
    if row == rows - 1 {
        lemma_uv_row_at(before, src, stride, l, row, half_width, col);
    } else {
        lemma_uv_plane_at(dst, src, stride, l, (rows - 1) as nat, half_width, row, col);
        lemma_uv_row_keeps(before, src, stride, l, rows - 1, half_width);
        assert(l.uv_at(row, 0) + l.uv_pitch <= l.uv_at(rows - 1, 0)) by (nonlinear_arith)
            requires
                row + 1 <= rows - 1,
        ;
        assert(l.uv_at(row, 0) >= l.uv_offset) by (nonlinear_arith)
            requires
                row >= 0,
        ;
    }
}

/// In an image whose planes and rows are apart, every pixel of the picture is
/// found as its luma byte.
pub proof fn every_pixel_has_its_luma(
    dst: Seq<u8>,
    src: Seq<u8>,
    shape: BgraShape,
    l: Nv12Layout,
    row: int,
    col: int,
)
    requires
        l.disjoint(shape),
        nv12_fits(src.len(), dst.len(), shape, l),
        0 <= row < shape.height,
        0 <= col < shape.width,
    ensures
        nv12_image(dst, src, shape, l)[l.y_at(row, col)] == y_byte(
            src,
            shape.stride as int,
            row,
            col,
        ),
{
    let stride = shape.stride as int;
    let luma_done = y_plane(dst, src, stride, l, shape.height as nat, shape.width as nat);
    lemma_y_plane_at(dst, src, stride, l, shape.height as nat, shape.width as nat, row, col);
    lemma_y_plane_keeps(dst, src, stride, l, shape.height as nat, shape.width as nat);
    lemma_uv_plane_keeps(
        luma_done,
        src,
        stride,
        l,
        (shape.height / 2) as nat,
        (shape.width / 2) as nat,
    );
    assert(l.y_at(row, col) < l.y_offset + shape.height * l.y_pitch) by (nonlinear_arith)
        requires
            row + 1 <= shape.height,
            col < l.y_pitch,
    ;
    assert(l.y_at(row, col) <= l.y_at(shape.height - 1, shape.width - 1)) by (nonlinear_arith)
        requires
            row <= shape.height - 1,
            col <= shape.width - 1,
    ;
    assert(l.y_at(row, 0) >= 0) by (nonlinear_arith)
        requires
            row >= 0,
    ;
}

/// In an image whose planes and rows are apart, every 2x2 block of the picture
/// is found as its pair of chroma bytes.
pub proof fn every_block_has_its_chroma(
    dst: Seq<u8>,
    src: Seq<u8>,
    shape: BgraShape,
    l: Nv12Layout,
    row: int,
    col: int,
)
    requires
        l.disjoint(shape),
        nv12_fits(src.len(), dst.len(), shape, l),
        0 <= row < shape.height as int / 2,
        0 <= col < shape.width as int / 2,
    ensures
        nv12_image(dst, src, shape, l)[l.uv_at(row, col)] == u_byte(
            src,
            shape.stride as int,
            row,
            col,
        ),
        nv12_image(dst, src, shape, l)[l.uv_at(row, col) + 1] == v_byte(
            src,
            shape.stride as int,
            row,
            col,
        ),
{
    let stride = shape.stride as int;
    let luma_done = y_plane(dst, src, stride, l, shape.height as nat, shape.width as nat);
    lemma_y_plane_keeps(dst, src, stride, l, shape.height as nat, shape.width as nat);
    lemma_uv_plane_at(
        luma_done,
        src,
        stride,
        l,
        (shape.height / 2) as nat,
        (shape.width / 2) as nat,
        row,
        col,
    );
}

fn luma_byte(r: u8, g: u8, b: u8) -> (y: u8)
    ensures
        y as int == luma(r as int, g as int, b as int),
{
    let sum: u32 = 54 * (r as u32) + 183 * (g as u32) + 18 * (b as u32);
    (sum / 256) as u8
}

/// `v` shifted right by eight places, rounding toward negative infinity.
fn shift_8(v: i32) -> (r: i32)
    requires
        -0x1_0000 <= v <= 0x1_0000,
    ensures
        r == v as int / 256,
{
    (v + 0x1_0000) / 256 - 256
}

fn chroma_bytes(r: u32, g: u32, b: u32) -> (uv: (u8, u8))
    requires
        r <= 255,
        g <= 255,
        b <= 255,
    ensures
        uv.0 as int == chroma_u(r as int, g as int, b as int),
        uv.1 as int == chroma_v(r as int, g as int, b as int),
{
    let r: i32 = r as i32;
    let g: i32 = g as i32;
    let b: i32 = b as i32;
    proof {
        lemma_colour_ranges(r as int, g as int, b as int);
    }
    let u: i32 = shift_8(-29 * r - 99 * g + 128 * b) + 128;
    let v: i32 = shift_8(128 * r - 116 * g - 12 * b) + 128;
    (u as u8, v as u8)
}

proof fn lemma_pixel_in_bounds(src_len: nat, shape: BgraShape, row: int, col: int)
    requires
        0 <= row < shape.height,
        0 <= col < shape.width,
        (shape.height - 1) * shape.stride + (shape.width - 1) * 4 + 2 < src_len,
    ensures
        0 <= row * shape.stride,
        row * shape.stride + col * 4 + 2 < src_len,
{
    assert(row * shape.stride <= (shape.height - 1) * shape.stride) by (nonlinear_arith)
        requires
            row <= shape.height - 1,
    ;
    assert(0 <= row * shape.stride) by (nonlinear_arith)
        requires
            0 <= row,
    ;
}

proof fn lemma_y_in_bounds(
    src_len: nat,
    dst_len: nat,
    shape: BgraShape,
    l: Nv12Layout,
    row: int,
    col: int,
)
    requires
        nv12_fits(src_len, dst_len, shape, l),
        0 <= row < shape.height,
        0 <= col < shape.width,
    ensures
        0 <= row * l.y_pitch,
        l.y_offset + row * l.y_pitch + col < dst_len,
{
    assert(row * l.y_pitch <= (shape.height - 1) * l.y_pitch) by (nonlinear_arith)
        requires
            row <= shape.height - 1,
    ;
    assert(0 <= row * l.y_pitch) by (nonlinear_arith)
        requires
            0 <= row,
    ;
}

proof fn lemma_uv_in_bounds(
    src_len: nat,
    dst_len: nat,
    shape: BgraShape,
    l: Nv12Layout,
    row: int,
    col: int,
)
    requires
        nv12_fits(src_len, dst_len, shape, l),
        0 <= row < shape.height as int / 2,
        0 <= col < shape.width as int / 2,
    ensures
        0 <= row * l.uv_pitch,
        l.uv_offset + row * l.uv_pitch + col * 2 + 1 < dst_len,
{
    assert(row * l.uv_pitch <= (shape.height as int / 2 - 1) * l.uv_pitch) by (nonlinear_arith)
        requires
            row <= shape.height as int / 2 - 1,
    ;
    assert(0 <= row * l.uv_pitch) by (nonlinear_arith)
        requires
            0 <= row,
    ;
}

fn mean_of_block(src: &[u8], shape: BgraShape, row: usize, col: usize, c: usize) -> (mean: u32)
    requires
        row < shape.height / 2,
        col < shape.width / 2,
        c <= 2,
        (shape.height - 1) * shape.stride + (shape.width - 1) * 4 + 2 < src.len(),
    ensures
        mean == block_mean(src@, shape.stride as int, row as int, col as int, c as int),
        mean <= 255,
{
    proof {
        lemma_pixel_in_bounds(src.len() as nat, shape, 2 * row as int, 2 * col as int);
        lemma_pixel_in_bounds(src.len() as nat, shape, 2 * row as int, 2 * col + 1);
        lemma_pixel_in_bounds(src.len() as nat, shape, 2 * row + 1, 2 * col as int);
        lemma_pixel_in_bounds(src.len() as nat, shape, 2 * row + 1, 2 * col + 1);
    }
    let top: usize = (2 * row) * shape.stride + (2 * col) * 4 + c;
    let bottom: usize = (2 * row + 1) * shape.stride + (2 * col) * 4 + c;
    let sum: u32 = src[top] as u32 + src[top + 4] as u32 + src[bottom] as u32 + src[bottom
        + 4] as u32;
    sum / 4
}

fn write_y_row(src: &[u8], dst: &mut [u8], shape: BgraShape, l: Nv12Layout, row: usize)
    requires
        row < shape.height,
        shape.width > 0,
        nv12_fits(src.len() as nat, old(dst)@.len(), shape, l),
    ensures
        final(dst)@ == y_row(
            old(dst)@,
            src@,
            shape.stride as int,
            l,
            row as int,
            shape.width as nat,
        ),
        final(dst)@.len() == old(dst)@.len(),
{
    let len: usize = dst.len();
    let mut col: usize = 0;
    while col < shape.width
        invariant
            row < shape.height,
            col <= shape.width,
            nv12_fits(src.len() as nat, dst@.len(), shape, l),
            dst@ == y_row(old(dst)@, src@, shape.stride as int, l, row as int, col as nat),
            dst@.len() == old(dst)@.len() == len,
        decreases shape.width - col,
    {
        proof {
            lemma_pixel_in_bounds(src.len() as nat, shape, row as int, col as int);
            lemma_y_in_bounds(src.len() as nat, dst@.len(), shape, l, row as int, col as int);
        }
        let idx: usize = row * shape.stride + col * 4;
        let at: usize = l.y_offset + row * l.y_pitch + col;
        dst[at] = luma_byte(src[idx + 2], src[idx + 1], src[idx]);
        col = col + 1;
    }
}

fn write_uv_row(src: &[u8], dst: &mut [u8], shape: BgraShape, l: Nv12Layout, row: usize)
    requires
        row < shape.height / 2,
        shape.width >= 2,
        nv12_fits(src.len() as nat, old(dst)@.len(), shape, l),
    ensures
        final(dst)@ == uv_row(
            old(dst)@,
            src@,
            shape.stride as int,
            l,
            row as int,
            (shape.width / 2) as nat,
        ),
        final(dst)@.len() == old(dst)@.len(),
{
    let len: usize = dst.len();
    let mut col: usize = 0;
    while col < shape.width / 2
        invariant
            row < shape.height / 2,
            shape.width >= 2,
            col <= shape.width / 2,
            nv12_fits(src.len() as nat, dst@.len(), shape, l),
            dst@ == uv_row(old(dst)@, src@, shape.stride as int, l, row as int, col as nat),
            dst@.len() == old(dst)@.len() == len,
        decreases shape.width / 2 - col,
    {
        proof {
            lemma_uv_in_bounds(src.len() as nat, dst@.len(), shape, l, row as int, col as int);
        }
        let b: u32 = mean_of_block(src, shape, row, col, 0);
        let g: u32 = mean_of_block(src, shape, row, col, 1);
        let r: u32 = mean_of_block(src, shape, row, col, 2);
        let (u, v) = chroma_bytes(r, g, b);
        let at: usize = l.uv_offset + row * l.uv_pitch + col * 2;
        dst[at] = u;
        dst[at + 1] = v;
        col = col + 1;
    }
}

/// Converts a BGRA picture to NV12 directly into an image buffer, respecting
/// the image's pitches and plane offsets. A picture whose buffer is shorter
/// than its rows leaves the image as it was.
pub fn bgra_to_nv12(bgra: &[u8], dst: &mut [u8], shape: BgraShape, l: Nv12Layout)
    requires
        shape.height * shape.stride <= usize::MAX,
        bgra.len() >= shape.height * shape.stride ==> nv12_fits(
            bgra.len() as nat,
            old(dst)@.len(),
            shape,
            l,
        ),
    ensures
        final(dst)@ == converted(old(dst)@, bgra@, shape, l),
{
    if bgra.len() < shape.height * shape.stride {
        return ;
    }
    if shape.width == 0 {
        proof {
            lemma_empty_rows(dst@, bgra@, shape, l, shape.height as nat);
        }
        return ;
    }
    let mut row: usize = 0;
    while row < shape.height
        invariant
            row <= shape.height,
            shape.width > 0,
            nv12_fits(bgra.len() as nat, dst@.len(), shape, l),
            dst@.len() == old(dst)@.len(),
            dst@ == y_plane(
                old(dst)@,
                bgra@,
                shape.stride as int,
                l,
                row as nat,
                shape.width as nat,
            ),
        decreases shape.height - row,
    {
        write_y_row(bgra, dst, shape, l, row);
        row = row + 1;
    }
    let ghost luma_done = dst@;
    if shape.width < 2 {
        proof {
            lemma_empty_chroma_rows(luma_done, bgra@, shape, l, (shape.height / 2) as nat);
        }
        return ;
    }
    let mut row: usize = 0;
    while row < shape.height / 2
        invariant
            row <= shape.height / 2,
            shape.width >= 2,
            nv12_fits(bgra.len() as nat, dst@.len(), shape, l),
            dst@ == uv_plane(
                luma_done,
                bgra@,
                shape.stride as int,
                l,
                row as nat,
                (shape.width / 2) as nat,
            ),
        decreases shape.height / 2 - row,
    {
        write_uv_row(bgra, dst, shape, l, row);
        row = row + 1;
    }
}

proof fn lemma_empty_rows(dst: Seq<u8>, src: Seq<u8>, shape: BgraShape, l: Nv12Layout, rows: nat)
    requires
        shape.width == 0,
    ensures
        y_plane(dst, src, shape.stride as int, l, rows, 0) == dst,
        uv_plane(dst, src, shape.stride as int, l, (shape.height / 2) as nat, 0) == dst,
    decreases rows,
{
    if rows > 0 {
        lemma_empty_rows(dst, src, shape, l, (rows - 1) as nat);
    }
    lemma_empty_chroma_rows(dst, src, shape, l, (shape.height / 2) as nat);
}

proof fn lemma_empty_chroma_rows(
    dst: Seq<u8>,
    src: Seq<u8>,
    shape: BgraShape,
    l: Nv12Layout,
    rows: nat,
)
    ensures
        uv_plane(dst, src, shape.stride as int, l, rows, 0) == dst,
    decreases rows,
{
    if rows > 0 {
        lemma_empty_chroma_rows(dst, src, shape, l, (rows - 1) as nat);
    }
}

} // verus!
