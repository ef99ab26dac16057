//! How a captured output is placed in the picture that a client sees.
//!
//! The source keeps its aspect ratio: it is scaled to the largest rectangle that
//! fits the presentation, and centred in it.
use vstd::prelude::*;

verus! {

/// A size in pixels, empty in neither direction.
#[derive(Clone, Copy, Debug, PartialEq, Eq, Structural)]
pub struct Size {
    pub width: u32,
    pub height: u32,
}

/// A rectangle in the presentation.
#[derive(Clone, Copy, Debug, PartialEq, Eq, Structural)]
pub struct Rect {
    pub x: u32,
    pub y: u32,
    pub width: u32,
    pub height: u32,
}

/// A source and the presentation that it is shown in.
#[derive(Clone, Copy, Debug, PartialEq, Eq, Structural)]
pub struct PresentationGeometry {
    pub source: Size,
    pub presentation: Size,
}

/// A damaged rectangle: left, top, width and height.
pub type Region = (i32, i32, i32, i32);

impl Size {
    /// Empty in neither direction.
    pub open spec fn wf(&self) -> bool {
        self.width > 0 && self.height > 0
    }

    /// A size, unless it is empty.
    pub fn new(width: u32, height: u32) -> (r: Option<Size>)
        ensures
            r == if width > 0 && height > 0 {
                Some(Size { width, height })
            } else {
                None
            },
    {
        if width == 0 || height == 0 {
            None
        } else {
            Some(Size { width, height })
        }
    }
}

impl Rect {
    /// The rectangle is not empty and lies inside `size`.
    pub open spec fn inside(&self, size: Size) -> bool {
        &&& self.width > 0
        &&& self.height > 0
        &&& self.x + self.width <= size.width
        &&& self.y + self.height <= size.height
    }

    /// The edge behind the last column.
    pub fn right(&self) -> (r: u32)
        requires
            self.x + self.width <= u32::MAX,
        ensures
            r == self.x + self.width,
    {
        self.x + self.width
    }

    /// The edge below the last row.
    pub fn bottom(&self) -> (r: u32)
        requires
            self.y + self.height <= u32::MAX,
        ensures
            r == self.y + self.height,
    {
        self.y + self.height
    }
}

/// The length that `other` becomes where `full` fills a side of `across`: scaled
/// by the same ratio, rounded down, at least one pixel.
pub open spec fn scaled_side(full: int, other: int, across: int) -> int {
    if full * other / across >= 1 {
        full * other / across
    } else {
        1
    }
}

/// The size of the largest picture with the source's aspect ratio that fits the
/// presentation: it fills the width, or else the height.
pub open spec fn fitted(source: Size, presentation: Size) -> (int, int) {
    if presentation.width * source.height <= presentation.height * source.width {
        (
            presentation.width as int,
            scaled_side(presentation.width as int, source.height as int, source.width as int),
        )
    } else {
        (
            scaled_side(presentation.height as int, source.width as int, source.height as int),
            presentation.height as int,
        )
    }
}

/// Where the source is seen: the fitted picture, centred.
pub open spec fn placed(source: Size, presentation: Size) -> Rect {
    let (w, h) = fitted(source, presentation);
    Rect {
        x: ((presentation.width - w) / 2) as u32,
        y: ((presentation.height - h) / 2) as u32,
        width: w as u32,
        height: h as u32,
    }
}

/// `n / d`, rounded up.
pub open spec fn div_up(n: int, d: int) -> int {
    (n + d - 1) / d
}

/// `v` as far as a region's coordinates reach.
pub open spec fn as_coordinate(v: int) -> i32 {
    if v > i32::MAX {
        i32::MAX
    } else {
        v as i32
    }
}

/// Start and end of a damaged run `[at, at + len)`, cut to `[0, limit)`.
pub open spec fn cut(at: i32, len: i32, limit: u32) -> (int, int) {
    (
        if at < 0 {
            0
        } else {
            at as int
        },
        if at + len > limit {
            limit as int
        } else {
            at + len
        },
    )
}

/// The first and last presentation pixel edge of source pixels `[from, to)`.
pub open spec fn shown(from: int, to: int, source: u32, at: u32, visible: u32) -> (int, int) {
    (at + from * visible / source as int, at + div_up(to * visible, source as int))
}

impl PresentationGeometry {
    /// Neither size is empty.
    pub open spec fn wf(&self) -> bool {
        self.source.wf() && self.presentation.wf()
    }

    /// Where the source is seen.
    pub open spec fn visible(&self) -> Rect {
        placed(self.source, self.presentation)
    }

    /// Whether the source is shown as it is.
    pub open spec fn identity(&self) -> bool {
        self.source == self.presentation
    }

    /// What a damaged source region damages in the presentation; nothing where it
    /// lies outside the source.
    pub open spec fn shown_region(&self, region: Region) -> Option<Region> {
        let (x0, x1) = cut(region.0, region.2, self.source.width);
        let (y0, y1) = cut(region.1, region.3, self.source.height);
        let v = self.visible();
        if x0 < x1 && y0 < y1 {
            let (left, right) = shown(x0, x1, self.source.width, v.x, v.width);
            let (top, bottom) = shown(y0, y1, self.source.height, v.y, v.height);
            Some(
                (
                    as_coordinate(left),
                    as_coordinate(top),
                    as_coordinate(right - left),
                    as_coordinate(bottom - top),
                ),
            )
        } else {
            None
        }
    }

    /// What a list of damaged source regions damages in the presentation.
    pub open spec fn shown_damage(&self, regions: Seq<Region>) -> Seq<Region>
        decreases regions.len(),
    {
        if self.identity() {
            regions
        } else if regions.len() == 0 {
            seq![]
        } else {
            let before = self.shown_damage(regions.drop_last());
            match self.shown_region(regions.last()) {
                Some(region) => before.push(region),
                None => before,
            }
        }
    }

    /// The geometry of a source in a presentation.
    pub fn new(source: Size, presentation: Size) -> (r: Self)
        ensures
            r == (PresentationGeometry { source, presentation }),
    {
        PresentationGeometry { source, presentation }
    }

    /// The size of the source.
    pub fn source(&self) -> (r: Size)
        ensures
            r == self.source,
    {
        self.source
    }

    /// The size of the presentation.
    pub fn presentation(&self) -> (r: Size)
        ensures
            r == self.presentation,
    {
        self.presentation
    }

    /// Whether the source is shown as it is.
    pub fn is_identity(&self) -> (r: bool)
        ensures
            r == self.identity(),
    {
        self.source == self.presentation
    }

    /// Where the source is seen.
    pub fn visible_rect(&self) -> (r: Rect)
        requires
            self.wf(),
        ensures
            r == self.visible(),
            r.inside(self.presentation),
    {
        let sw: u64 = self.source.width as u64;
        let sh: u64 = self.source.height as u64;
        let pw: u64 = self.presentation.width as u64;
        let ph: u64 = self.presentation.height as u64;
        proof {
            lemma_product(pw, sh);
            lemma_product(ph, sw);
            the_picture_lies_inside(self.source, self.presentation);
        }
        let (w, h): (u64, u64) = if pw * sh <= ph * sw {
            (pw, at_least_one(pw * sh / sw))
        } else {
            (at_least_one(ph * sw / sh), ph)
        };
        Rect {
            x: ((pw - w) / 2) as u32,
            y: ((ph - h) / 2) as u32,
            width: w as u32,
            height: h as u32,
        }
    }

    fn map_region(&self, region: Region) -> (r: Option<Region>)
        requires
            self.wf(),
        ensures
            r == self.shown_region(region),
    {
        let (x0, x1) = cut_run(region.0, region.2, self.source.width);
        let (y0, y1) = cut_run(region.1, region.3, self.source.height);
        let v = self.visible_rect();
        if x0 < x1 && y0 < y1 {
            let (left, right) = show_run(x0, x1, self.source.width, v.x, v.width);
            let (top, bottom) = show_run(y0, y1, self.source.height, v.y, v.height);
            Some(
                (
                    to_coordinate(left),
                    to_coordinate(top),
                    to_coordinate(right - left),
                    to_coordinate(bottom - top),
                ),
            )
        } else {
            None
        }
    }

    /// Maps damaged source regions to the presentation.
    pub fn map_source_damage(&self, regions: &[Region]) -> (r: Vec<Region>)
        requires
            self.wf(),
        ensures
            r@ == self.shown_damage(regions@),
    {
        let mut out: Vec<Region> = Vec::new();
        let mut i: usize = 0;
        let identity = self.is_identity();
        assert(regions@.take(0) =~= Seq::<Region>::empty());
        assert(self.shown_damage(regions@.take(0)) =~= Seq::<Region>::empty());
        while i < regions.len()
            invariant
                self.wf(),
                i <= regions.len(),
                identity == self.identity(),
                out@ == self.shown_damage(regions@.take(i as int)),
            decreases regions.len() - i,
        {
            proof {
                assert(regions@.take(i + 1).drop_last() =~= regions@.take(i as int));
                assert(regions@.take(i + 1).last() == regions@[i as int]);
            }
            if identity {
                out.push(regions[i]);
                assert(out@ =~= regions@.take(i + 1));
            } else {
                match self.map_region(regions[i]) {
                    Some(region) => {
                        out.push(region);
                    },
                    None => {},
                }
            }
            i = i + 1;
        }
        assert(regions@.take(regions@.len() as int) =~= regions@);
        out
    }
}

fn at_least_one(n: u64) -> (r: u64)
    ensures
        r == if n >= 1 {
            n
        } else {
            1
        },
{
    if n >= 1 {
        n
    } else {
        1
    }
}

proof fn lemma_product(a: u64, b: u64)
    requires
        a <= u32::MAX,
        b <= u32::MAX,
    ensures
        0 <= a * b <= u64::MAX,
{
    assert(0 <= a * b <= 0xffff_ffff * 0xffff_ffff) by (nonlinear_arith)
        requires
            a <= 0xffff_ffff,
            b <= 0xffff_ffff,
    ;
}

/// The picture is never empty, and lies inside the presentation.
pub proof fn the_picture_lies_inside(source: Size, presentation: Size)
    requires
        source.wf(),
        presentation.wf(),
    ensures
        1 <= fitted(source, presentation).0 <= presentation.width,
        1 <= fitted(source, presentation).1 <= presentation.height,
        placed(source, presentation).inside(presentation),
{
    let pw = presentation.width as int;
    let ph = presentation.height as int;
    let sw = source.width as int;
    let sh = source.height as int;
    if pw * sh <= ph * sw {
        assert(pw * sh / sw <= ph) by (nonlinear_arith)
            requires
                pw * sh <= ph * sw,
                sw > 0,
        ;
    } else {
        assert(ph * sw / sh <= pw) by (nonlinear_arith)
            requires
                ph * sw <= pw * sh,
                sh > 0,
        ;
    }
}

fn cut_run(at: i32, len: i32, limit: u32) -> (r: (i64, i64))
    ensures
        (r.0 as int, r.1 as int) == cut(at, len, limit),
        0 <= r.0,
        r.1 <= limit,
{
    let end: i64 = at as i64 + len as i64;
    (
        if at < 0 {
            0
        } else {
            at as i64
        },
        if end > limit as i64 {
            limit as i64
        } else {
            end
        },
    )
}

fn show_run(from: i64, to: i64, source: u32, at: u32, visible: u32) -> (r: (u64, u64))
    requires
        0 <= from < to <= source,
        at + visible <= u32::MAX,
    ensures
        (r.0 as int, r.1 as int) == shown(from as int, to as int, source, at, visible),
        r.0 <= r.1 <= at + visible,
{
    proof {
        lemma_shown_range(from as int, to as int, source, at, visible);
        lemma_product(from as u64, visible as u64);
        lemma_product(to as u64, visible as u64);
        assert(to * visible + source - 1 <= 0xffff_ffff * 0xffff_ffff + 0xffff_ffff)
            by (nonlinear_arith)
            requires
                0 <= to <= 0xffff_ffff,
                0 <= visible <= 0xffff_ffff,
                source <= 0xffff_ffff,
        ;
    }
    let s: u64 = source as u64;
    let v: u64 = visible as u64;
    (at as u64 + (from as u64) * v / s, at as u64 + ((to as u64) * v + s - 1) / s)
}

fn to_coordinate(v: u64) -> (r: i32)
    ensures
        r == as_coordinate(v as int),
{
    if v > i32::MAX as u64 {
        i32::MAX
    } else {
        v as i32
    }
}

/// What is shown of a run lies where the source is seen.
pub proof fn lemma_shown_range(from: int, to: int, source: u32, at: u32, visible: u32)
    requires
        0 <= from < to <= source,
    ensures
        at <= shown(from, to, source, at, visible).0 <= shown(from, to, source, at, visible).1 <= at
            + visible,
{
    let s = source as int;
    let v = visible as int;
    assert(0 <= from * v / s) by (nonlinear_arith)
        requires
            0 <= from,
            0 <= v,
            0 < s,
    ;
    assert(from * v <= to * v <= s * v) by (nonlinear_arith)
        requires
            from <= to <= s,
            0 <= v,
    ;
    assert(from * v / s <= (to * v + s - 1) / s) by (nonlinear_arith)
        requires
            from * v <= to * v,
            0 < s,
    ;
    assert((to * v + s - 1) / s <= v) by (nonlinear_arith)
        requires
            to * v <= s * v,
            0 < s,
    ;
}

/// The picture touches both sides of the presentation in one direction.
pub proof fn the_picture_fills_one_direction(source: Size, presentation: Size)
    requires
        source.wf(),
        presentation.wf(),
    ensures
        placed(source, presentation).width == presentation.width || placed(
            source,
            presentation,
        ).height == presentation.height,
{
    the_picture_lies_inside(source, presentation);
}

/// The picture is centred: what is left on two opposite sides differs by a pixel
/// at most.
pub proof fn the_picture_is_centred(source: Size, presentation: Size)
    requires
        source.wf(),
        presentation.wf(),
    ensures
        ({
            let v = placed(source, presentation);
            let right = presentation.width - v.x - v.width;
            let below = presentation.height - v.y - v.height;
            &&& 0 <= right - v.x <= 1
            &&& 0 <= below - v.y <= 1
        }),
{
    the_picture_lies_inside(source, presentation);
}

/// The picture keeps the source's aspect ratio to within a pixel, unless that
/// would leave nothing of it.
pub proof fn the_picture_keeps_the_aspect_ratio(source: Size, presentation: Size)
    requires
        source.wf(),
        presentation.wf(),
    ensures
        ({
            let v = placed(source, presentation);
            let across = v.width * source.height;
            let down = v.height * source.width;
            if v.width == presentation.width && across <= presentation.height * source.width {
                v.height * source.width <= across < (v.height + 1) * source.width || (v.height == 1
                    && across < source.width)
            } else {
                &&& v.height == presentation.height
                &&& v.width * source.height <= down < (v.width + 1) * source.height || (v.width
                    == 1 && down < source.height)
            }
        }),
{
    the_picture_lies_inside(source, presentation);
    let pw = presentation.width as int;
    let ph = presentation.height as int;
    let sw = source.width as int;
    let sh = source.height as int;
    let v = placed(source, presentation);
    if pw * sh <= ph * sw {
        let n = pw * sh;
        assert((n / sw) * sw <= n < (n / sw + 1) * sw) by (nonlinear_arith)
            requires
                sw > 0,
        ;
    } else {
        let n = ph * sw;
        assert((n / sh) * sh <= n < (n / sh + 1) * sh) by (nonlinear_arith)
            requires
                sh > 0,
        ;
    }
}

/// A source that has the size of the presentation is shown as it is.
pub proof fn identity_shows_the_whole_source(size: Size)
    requires
        size.wf(),
    ensures
        placed(size, size) == (Rect { x: 0, y: 0, width: size.width, height: size.height }),
{
    let w = size.width as int;
    let h = size.height as int;
    assert(w * h / w == h) by (nonlinear_arith)
        requires
            w > 0,
    ;
    assert(w * h <= h * w) by (nonlinear_arith);
}

} // verus!
