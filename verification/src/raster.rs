use vstd::prelude::*;
use crate::color::Rgb;

verus! {

/// A pixel position on a render target, column `x` and row `y`.
#[derive(Clone, Copy, PartialEq, Eq, Structural, Debug)]
pub struct Pixel {
    pub x: u32,
    pub y: u32,
}

/// The stencil state a draw pass runs under.
///
/// The pipeline uses exactly two stencil configurations besides no stencil at
/// all: the silhouette pass writes the reference value wherever it draws and
/// always passes (`stencil_func(ALWAYS)` with `stencil_op REPLACE` and a full
/// write mask), and the overlay pass draws only where the stencil equals the
/// reference and writes nothing (`stencil_func(EQUAL)` with a zero write
/// mask).
#[derive(Clone, Copy, PartialEq, Eq, Structural, Debug)]
pub enum StencilMode {
    /// Stencil test disabled.
    Off,
    /// Always pass and replace the stencil with the reference value.
    WriteAlways { reference: u8 },
    /// Pass only where the stencil equals the reference; write nothing.
    TestEqual { reference: u8 },
}

/// Whether a fragment passes the stencil test given the stored value `st`.
pub open spec fn stencil_passes(mode: StencilMode, st: u8) -> bool {
    match mode {
        StencilMode::Off => true,
        StencilMode::WriteAlways { .. } => true,
        StencilMode::TestEqual { reference } => st == reference,
    }
}

/// Whether the pixel lies on a `w` by `h` target.
pub open spec fn in_frame(p: Pixel, w: u32, h: u32) -> bool {
    p.x < w && p.y < h
}

/// The row-major buffer index of the pixel.
pub open spec fn pix_index(p: Pixel, w: u32) -> int {
    p.y * w + p.x
}

/// Whether the coverage list touches buffer index `i` of a `w` by `h`
/// target. Entries outside the target are clipped away.
pub open spec fn covers(cov: Seq<Pixel>, w: u32, h: u32, i: int) -> bool {
    exists|j: int| 0 <= j < cov.len() && in_frame(#[trigger] cov[j], w, h) && pix_index(cov[j], w) == i
}

/// A buffer of `len` pixels all holding `c`.
pub open spec fn cleared(len: nat, c: Rgb) -> Seq<Rgb> {
    Seq::new(len, |i: int| c)
}

/// A stencil buffer of `len` entries all holding `v`.
pub open spec fn stencil_cleared(len: nat, v: u8) -> Seq<u8> {
    Seq::new(len, |i: int| v)
}

/// The color buffer after one draw pass: covered pixels that pass the
/// stencil test take the pass color, every other pixel keeps its value.
pub open spec fn draw_color_spec(
    colors: Seq<Rgb>,
    stencils: Seq<u8>,
    cov: Seq<Pixel>,
    w: u32,
    h: u32,
    c: Rgb,
    mode: StencilMode,
) -> Seq<Rgb> {
    Seq::new(
        colors.len(),
        |i: int| if covers(cov, w, h, i) && stencil_passes(mode, stencils[i]) {
            c
        } else {
            colors[i]
        },
    )
}

/// The stencil buffer after one draw pass: only a `WriteAlways` pass writes,
/// putting its reference value on every covered pixel.
pub open spec fn draw_stencil_spec(
    stencils: Seq<u8>,
    cov: Seq<Pixel>,
    w: u32,
    h: u32,
    mode: StencilMode,
) -> Seq<u8> {
    match mode {
        StencilMode::WriteAlways { reference } => Seq::new(
            stencils.len(),
            |i: int| if covers(cov, w, h, i) {
                reference
            } else {
                stencils[i]
            },
        ),
        _ => stencils,
    }
}

/// The single-sample target after a resolve of the rectangle
/// `(0,0)..(rw,rh)`: pixels inside the rectangle take the multisample color,
/// pixels outside keep what the previous resolve left there.
pub open spec fn resolve_spec(ms: Seq<Rgb>, dst: Seq<Rgb>, w: u32, rw: u32, rh: u32) -> Seq<Rgb> {
    Seq::new(
        dst.len(),
        |i: int| if i % (w as int) < rw && i / (w as int) < rh {
            ms[i]
        } else {
            dst[i]
        },
    )
}

/// Pushing one more coverage entry touches exactly the old indices plus the
/// new entry's own index, when that entry lies on the target.
pub proof fn lemma_covers_push_at(cov: Seq<Pixel>, p: Pixel, w: u32, h: u32, i: int)
    ensures
        covers(cov.push(p), w, h, i) <==> (covers(cov, w, h, i) || (in_frame(p, w, h)
            && pix_index(p, w) == i)),
{
    if covers(cov.push(p), w, h, i) {
        let j = choose|j: int|
            0 <= j < cov.push(p).len() && in_frame(#[trigger] cov.push(p)[j], w, h)
                && pix_index(cov.push(p)[j], w) == i;
        if j < cov.len() {
            assert(cov[j] == cov.push(p)[j]);
            assert(covers(cov, w, h, i));
        } else {
            assert(cov.push(p)[j] == p);
        }
    }
    if covers(cov, w, h, i) {
        let j = choose|j: int|
            0 <= j < cov.len() && in_frame(#[trigger] cov[j], w, h) && pix_index(cov[j], w) == i;
        assert(cov.push(p)[j] == cov[j]);
        assert(covers(cov.push(p), w, h, i));
    }
    if in_frame(p, w, h) && pix_index(p, w) == i {
        assert(cov.push(p)[cov.len() as int] == p);
        assert(covers(cov.push(p), w, h, i));
    }
}

/// A resolve of the full rectangle copies the multisample buffer exactly.
pub proof fn lemma_full_resolve(ms: Seq<Rgb>, dst: Seq<Rgb>, w: u32, h: u32)
    requires
        ms.len() == w * h,
        dst.len() == w * h,
        w >= 1,
        h >= 1,
    ensures
        resolve_spec(ms, dst, w, w, h) == ms,
{
    assert forall|i: int|
        0 <= i < dst.len() implies resolve_spec(ms, dst, w, w, h)[i] == ms[i] by {
        assert(i % (w as int) < w && i / (w as int) < h) by (nonlinear_arith)
            requires
                0 <= i < w * h,
                w >= 1,
                h >= 1,
        ;
    }
    assert(resolve_spec(ms, dst, w, w, h) =~= ms);
}

/// Resolve correctness: a draw pass that covers the whole target, run with
/// the stencil test off or in silhouette (`WriteAlways`) state, followed by
/// a full-rectangle resolve, leaves the single-sample target uniformly equal
/// to the pass color.
pub proof fn lemma_resolve_of_full_draw(
    colors: Seq<Rgb>,
    stencils: Seq<u8>,
    dst: Seq<Rgb>,
    cov: Seq<Pixel>,
    w: u32,
    h: u32,
    c: Rgb,
    mode: StencilMode,
)
    requires
        colors.len() == w * h,
        stencils.len() == w * h,
        dst.len() == w * h,
        w >= 1,
        h >= 1,
        !(mode is TestEqual),
        forall|i: int| 0 <= i < w * h ==> covers(cov, w, h, i),
    ensures
        forall|i: int|
            0 <= i < w * h ==> resolve_spec(
                draw_color_spec(colors, stencils, cov, w, h, c, mode),
                dst,
                w,
                w,
                h,
            )[i] == c,
{
    assert forall|i: int|
        0 <= i < w * h implies resolve_spec(
        draw_color_spec(colors, stencils, cov, w, h, c, mode),
        dst,
        w,
        w,
        h,
    )[i] == c by {
        assert(i % (w as int) < w && i / (w as int) < h) by (nonlinear_arith)
            requires
                0 <= i < w * h,
                w >= 1,
                h >= 1,
        ;
        assert(stencil_passes(mode, stencils[i]));
    }
}

/// The color buffer after the two compositing passes: a silhouette pass
/// covering `cov_a` with color `c_a` (stencil reference 1 written into a
/// cleared stencil buffer), then an overlay pass covering `cov_b` with color
/// `c_b`, drawn only where the stencil equals 1.
pub open spec fn silhouette_then_overlay(
    colors: Seq<Rgb>,
    w: u32,
    h: u32,
    cov_a: Seq<Pixel>,
    c_a: Rgb,
    cov_b: Seq<Pixel>,
    c_b: Rgb,
) -> Seq<Rgb> {
    let st0 = stencil_cleared(colors.len(), 0);
    let mode_a = StencilMode::WriteAlways { reference: 1 };
    let c1 = draw_color_spec(colors, st0, cov_a, w, h, c_a, mode_a);
    let st1 = draw_stencil_spec(st0, cov_a, w, h, mode_a);
    draw_color_spec(c1, st1, cov_b, w, h, c_b, StencilMode::TestEqual { reference: 1 })
}

/// Stencil clipping: a silhouette pass covering the pixel set of `cov_a`
/// (written with reference 1 into a cleared stencil buffer), followed by an
/// overlay pass covering the whole target but drawing only where the stencil
/// equals 1, puts the overlay color exactly on the silhouette pixels and
/// leaves every other pixel as it was.
pub proof fn lemma_stencil_clipping(
    colors: Seq<Rgb>,
    w: u32,
    h: u32,
    cov_a: Seq<Pixel>,
    c_a: Rgb,
    cov_b: Seq<Pixel>,
    c_b: Rgb,
)
    requires
        colors.len() == w * h,
        w >= 1,
        h >= 1,
        forall|i: int| 0 <= i < w * h ==> covers(cov_b, w, h, i),
    ensures
        forall|i: int|
            0 <= i < w * h ==> silhouette_then_overlay(colors, w, h, cov_a, c_a, cov_b, c_b)[i]
                == if covers(cov_a, w, h, i) {
                c_b
            } else {
                colors[i]
            },
{
    assert forall|i: int|
        0 <= i < w * h implies silhouette_then_overlay(colors, w, h, cov_a, c_a, cov_b, c_b)[i]
        == if covers(cov_a, w, h, i) {
        c_b
    } else {
        colors[i]
    } by {
        let st0 = stencil_cleared(colors.len(), 0);
        let mode_a = StencilMode::WriteAlways { reference: 1 };
        let st1 = draw_stencil_spec(st0, cov_a, w, h, mode_a);
        assert(st1[i] == if covers(cov_a, w, h, i) { 1u8 } else { 0u8 });
        assert(stencil_passes(StencilMode::TestEqual { reference: 1 }, st1[i]) == covers(
            cov_a,
            w,
            h,
            i,
        ));
    }
}

} // verus!
