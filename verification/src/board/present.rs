//! Integer-scaled, letterboxed presentation of the Amiga canvas onto a host
//! framebuffer.
//!
//! Replicating a pixel N times loses nothing; resampling at a fractional
//! factor blurs. So the canvas is shown at the largest whole-number factor
//! that fits on both axes, at least 1, and centred.

use vstd::prelude::*;

verus! {

/// The largest whole number that scales the source into the host on both
/// axes, and at least 1.
pub open spec fn factor_for(host_w: nat, host_h: nat, src_w: nat, src_h: nat) -> nat {
    let fx = host_w / src_w;
    let fy = host_h / src_h;
    let f = if fx < fy {
        fx
    } else {
        fy
    };
    if f < 1 {
        1
    } else {
        f
    }
}

/// Where a centred span starts; a span that does not fit starts at the edge.
pub open spec fn centred(host: nat, span: nat) -> nat {
    if host < span {
        0
    } else {
        ((host - span) / 2) as nat
    }
}

/// The host pixel at column `dx`, row `dy` once the first `rows` rows of the
/// scaled image have been drawn.
pub open spec fn pixel(
    dx: int,
    dy: int,
    dst_w: nat,
    dst_h: nat,
    src: Seq<u32>,
    src_w: nat,
    src_h: nat,
    background: u32,
    rows: nat,
) -> u32 {
    let f = factor_for(dst_w, dst_h, src_w, src_h);
    let x_off = centred(dst_w, src_w * f);
    let y_off = centred(dst_h, src_h * f);
    if x_off <= dx < x_off + src_w * f && y_off <= dy < y_off + rows {
        src[((dy - y_off) / f as int) * src_w + (dx - x_off) / f as int]
    } else {
        background
    }
}

/// The whole host framebuffer, row by row; anything past its `dst_w * dst_h`
/// pixels is background.
pub open spec fn frame(
    len: nat,
    dst_w: nat,
    dst_h: nat,
    src: Seq<u32>,
    src_w: nat,
    src_h: nat,
    background: u32,
    rows: nat,
) -> Seq<u32> {
    Seq::new(
        len,
        |p: int|
            if p < dst_w * dst_h {
                pixel(
                    p % dst_w as int,
                    p / dst_w as int,
                    dst_w,
                    dst_h,
                    src,
                    src_w,
                    src_h,
                    background,
                    rows,
                )
            } else {
                background
            },
    )
}

/// The largest whole-number factor at which a `src_w` by `src_h` canvas fits
/// a `host_w` by `host_h` framebuffer on both axes, never less than 1.
pub fn scale_factor(host_w: usize, host_h: usize, src_w: usize, src_h: usize) -> (factor: usize)
    requires
        src_w > 0,
        src_h > 0,
    ensures
        factor == factor_for(host_w as nat, host_h as nat, src_w as nat, src_h as nat),
{
    let fx: usize = host_w / src_w;
    let fy: usize = host_h / src_h;
    let f: usize = if fx < fy {
        fx
    } else {
        fy
    };
    if f < 1 {
        1
    } else {
        f
    }
}

/// The factor is right: unless the host is smaller than the source the
/// scaled image fits on both axes, and one more would not.
pub proof fn factor_is_the_largest_that_fits(host_w: nat, host_h: nat, src_w: nat, src_h: nat)
    requires
        src_w > 0,
        src_h > 0,
    ensures
        ({
            let f = factor_for(host_w, host_h, src_w, src_h);
            &&& f >= 1
            &&& src_w <= host_w && src_h <= host_h ==> src_w * f <= host_w && src_h * f <= host_h
            &&& src_w * (f + 1) > host_w || src_h * (f + 1) > host_h
            &&& src_w > host_w || src_h > host_h ==> f == 1
        }),
{
    let f = factor_for(host_w, host_h, src_w, src_h);
    lemma_quotient(host_w, src_w);
    lemma_quotient(host_h, src_h);
    let fx = host_w / src_w;
    let fy = host_h / src_h;
    if src_w <= host_w && src_h <= host_h {
        assert(fx >= 1) by (nonlinear_arith)
            requires
                src_w * (fx + 1) > host_w,
                src_w <= host_w,
                fx >= 0,
        ;
        assert(fy >= 1) by (nonlinear_arith)
            requires
                src_h * (fy + 1) > host_h,
                src_h <= host_h,
                fy >= 0,
        ;
        vstd::arithmetic::mul::lemma_mul_inequality(f as int, fx as int, src_w as int);
        vstd::arithmetic::mul::lemma_mul_inequality(f as int, fy as int, src_h as int);
        vstd::arithmetic::mul::lemma_mul_is_commutative(src_w as int, f as int);
        vstd::arithmetic::mul::lemma_mul_is_commutative(src_h as int, f as int);
        vstd::arithmetic::mul::lemma_mul_is_commutative(src_w as int, fx as int);
        vstd::arithmetic::mul::lemma_mul_is_commutative(src_h as int, fy as int);
    }
    if src_w > host_w {
        assert(fx == 0) by (nonlinear_arith)
            requires
                src_w * fx <= host_w,
                src_w > host_w,
                fx >= 0,
        ;
    }
    if src_h > host_h {
        assert(fy == 0) by (nonlinear_arith)
            requires
                src_h * fy <= host_h,
                src_h > host_h,
                fy >= 0,
        ;
    }
    if f == fx {
    } else if f == fy {
    } else {
        assert(fx < 1 || fy < 1);
        if fx < 1 {
            assert(src_w * 2 > host_w) by (nonlinear_arith)
                requires
                    src_w * (fx + 1) > host_w,
                    fx == 0,
            ;
        } else {
            assert(src_h * 2 > host_h) by (nonlinear_arith)
                requires
                    src_h * (fy + 1) > host_h,
                    fy == 0,
            ;
        }
    }
}

/// A quotient fits, and one more does not.
proof fn lemma_quotient(host: nat, src: nat)
    requires
        src > 0,
    ensures
        src * (host / src) <= host,
        src * (host / src + 1) > host,
{
    vstd::arithmetic::div_mod::lemma_fundamental_div_mod(host as int, src as int);
    vstd::arithmetic::div_mod::lemma_mod_bound(host as int, src as int);
    vstd::arithmetic::mul::lemma_mul_is_distributive_add(src as int, (host / src) as int, 1);
}

/// A scaled side is no longer than the host's or the source's.
proof fn lemma_scaled_bound(host_w: nat, host_h: nat, src_w: nat, src_h: nat)
    requires
        src_w > 0,
        src_h > 0,
    ensures
        ({
            let f = factor_for(host_w, host_h, src_w, src_h);
            &&& src_w * f <= host_w || f == 1
            &&& src_h * f <= host_h || f == 1
        }),
{
    factor_is_the_largest_that_fits(host_w, host_h, src_w, src_h);
}

/// The source column (or row) that the `rep`-th copy of unit `unit` shows.
proof fn lemma_unit_of(unit: int, rep: int, factor: int)
    requires
        0 <= rep < factor,
        0 <= unit,
    ensures
        (unit * factor + rep) / factor == unit,
{
    vstd::arithmetic::div_mod::lemma_fundamental_div_mod_converse(
        unit * factor + rep,
        factor,
        unit,
        rep,
    );
}

/// Draw one source row into a host row: `count` pixels from `src[from..]`,
/// each replicated `factor` times, starting at column `x_off`. What falls
/// past the row's end is cropped.
fn blit_row(
    dst: &mut [u32],
    start: usize,
    width: usize,
    x_off: usize,
    src: &[u32],
    from: usize,
    count: usize,
    factor: usize,
)
    requires
        start + width <= old(dst)@.len(),
        from + count <= src@.len(),
        factor > 0,
        x_off + count * factor <= usize::MAX,
    ensures
        final(dst)@ == Seq::new(
            old(dst)@.len(),
            |p: int|
                if start <= p < start + width && x_off <= p - start < x_off + count * factor {
                    src@[from + (p - start - x_off) / factor as int]
                } else {
                    old(dst)@[p]
                },
        ),
{
    assert(src.len() == src@.len() && dst.len() == dst@.len());
    let mut sx: usize = 0;
    let mut column: usize = x_off;
    while sx < count
        invariant
            sx <= count,
            from + count <= usize::MAX,
            start + width <= usize::MAX,
            column == x_off + sx * factor,
            start + width <= dst@.len(),
            from + count <= src@.len(),
            factor > 0,
            x_off + count * factor <= usize::MAX,
            dst@.len() == old(dst)@.len(),
            forall|p: int|
                0 <= p < dst@.len() ==> (#[trigger] dst@[p]) == if start <= p < start + width
                    && x_off <= p - start < column {
                    src@[from + (p - start - x_off) / factor as int]
                } else {
                    old(dst)@[p]
                },
        decreases count - sx,
    {
        assert(sx * factor + factor <= count * factor) by (nonlinear_arith)
            requires
                sx < count,
                factor > 0,
        ;
        assert((sx + 1) * factor == sx * factor + factor) by (nonlinear_arith);
        let px: u32 = src[from + sx];
        let mut rep: usize = 0;
        while rep < factor
            invariant
                rep <= factor,
                sx < count,
                start + width <= usize::MAX,
                column == x_off + sx * factor,
                column + factor <= usize::MAX,
                start + width <= dst@.len(),
                from + count <= src@.len(),
                px == src@[from + sx],
                dst@.len() == old(dst)@.len(),
                forall|p: int|
                    0 <= p < dst@.len() ==> (#[trigger] dst@[p]) == if start <= p < start + width
                        && x_off <= p - start < column + rep {
                        src@[from + (p - start - x_off) / factor as int]
                    } else {
                        old(dst)@[p]
                    },
            decreases factor - rep,
        {
            let dx: usize = column + rep;
            if dx < width {
                proof {
                    lemma_unit_of(sx as int, rep as int, factor as int);
                }
                dst[start + dx] = px;
            }
            rep += 1;
        }
        sx += 1;
        column = column + factor;
    }
    assert(dst@ =~= Seq::new(
        old(dst)@.len(),
        |p: int|
            if start <= p < start + width && x_off <= p - start < x_off + count * factor {
                src@[from + (p - start - x_off) / factor as int]
            } else {
                old(dst)@[p]
            },
    ));
}

/// A framebuffer position is in row `dy` exactly when it lies in that row's
/// span, and its column is its distance from the span's start.
proof fn lemma_row(p: int, dy: int, width: int)
    requires
        0 <= p,
        0 <= dy,
        width > 0,
    ensures
        p / width == dy <==> dy * width <= p < dy * width + width,
        p / width == dy ==> p % width == p - dy * width,
{
    vstd::arithmetic::div_mod::lemma_fundamental_div_mod(p, width);
    vstd::arithmetic::div_mod::lemma_mod_bound(p, width);
    vstd::arithmetic::mul::lemma_mul_is_commutative(width, p / width);
    if dy * width <= p < dy * width + width {
        vstd::arithmetic::div_mod::lemma_fundamental_div_mod_converse(
            p,
            width,
            dy,
            p - dy * width,
        );
    }
}

/// Drawing a host row that shows source row `sy` turns the frame with `rows`
/// rows drawn into the frame with one more.
proof fn lemma_next_row(
    before: Seq<u32>,
    after: Seq<u32>,
    dst_w: nat,
    dst_h: nat,
    src: Seq<u32>,
    src_w: nat,
    src_h: nat,
    background: u32,
    sy: nat,
    rep: nat,
)
    requires
        src_w > 0,
        src_h > 0,
        sy < src_h,
        rep < factor_for(dst_w, dst_h, src_w, src_h),
        dst_w * dst_h <= before.len(),
        ({
            let f = factor_for(dst_w, dst_h, src_w, src_h);
            let rows = sy * f + rep;
            let dy = centred(dst_h, src_h * f) + rows;
            let x_off = centred(dst_w, src_w * f);
            &&& before == frame(
                before.len(),
                dst_w,
                dst_h,
                src,
                src_w,
                src_h,
                background,
                rows,
            )
            &&& dy >= dst_h ==> after == before
            &&& dy < dst_h ==> after == Seq::new(
                before.len(),
                |p: int|
                    if dy * dst_w <= p < dy * dst_w + dst_w && x_off <= p - dy * dst_w < x_off
                        + src_w * f {
                        src[sy * src_w + (p - dy * dst_w - x_off) / f as int]
                    } else {
                        before[p]
                    },
            )
        }),
    ensures
        after == frame(
            before.len(),
            dst_w,
            dst_h,
            src,
            src_w,
            src_h,
            background,
            sy * factor_for(dst_w, dst_h, src_w, src_h) + rep + 1,
        ),
{
    let f = factor_for(dst_w, dst_h, src_w, src_h);
    let rows = sy * f + rep;
    let y_off = centred(dst_h, src_h * f);
    let dy = y_off + rows;
    let goal = frame(before.len(), dst_w, dst_h, src, src_w, src_h, background, rows + 1);
    lemma_unit_of(sy as int, rep as int, f as int);
    assert forall|p: int| 0 <= p < before.len() implies after[p] == goal[p] by {
        if p < dst_w * dst_h {
            assert(dst_w > 0) by (nonlinear_arith)
                requires
                    0 <= p,
                    p < dst_w * dst_h,
            ;
            lemma_row(p, dy as int, dst_w as int);
            assert(p / (dst_w as int) < dst_h) by (nonlinear_arith)
                requires
                    0 <= p,
                    p < dst_w * dst_h,
                    dst_w > 0,
            ;
        } else if dy < dst_h {
            assert(dy * dst_w + dst_w <= dst_w * dst_h) by (nonlinear_arith)
                requires
                    dy < dst_h,
            ;
        }
    }
    assert(after =~= goal);
}

/// Fill `dst` (a `dst_w * dst_h` pixel host framebuffer) with `background`,
/// then draw `src` (a `src_w * src_h` pixel canvas) into its centre at
/// [`scale_factor`]'s chosen factor. A host framebuffer smaller than the
/// scaled image on some axis crops it.
pub fn blit_scaled_centered(
    dst: &mut [u32],
    dst_w: usize,
    dst_h: usize,
    src: &[u32],
    src_w: usize,
    src_h: usize,
    background: u32,
)
    requires
        src_w > 0,
        src_h > 0,
        dst_w * dst_h <= old(dst)@.len(),
        src_w * src_h <= src@.len(),
    ensures
        final(dst)@ == frame(
            old(dst)@.len(),
            dst_w as nat,
            dst_h as nat,
            src@,
            src_w as nat,
            src_h as nat,
            background,
            src_h as nat * factor_for(dst_w as nat, dst_h as nat, src_w as nat, src_h as nat),
        ),
{
    let mut i: usize = 0;
    let total: usize = dst.len();
    while i < total
        invariant
            i <= total,
            total == dst@.len(),
            dst@.len() == old(dst)@.len(),
            forall|p: int| 0 <= p < i ==> (#[trigger] dst@[p]) == background,
        decreases total - i,
    {
        dst[i] = background;
        i += 1;
    }

    let factor: usize = scale_factor(dst_w, dst_h, src_w, src_h);
    let ghost (gw, gh, sw, sh) = (dst_w as nat, dst_h as nat, src_w as nat, src_h as nat);
    proof {
        lemma_scaled_bound(gw, gh, sw, sh);
        assert(src_w * factor <= usize::MAX && src_h * factor <= usize::MAX) by (nonlinear_arith)
            requires
                src_w * factor <= dst_w || factor == 1,
                src_h * factor <= dst_h || factor == 1,
        ;
    }
    let scaled_w: usize = src_w * factor;
    let scaled_h: usize = src_h * factor;
    let x_off: usize = if dst_w < scaled_w {
        0
    } else {
        (dst_w - scaled_w) / 2
    };
    let y_off: usize = if dst_h < scaled_h {
        0
    } else {
        (dst_h - scaled_h) / 2
    };
    assert(dst@ =~= frame(dst@.len(), gw, gh, src@, sw, sh, background, 0));

    assert(src.len() == src@.len());
    let mut sy: usize = 0;
    while sy < src_h
        invariant
            sy <= src_h,
            dst_w * dst_h <= usize::MAX,
            src_w * src_h <= usize::MAX,
            src_w > 0,
            src_h > 0,
            gw == dst_w,
            gh == dst_h,
            sw == src_w,
            sh == src_h,
            factor == factor_for(gw, gh, sw, sh),
            factor > 0,
            scaled_w == src_w * factor,
            scaled_h == src_h * factor,
            x_off == centred(gw, sw * factor as nat),
            y_off == centred(gh, sh * factor as nat),
            x_off + scaled_w <= usize::MAX,
            y_off + scaled_h <= usize::MAX,
            dst_w * dst_h <= dst@.len(),
            src_w * src_h <= src@.len(),
            dst@.len() == old(dst)@.len(),
            dst@ == frame(dst@.len(), gw, gh, src@, sw, sh, background, sy as nat * factor as nat),
        decreases src_h - sy,
    {
        assert(sy * src_w + src_w <= src_w * src_h) by (nonlinear_arith)
            requires
                sy < src_h,
        ;
        assert(sy * factor + factor <= scaled_h) by (nonlinear_arith)
            requires
                sy < src_h,
                scaled_h == src_h * factor,
        ;
        let from: usize = sy * src_w;
        let mut rep: usize = 0;
        while rep < factor
            invariant
                rep <= factor,
                sy < src_h,
                dst_w * dst_h <= usize::MAX,
                src_w > 0,
                src_h > 0,
                gw == dst_w,
                gh == dst_h,
                sw == src_w,
                sh == src_h,
                factor == factor_for(gw, gh, sw, sh),
                scaled_w == src_w * factor,
                x_off == centred(gw, sw * factor as nat),
                y_off == centred(gh, sh * factor as nat),
                x_off + scaled_w <= usize::MAX,
                y_off + scaled_h <= usize::MAX,
                sy * factor + factor <= scaled_h,
                from == sy * src_w,
                from + src_w <= src@.len(),
                dst_w * dst_h <= dst@.len(),
                dst@.len() == old(dst)@.len(),
                dst@ == frame(
                    dst@.len(),
                    gw,
                    gh,
                    src@,
                    sw,
                    sh,
                    background,
                    sy as nat * factor as nat + rep as nat,
                ),
            decreases factor - rep,
        {
            let dy: usize = y_off + sy * factor + rep;
            let ghost before = dst@;
            if dy < dst_h {
                assert(dy * dst_w + dst_w <= dst_w * dst_h) by (nonlinear_arith)
                    requires
                        dy < dst_h,
                ;
                blit_row(dst, dy * dst_w, dst_w, x_off, src, from, src_w, factor);
            }
            proof {
                lemma_next_row(
                    before,
                    dst@,
                    gw,
                    gh,
                    src@,
                    sw,
                    sh,
                    background,
                    sy as nat,
                    rep as nat,
                );
            }
            rep += 1;
        }
        assert((sy + 1) * factor == sy * factor + factor) by (nonlinear_arith);
        sy += 1;
    }
}

/// Every host pixel is either background or an unaltered source pixel, and a
/// canvas that fits is shown whole: source pixel (`sx`, `sy`) fills a
/// `factor` by `factor` block of the host.
pub proof fn canvas_is_shown_whole(
    len: nat,
    dst_w: nat,
    dst_h: nat,
    src: Seq<u32>,
    src_w: nat,
    src_h: nat,
    background: u32,
    sx: nat,
    sy: nat,
    rep_x: nat,
    rep_y: nat,
)
    requires
        0 < src_w <= dst_w,
        0 < src_h <= dst_h,
        dst_w * dst_h <= len,
        sx < src_w,
        sy < src_h,
        rep_x < factor_for(dst_w, dst_h, src_w, src_h),
        rep_y < factor_for(dst_w, dst_h, src_w, src_h),
    ensures
        ({
            let f = factor_for(dst_w, dst_h, src_w, src_h);
            let dx = centred(dst_w, src_w * f) + sx * f + rep_x;
            let dy = centred(dst_h, src_h * f) + sy * f + rep_y;
            &&& dx < dst_w
            &&& dy < dst_h
            &&& frame(len, dst_w, dst_h, src, src_w, src_h, background, src_h * f)[(dy * dst_w
                + dx) as int] == src[(sy * src_w + sx) as int]
        }),
{
    let f = factor_for(dst_w, dst_h, src_w, src_h);
    factor_is_the_largest_that_fits(dst_w, dst_h, src_w, src_h);
    assert(sx * f + f <= src_w * f) by (nonlinear_arith)
        requires
            sx < src_w,
    ;
    assert(sy * f + f <= src_h * f) by (nonlinear_arith)
        requires
            sy < src_h,
    ;
    let dx = centred(dst_w, src_w * f) + sx * f + rep_x;
    let dy = centred(dst_h, src_h * f) + sy * f + rep_y;
    let p = dy * dst_w + dx;
    lemma_row(p as int, dy as int, dst_w as int);
    assert(p < dst_w * dst_h) by (nonlinear_arith)
        requires
            p == dy * dst_w + dx,
            dx < dst_w,
            dy < dst_h,
    ;
    lemma_unit_of(sx as int, rep_x as int, f as int);
    lemma_unit_of(sy as int, rep_y as int, f as int);
}

/// A span that fits is centred: the margins on its two sides are equal, or
/// the far one is a pixel wider. One that does not fit starts at the edge.
pub proof fn spans_are_centred(host: nat, span: nat)
    ensures
        ({
            let near = centred(host, span);
            let far = host - span - near;
            &&& span <= host ==> near <= far <= near + 1
            &&& span > host ==> near == 0
        }),
{
}

/// Everything around the picture is background, and so is what the storage
/// holds beyond the frame.
pub proof fn the_border_is_background(
    len: nat,
    dst_w: nat,
    dst_h: nat,
    src: Seq<u32>,
    src_w: nat,
    src_h: nat,
    background: u32,
    dx: nat,
    dy: nat,
    p: int,
)
    requires
        0 < src_w <= dst_w,
        0 < src_h <= dst_h,
        dst_w * dst_h <= len,
        dx < dst_w,
        dy < dst_h,
        ({
            let f = factor_for(dst_w, dst_h, src_w, src_h);
            ||| dx < centred(dst_w, src_w * f)
            ||| dx >= centred(dst_w, src_w * f) + src_w * f
            ||| dy < centred(dst_h, src_h * f)
            ||| dy >= centred(dst_h, src_h * f) + src_h * f
        }),
    ensures
        ({
            let f = factor_for(dst_w, dst_h, src_w, src_h);
            let shown = frame(len, dst_w, dst_h, src, src_w, src_h, background, src_h * f);
            &&& shown[(dy * dst_w + dx) as int] == background
            &&& dst_w * dst_h <= p < len ==> shown[p] == background
        }),
{
    let at = dy * dst_w + dx;
    lemma_row(at as int, dy as int, dst_w as int);
    assert(at < dst_w * dst_h) by (nonlinear_arith)
        requires
            at == dy * dst_w + dx,
            dx < dst_w,
            dy < dst_h,
    ;
}

} // verus!
