//! The 2x2 block view of a grid: gathering an even-dimensioned grid into a
//! half-size grid of 2x2 blocks, and spreading it back. Block (bc, br) of
//! the block grid covers the four cells of the source grid anchored at
//! (2*bc, 2*br); both grids are walked row-major. This mapping is part of
//! the format: the blocks' row-major order is the codeword order on the
//! wire.

use vstd::prelude::*;

use vstd::arithmetic::div_mod::lemma_fundamental_div_mod;

use crate::grid::{lemma_row_major_index, Grid};

verus! {

/// One 2x2 block of cells: `p1` top-left, `p2` top-right, `p3` bottom-left,
/// `p4` bottom-right.
#[derive(Debug, Clone, Copy, PartialEq, Eq)]
pub struct Block2x2<T> {
    pub p1: T,
    pub p2: T,
    pub p3: T,
    pub p4: T,
}

/// The corner of `b` that stands at column parity `c % 2`, row parity
/// `r % 2`.
pub open spec fn block_corner<T>(b: Block2x2<T>, c: int, r: int) -> T {
    if c % 2 == 0 && r % 2 == 0 {
        b.p1
    } else if c % 2 != 0 && r % 2 == 0 {
        b.p2
    } else if c % 2 == 0 {
        b.p3
    } else {
        b.p4
    }
}

/// Gathers an even-dimensioned grid into its 2x2 blocks: cell `i` of the
/// result, at block coordinates `(i % (w/2), i / (w/2))`, holds the four
/// source cells anchored at twice those coordinates.
pub fn collect_blocks<T: Copy>(g: &Grid<T>) -> (blocks: Grid<Block2x2<T>>)
    requires
        g.wf(),
        g.width % 2 == 0,
        g.height % 2 == 0,
    ensures
        blocks.wf(),
        blocks.width == g.width / 2,
        blocks.height == g.height / 2,
        forall|i: int|
            0 <= i < blocks.data@.len() ==> {
                let b = #[trigger] blocks.data@[i];
                let bc = i % (g.width as int / 2);
                let br = i / (g.width as int / 2);
                &&& b.p1 == g.cell(2 * bc, 2 * br)
                &&& b.p2 == g.cell(2 * bc + 1, 2 * br)
                &&& b.p3 == g.cell(2 * bc, 2 * br + 1)
                &&& b.p4 == g.cell(2 * bc + 1, 2 * br + 1)
            },
{
    let bw: usize = g.width / 2;
    let bh: usize = g.height / 2;
    proof {
        lemma_fundamental_div_mod(g.width as int, 2);
        lemma_fundamental_div_mod(g.height as int, 2);
    }
    let mut data: Vec<Block2x2<T>> = Vec::new();
    let mut br: usize = 0;
    while br < bh
        invariant
            br <= bh,
            g.wf(),
            g.width == 2 * bw,
            g.height == 2 * bh,
            data@.len() == br * bw,
            forall|i: int|
                0 <= i < data@.len() ==> {
                    let b = #[trigger] data@[i];
                    let bc = i % (bw as int);
                    let brr = i / (bw as int);
                    &&& b.p1 == g.cell(2 * bc, 2 * brr)
                    &&& b.p2 == g.cell(2 * bc + 1, 2 * brr)
                    &&& b.p3 == g.cell(2 * bc, 2 * brr + 1)
                    &&& b.p4 == g.cell(2 * bc + 1, 2 * brr + 1)
                },
        decreases bh - br,
    {
        let mut bc: usize = 0;
        while bc < bw
            invariant
                bc <= bw,
                br < bh,
                g.wf(),
                g.width == 2 * bw,
                g.height == 2 * bh,
                data@.len() == br * bw + bc,
                forall|i: int|
                    0 <= i < data@.len() ==> {
                        let b = #[trigger] data@[i];
                        let bcc = i % (bw as int);
                        let brr = i / (bw as int);
                        &&& b.p1 == g.cell(2 * bcc, 2 * brr)
                        &&& b.p2 == g.cell(2 * bcc + 1, 2 * brr)
                        &&& b.p3 == g.cell(2 * bcc, 2 * brr + 1)
                        &&& b.p4 == g.cell(2 * bcc + 1, 2 * brr + 1)
                    },
            decreases bw - bc,
        {
            let p1 = *g.get(2 * bc, 2 * br);
            let p2 = *g.get(2 * bc + 1, 2 * br);
            let p3 = *g.get(2 * bc, 2 * br + 1);
            let p4 = *g.get(2 * bc + 1, 2 * br + 1);
            data.push(Block2x2 { p1, p2, p3, p4 });
            proof {
                assert((br * bw + bc) % (bw as int) == bc && (br * bw + bc) / (bw as int) == br)
                    by (nonlinear_arith)
                    requires
                        0 <= bc < bw,
                        0 <= br,
                ;
            }
            bc = bc + 1;
        }
        proof {
            assert((br + 1) * bw == br * bw + bw) by (nonlinear_arith);
        }
        br = br + 1;
    }
    proof {
        assert(bh * bw == bw * bh) by (nonlinear_arith);
    }
    Grid { width: bw, height: bh, data }
}

/// Spreads a block grid back out to the full-size grid: cell (c, r) of the
/// result holds the corner of block (c / 2, r / 2) that its parities name.
pub fn spread_blocks<T: Copy>(blocks: &Grid<Block2x2<T>>) -> (g: Grid<T>)
    requires
        blocks.wf(),
        blocks.width <= usize::MAX / 2,
        blocks.height <= usize::MAX / 2,
    ensures
        g.wf(),
        g.width == 2 * blocks.width,
        g.height == 2 * blocks.height,
        forall|i: int|
            0 <= i < g.data@.len() ==> {
                let c = i % (2 * blocks.width);
                let r = i / (2 * blocks.width);
                #[trigger] g.data@[i] == block_corner(blocks.cell(c / 2, r / 2), c, r)
            },
{
    let w: usize = 2 * blocks.width;
    let h: usize = 2 * blocks.height;
    let mut data: Vec<T> = Vec::new();
    let mut r: usize = 0;
    while r < h
        invariant
            r <= h,
            blocks.wf(),
            w == 2 * blocks.width,
            h == 2 * blocks.height,
            data@.len() == r * w,
            forall|i: int|
                0 <= i < data@.len() ==> {
                    let cc = i % (w as int);
                    let rr = i / (w as int);
                    #[trigger] data@[i] == block_corner(blocks.cell(cc / 2, rr / 2), cc, rr)
                },
        decreases h - r,
    {
        let mut c: usize = 0;
        while c < w
            invariant
                c <= w,
                r < h,
                blocks.wf(),
                w == 2 * blocks.width,
                h == 2 * blocks.height,
                data@.len() == r * w + c,
                forall|i: int|
                    0 <= i < data@.len() ==> {
                        let cc = i % (w as int);
                        let rr = i / (w as int);
                        #[trigger] data@[i] == block_corner(blocks.cell(cc / 2, rr / 2), cc, rr)
                    },
            decreases w - c,
        {
            proof {
                assert(c / 2 < blocks.width && r / 2 < blocks.height) by (nonlinear_arith)
                    requires
                        c < w,
                        r < h,
                        w == 2 * blocks.width,
                        h == 2 * blocks.height,
                ;
            }
            let b = *blocks.get(c / 2, r / 2);
            let cell = if c % 2 == 0 && r % 2 == 0 {
                b.p1
            } else if c % 2 != 0 && r % 2 == 0 {
                b.p2
            } else if c % 2 == 0 {
                b.p3
            } else {
                b.p4
            };
            data.push(cell);
            proof {
                assert((r * w + c) % (w as int) == c && (r * w + c) / (w as int) == r)
                    by (nonlinear_arith)
                    requires
                        0 <= c < w,
                        0 <= r,
                ;
            }
            c = c + 1;
        }
        proof {
            assert((r + 1) * w == r * w + w) by (nonlinear_arith);
        }
        r = r + 1;
    }
    proof {
        assert(h * w == (2 * blocks.width) * (2 * blocks.height)) by (nonlinear_arith)
            requires
                w == 2 * blocks.width,
                h == 2 * blocks.height,
        ;
    }
    Grid { width: w, height: h, data }
}

/// Law: spreading the blocks gathered from an even-dimensioned grid yields
/// the grid back, cell for cell — the 2x2 block view neither loses a cell
/// nor invents one. The hypotheses are exactly what `collect_blocks` and
/// `spread_blocks` establish.
pub proof fn lemma_block_view_roundtrip<T>(g: Grid<T>, blocks: Grid<Block2x2<T>>, g2: Grid<T>)
    requires
        g.wf(),
        g.width % 2 == 0,
        g.height % 2 == 0,
        blocks.wf(),
        blocks.width == g.width / 2,
        blocks.height == g.height / 2,
        forall|i: int|
            0 <= i < blocks.data@.len() ==> {
                let b = #[trigger] blocks.data@[i];
                let bc = i % (g.width as int / 2);
                let br = i / (g.width as int / 2);
                &&& b.p1 == g.cell(2 * bc, 2 * br)
                &&& b.p2 == g.cell(2 * bc + 1, 2 * br)
                &&& b.p3 == g.cell(2 * bc, 2 * br + 1)
                &&& b.p4 == g.cell(2 * bc + 1, 2 * br + 1)
            },
        g2.wf(),
        g2.width == 2 * blocks.width,
        g2.height == 2 * blocks.height,
        forall|i: int|
            0 <= i < g2.data@.len() ==> {
                let c = i % (2 * blocks.width);
                let r = i / (2 * blocks.width);
                #[trigger] g2.data@[i] == block_corner(blocks.cell(c / 2, r / 2), c, r)
            },
    ensures
        g2.width == g.width,
        g2.height == g.height,
        g2.data@ == g.data@,
{
    let w = g.width as int;
    let h = g.height as int;
    let bw = blocks.width as int;
    let bh = blocks.height as int;
    lemma_fundamental_div_mod(w, 2);
    lemma_fundamental_div_mod(h, 2);
    assert(w == 2 * bw && h == 2 * bh);
    assert(g2.data@.len() == g.data@.len()) by (nonlinear_arith)
        requires
            g2.data@.len() == (2 * bw) * (2 * bh),
            g.data@.len() == w * h,
            w == 2 * bw,
            h == 2 * bh,
    ;
    assert forall|i: int| 0 <= i < g.data@.len() implies g2.data@[i] == g.data@[i] by {
        let c = i % w;
        let r = i / w;
        assert(w > 0 && h > 0) by (nonlinear_arith)
            requires
                0 <= i < w * h,
                0 <= w,
                0 <= h,
        ;
        lemma_fundamental_div_mod(i, w);
        assert(0 <= c < w) by (nonlinear_arith)
            requires
                w > 0,
                c == i % w,
        ;
        assert(0 <= r < h) by (nonlinear_arith)
            requires
                i == w * r + c,
                0 <= c < w,
                0 <= i < w * h,
                w > 0,
        ;
        lemma_fundamental_div_mod(c, 2);
        lemma_fundamental_div_mod(r, 2);
        let hc = c / 2;
        let hr = r / 2;
        assert(0 <= hc < bw && 0 <= hr < bh) by (nonlinear_arith)
            requires
                0 <= c < 2 * bw,
                0 <= r < 2 * bh,
                hc == c / 2,
                hr == r / 2,
        ;
        assert(0 <= c % 2 < 2 && 0 <= r % 2 < 2) by (nonlinear_arith)
            requires
                0 <= c,
                0 <= r,
        ;
        let j = hr * bw + hc;
        lemma_row_major_index(bw, bh, hc, hr);
        assert(j % bw == hc && j / bw == hr) by (nonlinear_arith)
            requires
                0 <= hc < bw,
                0 <= hr,
                j == hr * bw + hc,
        ;
        assert(0 <= j < blocks.data@.len()) by (nonlinear_arith)
            requires
                0 <= j < bw * bh,
                blocks.data@.len() == bw * bh,
        ;
        let b = blocks.data@[j];
        assert(blocks.cell(hc, hr) == b);
        assert(g2.data@[i] == block_corner(blocks.cell(c / 2, r / 2), c, r));
        assert(g.cell(c, r) == g.data@[i]);
        if c % 2 == 0 && r % 2 == 0 {
            assert(c == 2 * hc && r == 2 * hr);
            assert(g2.data@[i] == b.p1);
        } else if c % 2 != 0 && r % 2 == 0 {
            assert(c == 2 * hc + 1 && r == 2 * hr);
            assert(g2.data@[i] == b.p2);
        } else if c % 2 == 0 {
            assert(c == 2 * hc && r == 2 * hr + 1);
            assert(g2.data@[i] == b.p3);
        } else {
            assert(c == 2 * hc + 1 && r == 2 * hr + 1);
            assert(g2.data@[i] == b.p4);
        }
    }
    assert(g2.data@ =~= g.data@);
}

} // verus!
