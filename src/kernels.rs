//! A reference model of the grayscale, corner-score and descriptor stages,
//! computed on the host. Its arithmetic is its own: a channel mean per
//! pixel, a four-neighbour peak score and a 16x16 comparison patch. It
//! follows each stage's data contract, not the numbers of any GPU shader.

use vstd::prelude::*;
use vstd::arithmetic::div_mod::lemma_fundamental_div_mod_converse;
use crate::descriptor::{pow2, Descriptor, DESCRIPTOR_WORDS};
use crate::detect::{at, lemma_grid_index};
use crate::readback::Corner;

verus! {

/// Row-major index `k` of a grid `width` wide stands for column `k % width`, row `k / width`.
pub proof fn lemma_grid_coords(width: int, height: int, k: int)
    requires
        0 < width,
        0 <= k < width * height,
    ensures
        0 <= k % width < width,
        0 <= k / width < height,
        (k / width) * width + k % width == k,
{
    assert(k == (k / width) * width + k % width) by (nonlinear_arith)
        requires
            0 < width,
    ;
    assert(0 <= k % width < width) by (nonlinear_arith)
        requires
            0 < width,
            0 <= k,
    ;
    assert(k / width < height) by (nonlinear_arith)
        requires
            0 < width,
            0 <= k < width * height,
    ;
    assert(0 <= k / width) by (nonlinear_arith)
        requires
            0 < width,
            0 <= k,
    ;
}

/// The cell at column `x`, row `y` of a grid built cell by cell from its
/// row-major index is the cell built for `(x, y)`.
pub proof fn lemma_grid_cell(width: int, height: int, x: int, y: int)
    requires
        0 <= x < width,
        0 <= y < height,
    ensures
        (y * width + x) % width == x,
        (y * width + x) / width == y,
        0 <= y * width + x < width * height,
{
    lemma_grid_index(width, height, x, y);
    lemma_fundamental_div_mod_converse(y * width + x, width, y, x);
}

/// The sum of the red, green and blue bytes of a pixel of an RGBA frame.
pub open spec fn luma(f: Seq<u8>, width: int, x: int, y: int) -> int {
    let i = 4 * (y * width + x);
    f[i] as int + f[i + 1] as int + f[i + 2] as int
}

/// A pixel of the grayscale surface: the mean of the frame pixel's red,
/// green and blue channels.
pub open spec fn gray_value(f: Seq<u8>, width: int, x: int, y: int) -> u8 {
    (luma(f, width, x, y) / 3) as u8
}

/// The grayscale surface of a frame `width` pixels wide: one value per
/// frame pixel, in row-major order.
pub open spec fn gray_surface(f: Seq<u8>, width: int, height: int) -> Seq<u8> {
    Seq::new((width * height) as nat, |k: int| gray_value(f, width, k % width, k / width))
}

fn frame_luma(frame: &Vec<u8>, width: u32, height: u32, x: u32, y: u32) -> (r: u32)
    requires
        frame@.len() == 4 * (width * height),
        width <= 8192,
        height <= 8192,
        x < width,
        y < height,
    ensures
        r == luma(frame@, width as int, x as int, y as int),
        r <= 765,
{
    proof {
        lemma_grid_index(width as int, height as int, x as int, y as int);
        assert(width * height <= 8192 * 8192) by (nonlinear_arith)
            requires
                width <= 8192,
                height <= 8192,
        ;
    }
    let i = 4 * ((y as usize) * (width as usize) + x as usize);
    frame[i] as u32 + frame[i + 1] as u32 + frame[i + 2] as u32
}

/// The grayscale stage: for each frame pixel, the mean of its color channels.
pub fn grayscale(frame: &Vec<u8>, width: u32, height: u32) -> (r: Vec<u8>)
    requires
        frame@.len() == 4 * (width * height),
        1 <= width <= 8192,
        1 <= height <= 8192,
    ensures
        r@ == gray_surface(frame@, width as int, height as int),
{
    proof {
        assert(width * height <= 8192 * 8192) by (nonlinear_arith)
            requires
                width <= 8192,
                height <= 8192,
        ;
    }
    let n = (width * height) as usize;
    let ghost target = gray_surface(frame@, width as int, height as int);
    let mut out: Vec<u8> = Vec::new();
    let mut k: usize = 0;
    while k < n
        invariant
            frame@.len() == 4 * (width * height),
            1 <= width <= 8192,
            1 <= height <= 8192,
            n == width * height,
            n <= 8192 * 8192,
            target == gray_surface(frame@, width as int, height as int),
            k <= n,
            out@ == target.take(k as int),
        decreases n - k,
    {
        proof {
            lemma_grid_coords(width as int, height as int, k as int);
        }
        let x = (k as u32) % width;
        let y = (k as u32) / width;
        let s = frame_luma(frame, width, height, x, y);
        out.push((s / 3) as u8);
        k = k + 1;
        proof {
            assert(out@ =~= target.take(k as int));
        }
    }
    proof {
        assert(out@ =~= target);
    }
    out
}

/// A neighbour's value, or zero past the border.
pub open spec fn neighbour(g: Seq<u8>, gw: int, gh: int, x: int, y: int) -> int {
    if 0 <= x < gw && 0 <= y < gh {
        at(g, gw, x, y) as int
    } else {
        0
    }
}

pub open spec fn max_int(a: int, b: int) -> int {
    if a >= b {
        a
    } else {
        b
    }
}

/// The peak score of a pixel: by how much it is brighter than the brightest
/// of its four neighbours, or zero.
pub open spec fn peak_score(g: Seq<u8>, gw: int, gh: int, x: int, y: int) -> u32 {
    let m = max_int(
        max_int(neighbour(g, gw, gh, x - 1, y), neighbour(g, gw, gh, x + 1, y)),
        max_int(neighbour(g, gw, gh, x, y - 1), neighbour(g, gw, gh, x, y + 1)),
    );
    let v = at(g, gw, x, y) as int;
    if v > m {
        (v - m) as u32
    } else {
        0
    }
}

pub open spec fn score_surface(g: Seq<u8>, gw: int, gh: int) -> Seq<u32> {
    Seq::new((gw * gh) as nat, |k: int| peak_score(g, gw, gh, k % gw, k / gw))
}

fn gray_at(g: &Vec<u8>, gw: u32, gh: u32, x: u32, y: u32) -> (r: u8)
    requires
        g@.len() == gw * gh,
        gw * gh <= 8192 * 8192,
        x < gw,
        y < gh,
    ensures
        r == at(g@, gw as int, x as int, y as int),
{
    proof {
        lemma_grid_index(gw as int, gh as int, x as int, y as int);
    }
    g[(y as usize) * (gw as usize) + x as usize]
}

fn neighbour_at(g: &Vec<u8>, gw: u32, gh: u32, x: i64, y: i64) -> (r: u32)
    requires
        g@.len() == gw * gh,
        gw * gh <= 8192 * 8192,
    ensures
        r == neighbour(g@, gw as int, gh as int, x as int, y as int),
{
    if 0 <= x && x < gw as i64 && 0 <= y && y < gh as i64 {
        gray_at(g, gw, gh, x as u32, y as u32) as u32
    } else {
        0
    }
}

/// The corner score stage: the peak score of every grayscale pixel.
pub fn peak_scores(g: &Vec<u8>, gw: u32, gh: u32) -> (r: Vec<u32>)
    requires
        g@.len() == gw * gh,
        1 <= gw <= 8192,
        1 <= gh <= 8192,
    ensures
        r@ == score_surface(g@, gw as int, gh as int),
{
    proof {
        assert(gw * gh <= 8192 * 8192) by (nonlinear_arith)
            requires
                gw <= 8192,
                gh <= 8192,
        ;
    }
    let n = (gw * gh) as usize;
    let ghost target = score_surface(g@, gw as int, gh as int);
    let mut out: Vec<u32> = Vec::new();
    let mut k: usize = 0;
    while k < n
        invariant
            g@.len() == gw * gh,
            1 <= gw <= 8192,
            1 <= gh <= 8192,
            gw * gh <= 8192 * 8192,
            n == gw * gh,
            n <= 8192 * 8192,
            target == score_surface(g@, gw as int, gh as int),
            k <= n,
            out@ == target.take(k as int),
        decreases n - k,
    {
        proof {
            lemma_grid_coords(gw as int, gh as int, k as int);
        }
        let x = (k as u32) % gw;
        let y = (k as u32) / gw;
        let (xi, yi) = (x as i64, y as i64);
        let a = neighbour_at(g, gw, gh, xi - 1, yi);
        let b = neighbour_at(g, gw, gh, xi + 1, yi);
        let c = neighbour_at(g, gw, gh, xi, yi - 1);
        let d = neighbour_at(g, gw, gh, xi, yi + 1);
        let m1 = if a >= b { a } else { b };
        let m2 = if c >= d { c } else { d };
        let m = if m1 >= m2 { m1 } else { m2 };
        let v = gray_at(g, gw, gh, x, y) as u32;
        out.push(if v > m { v - m } else { 0 });
        k = k + 1;
        proof {
            assert(out@ =~= target.take(k as int));
        }
    }
    proof {
        assert(out@ =~= target);
    }
    out
}

/// `v` moved into `0..hi`.
pub open spec fn clamp_coord(v: int, hi: int) -> int {
    if v < 0 {
        0
    } else if v >= hi {
        hi - 1
    } else {
        v
    }
}

/// Bit `k` of the descriptor of corner `c`: whether the sample at offset
/// `(k % 16 - 8, k / 16 - 8)` from the corner, moved into the surface, is
/// brighter than the corner. The 256 samples cover a 16x16 patch.
pub open spec fn descriptor_bit(g: Seq<u8>, gw: int, gh: int, c: Corner, k: int) -> bool {
    let cx = clamp_coord(c.x as int, gw);
    let cy = clamp_coord(c.y as int, gh);
    at(g, gw, clamp_coord(cx + k % 16 - 8, gw), clamp_coord(cy + k / 16 - 8, gh)) > at(g, gw, cx, cy)
}

/// The low `n` bits of word `w` of the descriptor: bit `b` is descriptor bit `32 * w + b`.
pub open spec fn word_bits(g: Seq<u8>, gw: int, gh: int, c: Corner, w: int, n: int) -> nat
    decreases n,
{
    if n <= 0 {
        0
    } else {
        word_bits(g, gw, gh, c, w, n - 1) + if descriptor_bit(g, gw, gh, c, 32 * w + n - 1) {
            pow2((n - 1) as nat)
        } else {
            0
        }
    }
}

pub open spec fn descriptor_of(g: Seq<u8>, gw: int, gh: int, c: Corner) -> Seq<u32> {
    Seq::new(DESCRIPTOR_WORDS as nat, |w: int| word_bits(g, gw, gh, c, w, 32) as u32)
}

fn clamp_to(v: i64, hi: u32) -> (r: u32)
    requires
        1 <= hi,
    ensures
        r == clamp_coord(v as int, hi as int),
        r < hi,
{
    if v < 0 {
        0
    } else if v >= hi as i64 {
        hi - 1
    } else {
        v as u32
    }
}

/// The descriptor stage for one corner.
pub fn describe_corner(g: &Vec<u8>, gw: u32, gh: u32, c: Corner) -> (r: Descriptor)
    requires
        g@.len() == gw * gh,
        1 <= gw <= 8192,
        1 <= gh <= 8192,
    ensures
        r@ == descriptor_of(g@, gw as int, gh as int, c),
{
    proof {
        assert(gw * gh <= 8192 * 8192) by (nonlinear_arith)
            requires
                gw <= 8192,
                gh <= 8192,
        ;
    }
    let cx = clamp_to(c.x as i64, gw);
    let cy = clamp_to(c.y as i64, gh);
    let center = gray_at(g, gw, gh, cx, cy);
    let mut d: Descriptor = [0u32; 8];
    let mut w: usize = 0;
    while w < DESCRIPTOR_WORDS
        invariant
            g@.len() == gw * gh,
            1 <= gw <= 8192,
            1 <= gh <= 8192,
            gw * gh <= 8192 * 8192,
            cx == clamp_coord(c.x as int, gw as int),
            cy == clamp_coord(c.y as int, gh as int),
            cx < gw,
            cy < gh,
            center == at(g@, gw as int, cx as int, cy as int),
            w <= DESCRIPTOR_WORDS,
            forall|v: int| 0 <= v < w ==> d@[v] == word_bits(g@, gw as int, gh as int, c, v, 32) as u32,
        decreases DESCRIPTOR_WORDS - w,
    {
        let mut acc: u64 = 0;
        let mut p: u64 = 1;
        let mut b: u32 = 0;
        while b < 32
            invariant
                g@.len() == gw * gh,
                1 <= gw <= 8192,
                1 <= gh <= 8192,
                gw * gh <= 8192 * 8192,
                cx == clamp_coord(c.x as int, gw as int),
                cy == clamp_coord(c.y as int, gh as int),
                cx < gw,
                cy < gh,
                center == at(g@, gw as int, cx as int, cy as int),
                w < DESCRIPTOR_WORDS,
                b <= 32,
                p == pow2(b as nat),
                acc == word_bits(g@, gw as int, gh as int, c, w as int, b as int),
                acc < pow2(b as nat),
            decreases 32 - b,
        {
            let k = 32 * (w as u32) + b;
            let sx = clamp_to(cx as i64 + (k % 16) as i64 - 8, gw);
            let sy = clamp_to(cy as i64 + (k / 16) as i64 - 8, gh);
            let sample = gray_at(g, gw, gh, sx, sy);
            proof {
                assert(pow2((b + 1) as nat) == 2 * pow2(b as nat));
                assert(pow2(b as nat) <= pow2(32)) by {
                    lemma_pow2_monotone(b as nat, 32);
                }
                crate::descriptor::lemma_pow2_32();
            }
            if sample > center {
                acc = acc + p;
            }
            p = 2 * p;
            b = b + 1;
        }
        proof {
            crate::descriptor::lemma_pow2_32();
        }
        d[w] = acc as u32;
        w = w + 1;
    }
    proof {
        assert(d@ =~= descriptor_of(g@, gw as int, gh as int, c));
    }
    d
}

proof fn lemma_pow2_monotone(a: nat, b: nat)
    requires
        a <= b,
    ensures
        pow2(a) <= pow2(b),
    decreases b - a,
{
    if a < b {
        lemma_pow2_monotone(a, (b - 1) as nat);
        assert(pow2(b) == 2 * pow2((b - 1) as nat));
    }
}

/// The descriptor stage: a descriptor for every slot of the corner list,
/// written or not, at the slot's own index.
pub fn describe(g: &Vec<u8>, gw: u32, gh: u32, corners: &Vec<Corner>) -> (r: Vec<Descriptor>)
    requires
        g@.len() == gw * gh,
        1 <= gw <= 8192,
        1 <= gh <= 8192,
    ensures
        r@.len() == corners@.len(),
        forall|i: int| 0 <= i < corners@.len() ==> (#[trigger] r@[i])@ == descriptor_of(g@, gw as int, gh as int, corners@[i]),
{
    let mut out: Vec<Descriptor> = Vec::new();
    let mut i: usize = 0;
    while i < corners.len()
        invariant
            g@.len() == gw * gh,
            1 <= gw <= 8192,
            1 <= gh <= 8192,
            i <= corners@.len(),
            out@.len() == i,
            forall|j: int| 0 <= j < i ==> (#[trigger] out@[j])@ == descriptor_of(g@, gw as int, gh as int, corners@[j]),
        decreases corners@.len() - i,
    {
        let d = describe_corner(g, gw, gh, corners[i]);
        out.push(d);
        i = i + 1;
    }
    out
}

pub proof fn lemma_gray_at(f: Seq<u8>, width: int, height: int, x: int, y: int)
    requires
        0 <= x < width,
        0 <= y < height,
    ensures
        at(gray_surface(f, width, height), width, x, y) == gray_value(f, width, x, y),
{
    lemma_grid_cell(width, height, x, y);
}

pub proof fn lemma_score_at(g: Seq<u8>, width: int, height: int, x: int, y: int)
    requires
        0 <= x < width,
        0 <= y < height,
    ensures
        at(score_surface(g, width, height), width, x, y) == peak_score(g, width, height, x, y),
{
    lemma_grid_cell(width, height, x, y);
}

} // verus!
