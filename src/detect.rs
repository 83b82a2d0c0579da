//! Corner detection into a bounded corner list.

use vstd::prelude::*;
use crate::append::{min_nat, AppendBuffer};
use crate::readback::Corner;

verus! {

/// The value at column `x`, row `y` of a row-major grid `width` wide.
pub open spec fn at<T>(g: Seq<T>, width: int, x: int, y: int) -> T {
    g[y * width + x]
}

pub proof fn lemma_grid_index(width: int, height: int, x: int, y: int)
    requires
        0 <= x < width,
        0 <= y < height,
    ensures
        0 <= y * width + x < width * height,
{
    assert(y * width + x < width * height) by (nonlinear_arith)
        requires
            0 <= x < width,
            0 <= y < height,
    ;
    assert(0 <= y * width) by (nonlinear_arith)
        requires
            0 <= y,
            0 <= width,
    ;
}

/// The corners that row `y` yields among its first `n` pixels, left to right:
/// each pixel whose score is above `threshold`.
pub open spec fn row_corners(scores: Seq<u32>, width: int, y: int, n: int, threshold: u32) -> Seq<Corner>
    decreases n,
{
    if n <= 0 {
        Seq::empty()
    } else {
        let s = row_corners(scores, width, y, n - 1, threshold);
        if at(scores, width, n - 1, y) > threshold {
            s.push(Corner { x: (n - 1) as u32, y: y as u32 })
        } else {
            s
        }
    }
}

/// The corners of the first `rows` rows, in scan order.
pub open spec fn scan_corners(scores: Seq<u32>, width: int, rows: int, threshold: u32) -> Seq<Corner>
    decreases rows,
{
    if rows <= 0 {
        Seq::empty()
    } else {
        scan_corners(scores, width, rows - 1, threshold) + row_corners(scores, width, rows - 1, width, threshold)
    }
}

proof fn lemma_row_corners_len(scores: Seq<u32>, width: int, y: int, n: int, threshold: u32)
    requires
        0 <= n,
    ensures
        row_corners(scores, width, y, n, threshold).len() <= n,
        (forall|x: int| 0 <= x < n ==> at(scores, width, x, y) > threshold) ==> row_corners(
            scores,
            width,
            y,
            n,
            threshold,
        ).len() == n,
    decreases n,
{
    if n > 0 {
        lemma_row_corners_len(scores, width, y, n - 1, threshold);
    }
}

proof fn lemma_scan_corners_len(scores: Seq<u32>, width: int, rows: int, threshold: u32)
    requires
        0 <= rows,
        0 <= width,
    ensures
        scan_corners(scores, width, rows, threshold).len() <= rows * width,
        (forall|x: int, y: int| 0 <= x < width && 0 <= y < rows ==> #[trigger] at(scores, width, x, y) > threshold)
            ==> scan_corners(scores, width, rows, threshold).len() == rows * width,
    decreases rows,
{
    if rows > 0 {
        lemma_scan_corners_len(scores, width, rows - 1, threshold);
        lemma_row_corners_len(scores, width, rows - 1, width, threshold);
        assert((rows - 1) * width + width == rows * width) by (nonlinear_arith);
        if forall|x: int, y: int| 0 <= x < width && 0 <= y < rows ==> #[trigger] at(scores, width, x, y) > threshold {
            assert(forall|x: int, y: int| 0 <= x < width && 0 <= y < rows - 1 ==> #[trigger] at(scores, width, x, y) > threshold);
            assert(forall|x: int| 0 <= x < width ==> #[trigger] at(scores, width, x, rows - 1) > threshold);
        }
    } else {
        assert(rows * width == 0) by (nonlinear_arith)
            requires
                rows == 0,
        ;
    }
}

/// Appends, in scan order, a corner for every pixel whose score is above
/// `threshold` to a corner list of `capacity` slots. Corners past the
/// capacity are counted and dropped.
pub fn detect_corners(scores: &Vec<u32>, width: u32, height: u32, threshold: u32, capacity: usize) -> (r: AppendBuffer<Corner>)
    requires
        scores@.len() == width * height,
        width * height < u32::MAX,
    ensures
        r.capacity() == capacity,
        r.holds_stream(scan_corners(scores@, width as int, height as int, threshold)),
{
    let mut out = AppendBuffer::new(capacity, Corner { x: 0, y: 0 });
    let ghost w = width as int;
    let mut y: u32 = 0;
    while y < height
        invariant
            scores@.len() == width * height,
            width * height < u32::MAX,
            w == width,
            y <= height,
            out.capacity() == capacity,
            out.holds_stream(scan_corners(scores@, w, y as int, threshold)),
        decreases height - y,
    {
        let ghost before = scan_corners(scores@, w, y as int, threshold);
        proof {
            lemma_scan_corners_len(scores@, w, y as int, threshold);
        }
        let mut x: u32 = 0;
        while x < width
            invariant
                scores@.len() == width * height,
                width * height < u32::MAX,
                w == width,
                y < height,
                x <= width,
                before.len() <= y * w,
                out.capacity() == capacity,
                out.holds_stream(before + row_corners(scores@, w, y as int, x as int, threshold)),
            decreases width - x,
        {
            let ghost row = row_corners(scores@, w, y as int, x as int, threshold);
            proof {
                lemma_grid_index(w, height as int, x as int, y as int);
                lemma_row_corners_len(scores@, w, y as int, x as int, threshold);
                assert(y * w + x < width * height);
            }
            let i = (y * width + x) as usize;
            if scores[i] > threshold {
                let c = Corner { x, y };
                out.append_to_stream(c, Ghost(before + row));
                proof {
                    assert((before + row).push(c) =~= before + row.push(c));
                }
            }
            x = x + 1;
        }
        y = y + 1;
    }
    out
}

/// When no pixel of the grid scores above the threshold, the scan yields no corner.
pub proof fn lemma_scan_none(scores: Seq<u32>, width: int, height: int, threshold: u32)
    requires
        0 < width,
        0 <= height,
        forall|x: int, y: int| 0 <= x < width && 0 <= y < height ==> #[trigger] at(scores, width, x, y) <= threshold,
    ensures
        scan_corners(scores, width, height, threshold) == Seq::<Corner>::empty(),
{
    assert(only_peak(scores, width, height, threshold, 0, height));
    lemma_scan_single_rows(scores, width, height, height, threshold, 0, height);
}

/// `a` comes before `b` in scan order.
pub open spec fn scan_before(a: Corner, b: Corner) -> bool {
    a.y < b.y || (a.y == b.y && a.x < b.x)
}

/// The corners of `s` are in strict scan order, hence pairwise distinct.
pub open spec fn scan_ordered(s: Seq<Corner>) -> bool {
    forall|i: int, j: int| 0 <= i < j < s.len() ==> scan_before(#[trigger] s[i], #[trigger] s[j])
}

proof fn lemma_row_ordered(scores: Seq<u32>, width: int, y: int, n: int, threshold: u32)
    requires
        0 <= y <= u32::MAX,
        0 <= n <= u32::MAX + 1,
    ensures
        scan_ordered(row_corners(scores, width, y, n, threshold)),
        forall|k: int| 0 <= k < row_corners(scores, width, y, n, threshold).len() ==> {
            let c = #[trigger] row_corners(scores, width, y, n, threshold)[k];
            c.y == y && c.x < n
        },
    decreases n,
{
    if n > 0 {
        lemma_row_ordered(scores, width, y, n - 1, threshold);
    }
}

proof fn lemma_scan_ordered(scores: Seq<u32>, width: int, rows: int, threshold: u32)
    requires
        0 <= width <= u32::MAX + 1,
        0 <= rows <= u32::MAX + 1,
    ensures
        scan_ordered(scan_corners(scores, width, rows, threshold)),
        forall|k: int| 0 <= k < scan_corners(scores, width, rows, threshold).len() ==> (#[trigger] scan_corners(
            scores,
            width,
            rows,
            threshold,
        )[k]).y < rows,
    decreases rows,
{
    if rows > 0 {
        lemma_scan_ordered(scores, width, rows - 1, threshold);
        lemma_row_ordered(scores, width, rows - 1, width, threshold);
        let a = scan_corners(scores, width, rows - 1, threshold);
        let b = row_corners(scores, width, rows - 1, width, threshold);
        assert forall|i: int, j: int| 0 <= i < j < (a + b).len() implies scan_before(
            #[trigger] (a + b)[i],
            #[trigger] (a + b)[j],
        ) by {
            if j < a.len() {
                assert((a + b)[i] == a[i] && (a + b)[j] == a[j]);
            } else if i < a.len() {
                assert((a + b)[i] == a[i] && (a + b)[j] == b[j - a.len()]);
            } else {
                assert((a + b)[i] == b[i - a.len()] && (a + b)[j] == b[j - a.len()]);
            }
        }
        assert forall|k: int| 0 <= k < (a + b).len() implies (#[trigger] (a + b)[k]).y < rows by {
            if k < a.len() {
                assert((a + b)[k] == a[k]);
            } else {
                assert((a + b)[k] == b[k - a.len()]);
            }
        }
    }
}

/// The append clamp: when more pixels qualify than the corner list holds,
/// exactly `capacity` corners are written, the first ones in scan order,
/// pairwise distinct, and none past the capacity.
pub proof fn lemma_detect_clamp(b: &AppendBuffer<Corner>, scores: Seq<u32>, width: int, height: int, threshold: u32)
    requires
        0 <= width,
        0 <= height,
        width * height < u32::MAX,
        b.holds_stream(scan_corners(scores, width, height, threshold)),
        forall|x: int, y: int| 0 <= x < width && 0 <= y < height ==> #[trigger] at(scores, width, x, y) > threshold,
        width * height > b.capacity(),
    ensures
        b.written() == b.capacity(),
        b.records() == scan_corners(scores, width, height, threshold).take(b.capacity() as int),
        forall|i: int, j: int| 0 <= i < b.written() && 0 <= j < b.written() && i != j ==> #[trigger] b.records()[i]
            != #[trigger] b.records()[j],
{
    let s = scan_corners(scores, width, height, threshold);
    lemma_scan_corners_len(scores, width, height, threshold);
    assert(s.len() == height * width);
    assert(height * width == width * height) by (nonlinear_arith);
    assert(min_nat(s.len(), b.capacity()) == b.capacity());
    crate::append::lemma_records_of_stream(b, s);
    assert(width <= u32::MAX && height <= u32::MAX) by (nonlinear_arith)
        requires
            0 <= width,
            0 <= height,
            width * height > b.capacity() >= 0,
            width * height < u32::MAX,
    ;
    lemma_scan_ordered(scores, width, height, threshold);
    assert forall|i: int, j: int| 0 <= i < b.written() && 0 <= j < b.written() && i != j implies #[trigger] b.records()[i]
        != #[trigger] b.records()[j] by {
        assert(b.records()[i] == s[i] && b.records()[j] == s[j]);
        if i < j {
            assert(scan_before(s[i], s[j]));
        } else {
            assert(scan_before(s[j], s[i]));
        }
    }
}

/// A scan of a grid yields at most one corner per pixel.
pub proof fn lemma_scan_len_bound(scores: Seq<u32>, width: int, height: int, threshold: u32)
    requires
        0 <= width,
        0 <= height,
    ensures
        scan_corners(scores, width, height, threshold).len() <= width * height,
{
    lemma_scan_corners_len(scores, width, height, threshold);
    assert(height * width == width * height) by (nonlinear_arith);
}

/// Among the pixels of a `width` by `height` grid, only `(x0, y0)` scores
/// above `threshold`.
pub open spec fn only_peak(scores: Seq<u32>, width: int, height: int, threshold: u32, x0: int, y0: int) -> bool {
    forall|x: int, y: int| 0 <= x < width && 0 <= y < height ==> (#[trigger] at(scores, width, x, y) > threshold) == (
    x == x0 && y == y0)
}

proof fn lemma_row_single(scores: Seq<u32>, width: int, height: int, y: int, n: int, threshold: u32, x0: int, y0: int)
    requires
        only_peak(scores, width, height, threshold, x0, y0),
        0 <= y < height,
        0 <= n <= width,
        0 <= x0 < width,
    ensures
        row_corners(scores, width, y, n, threshold) == if y == y0 && x0 < n {
            seq![Corner { x: x0 as u32, y: y0 as u32 }]
        } else {
            Seq::<Corner>::empty()
        },
    decreases n,
{
    if n > 0 {
        lemma_row_single(scores, width, height, y, n - 1, threshold, x0, y0);
        assert(at(scores, width, n - 1, y) > threshold <==> (n - 1 == x0 && y == y0));
        if n - 1 == x0 && y == y0 {
            assert(Seq::<Corner>::empty().push(Corner { x: x0 as u32, y: y0 as u32 }) =~= seq![
                Corner { x: x0 as u32, y: y0 as u32 },
            ]);
        }
    }
}

proof fn lemma_scan_single_rows(scores: Seq<u32>, width: int, height: int, rows: int, threshold: u32, x0: int, y0: int)
    requires
        only_peak(scores, width, height, threshold, x0, y0),
        0 <= x0 < width,
        0 <= rows <= height,
    ensures
        scan_corners(scores, width, rows, threshold) == if 0 <= y0 < rows {
            seq![Corner { x: x0 as u32, y: y0 as u32 }]
        } else {
            Seq::<Corner>::empty()
        },
    decreases rows,
{
    if rows > 0 {
        lemma_scan_single_rows(scores, width, height, rows - 1, threshold, x0, y0);
        lemma_row_single(scores, width, height, rows - 1, width, threshold, x0, y0);
        let a = scan_corners(scores, width, rows - 1, threshold);
        let b = row_corners(scores, width, rows - 1, width, threshold);
        if y0 == rows - 1 {
            assert(a + b =~= b);
        } else {
            assert(a + b =~= a);
        }
    }
}

/// When exactly one pixel of the grid scores above the threshold, the scan
/// yields exactly one corner, at that pixel.
pub proof fn lemma_scan_single(scores: Seq<u32>, width: int, height: int, threshold: u32, x0: int, y0: int)
    requires
        only_peak(scores, width, height, threshold, x0, y0),
        0 <= x0 < width,
        0 <= y0 < height,
    ensures
        scan_corners(scores, width, height, threshold) == seq![Corner { x: x0 as u32, y: y0 as u32 }],
{
    lemma_scan_single_rows(scores, width, height, height, threshold, x0, y0);
}

} // verus!
