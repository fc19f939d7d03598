//! Which samples of a response map the peak-to-sidelobe ratio leaves out of
//! its sidelobe.
use vstd::prelude::*;

verus! {

/// Half-open column range `[start, end)` of the neighborhood around a peak in
/// column `mx` of a window `n` wide.
pub open spec fn exclusion_columns(n: int, mx: int) -> (int, int) {
    (if mx - 5 > 0 { mx - 5 } else { 0 }, if mx + 6 < n { mx + 6 } else { n })
}

/// Half-open row range that is walked. The neighborhood proper is
/// `[max(my - 5, 0), min(my + 6, n))`. The established form instead takes
/// `top = min(my - 5, 0)` and walks from `min(my + 6, n)` up to `top`.
pub open spec fn exclusion_rows(n: int, my: int, neighborhood: bool) -> (int, int) {
    let bottom = if my + 6 < n { my + 6 } else { n };
    if neighborhood {
        (if my - 5 > 0 { my - 5 } else { 0 }, bottom)
    } else {
        (bottom, if my - 5 < 0 { my - 5 } else { 0 })
    }
}

/// Length of the half-open range `[start, end)`, zero when it is reversed.
pub open spec fn span(range: (int, int)) -> int {
    if range.1 > range.0 { range.1 - range.0 } else { 0 }
}

/// Flat indices left out of the sidelobe, columns outermost and rows
/// innermost, for a peak at (`mx`, `my`) of an `n` x `n` response map.
pub open spec fn exclusion(n: int, mx: int, my: int, neighborhood: bool) -> Seq<int> {
    let cols = exclusion_columns(n, mx);
    let rows = exclusion_rows(n, my, neighborhood);
    let h = span(rows);
    Seq::new(
        (span(cols) * h) as nat,
        |k: int| (rows.0 + k % h) * n + cols.0 + k / h,
    )
}

/// Flat indices of the response samples that are taken out of the sidelobe
/// sums for a peak at `peak` of a `window_size` x `window_size` map. With
/// `neighborhood` the 11 x 11 block around the peak, clipped to the map, is
/// left out; without it, the established bounds are followed, which leave
/// nothing out.
pub fn sidelobe_exclusion(window_size: u32, peak: (u32, u32), neighborhood: bool) -> (r: Vec<usize>)
    requires
        peak.0 < window_size,
        peak.1 < window_size,
        window_size * window_size <= u32::MAX,
    ensures
        r@.len() == exclusion(window_size as int, peak.0 as int, peak.1 as int, neighborhood).len(),
        forall|k: int|
            0 <= k < r@.len() ==> r@[k] as int == #[trigger] exclusion(
                window_size as int,
                peak.0 as int,
                peak.1 as int,
                neighborhood,
            )[k],
        forall|k: int| 0 <= k < r@.len() ==> #[trigger] r@[k] < window_size * window_size,
{
    let n = window_size as i64;
    let mx = peak.0 as i64;
    let my = peak.1 as i64;
    let left: i64 = if mx - 5 > 0 { mx - 5 } else { 0 };
    let right: i64 = if mx + 6 < n { mx + 6 } else { n };
    let bottom: i64 = if my + 6 < n { my + 6 } else { n };
    let (first_row, end_row): (i64, i64) = if neighborhood {
        (if my - 5 > 0 { my - 5 } else { 0 }, bottom)
    } else {
        (bottom, if my - 5 < 0 { my - 5 } else { 0 })
    };
    let ghost spec_seq = exclusion(n as int, mx as int, my as int, neighborhood);
    let ghost h = span((first_row as int, end_row as int));
    let mut out: Vec<usize> = Vec::new();
    let mut x = left;
    while x < right
        invariant
            0 <= left <= x <= right,
            right <= n,
            n == window_size,
            n * n <= u32::MAX,
            0 <= first_row,
            end_row <= n,
            h == span((first_row as int, end_row as int)),
            spec_seq == exclusion(n as int, mx as int, my as int, neighborhood),
            exclusion_columns(n as int, mx as int) == (left as int, right as int),
            exclusion_rows(n as int, my as int, neighborhood) == (first_row as int, end_row as int),
            out@.len() == (x - left) * h,
            forall|k: int| 0 <= k < out@.len() ==> out@[k] as int == #[trigger] spec_seq[k],
            forall|k: int| 0 <= k < out@.len() ==> #[trigger] out@[k] < n * n,
        decreases right - x,
    {
        let mut y = first_row;
        while y < end_row
            invariant
                0 <= left <= x < right <= n,
                n == window_size,
                n * n <= u32::MAX,
                0 <= first_row <= y,
                end_row <= n,
                y == first_row || (first_row < end_row && y <= end_row),
                h == span((first_row as int, end_row as int)),
                spec_seq == exclusion(n as int, mx as int, my as int, neighborhood),
                exclusion_columns(n as int, mx as int) == (left as int, right as int),
                exclusion_rows(n as int, my as int, neighborhood) == (first_row as int, end_row as int),
                out@.len() == (x - left) * h + (y - first_row),
                forall|k: int| 0 <= k < out@.len() ==> out@[k] as int == #[trigger] spec_seq[k],
                forall|k: int| 0 <= k < out@.len() ==> #[trigger] out@[k] < n * n,
            decreases end_row - y,
        {
            let ghost k = out@.len() as int;
            proof {
                vstd::arithmetic::div_mod::lemma_fundamental_div_mod_converse(
                    k,
                    h,
                    x - left,
                    y - first_row,
                );
                assert(y * n + x < n * n) by (nonlinear_arith)
                    requires
                        0 <= y < n,
                        0 <= x < n,
                ;
                assert(span((left as int, right as int)) == right - left);
                assert(k < (right - left) * h) by (nonlinear_arith)
                    requires
                        k == (x - left) * h + (y - first_row),
                        0 <= y - first_row < h,
                        0 <= x - left < right - left,
                ;
            }
            out.push((y * n + x) as usize);
            y += 1;
        }
        proof {
            if end_row <= first_row {
                assert(h == 0);
            }
            assert(out@.len() == (x - left) * h + h);
            assert(out@.len() == (x + 1 - left) * h) by (nonlinear_arith)
                requires
                    out@.len() == (x - left) * h + h,
            ;
        }
        x += 1;
    }
    proof {
        assert(span((left as int, right as int)) == right - left);
        assert(out@.len() == spec_seq.len()) by (nonlinear_arith)
            requires
                out@.len() == (right - left) * h,
                spec_seq.len() == span((left as int, right as int)) * h,
                right >= left,
                h >= 0,
        ;
    }
    out
}

/// Without the neighborhood flag nothing is ever left out: the walked row
/// range starts at or below row 1 of the map and ends at or above row 0, so it
/// is empty for every peak.
pub proof fn lemma_established_exclusion_empty(n: int, mx: int, my: int)
    requires
        0 <= mx < n,
        0 <= my < n,
    ensures
        exclusion(n, mx, my, false).len() == 0,
{
    let rows = exclusion_rows(n, my, false);
    assert(span(rows) == 0);
    assert(span(exclusion_columns(n, mx)) * 0 == 0);
}

} // verus!
