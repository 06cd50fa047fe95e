//! Per-pixel luminance: the weighted channel sum `0.299 R + 0.587 G + 0.114 B`,
//! rounded half away from zero, computed exactly over thousandths.
use vstd::prelude::*;
use vstd::arithmetic::div_mod::lemma_div_is_ordered;
use vstd::arithmetic::div_mod::lemma_div_pos_is_pos;
use vstd::arithmetic::div_mod::lemma_multiply_divide_lt;
use vstd::arithmetic::div_mod::lemma_fundamental_div_mod;

verus! {

/// Luminance of one RGB triplet: `round(0.299 R + 0.587 G + 0.114 B)`,
/// written over integer thousandths so the rounding is exact.
pub open spec fn luma(r: int, g: int, b: int) -> int {
    (299 * r + 587 * g + 114 * b + 500) / 1000
}

/// Luminance buffer derived from a flat RGB buffer; a trailing partial
/// triplet is dropped, so the output holds `len / 3` bytes.
pub open spec fn luminance_of(pixels: Seq<u8>) -> Seq<u8> {
    Seq::new(
        pixels.len() / 3,
        |k: int| luma(pixels[3 * k] as int, pixels[3 * k + 1] as int, pixels[3 * k + 2] as int) as u8,
    )
}

/// The luminance of any valid RGB triplet lies in `[0, 255]`.
pub proof fn lemma_luma_range(r: int, g: int, b: int)
    requires
        0 <= r <= 255,
        0 <= g <= 255,
        0 <= b <= 255,
    ensures
        0 <= luma(r, g, b) <= 255,
{
    assert(299 * r + 587 * g + 114 * b + 500 < 256000) by (nonlinear_arith)
        requires r <= 255 && g <= 255 && b <= 255;
    lemma_div_pos_is_pos(299 * r + 587 * g + 114 * b + 500, 1000);
    lemma_multiply_divide_lt(299 * r + 587 * g + 114 * b + 500, 1000, 256);
}

/// Raising any channel while holding the others fixed never lowers luminance.
pub proof fn lemma_luma_monotonic(r1: int, g1: int, b1: int, r2: int, g2: int, b2: int)
    requires
        r1 <= r2,
        g1 <= g2,
        b1 <= b2,
    ensures
        luma(r1, g1, b1) <= luma(r2, g2, b2),
{
    assert(299 * r1 + 587 * g1 + 114 * b1 <= 299 * r2 + 587 * g2 + 114 * b2) by (nonlinear_arith)
        requires r1 <= r2 && g1 <= g2 && b1 <= b2;
    lemma_div_is_ordered(
        299 * r1 + 587 * g1 + 114 * b1 + 500,
        299 * r2 + 587 * g2 + 114 * b2 + 500,
        1000,
    );
}

/// Converts a flat RGB buffer to one luminance byte per pixel, dropping
/// any trailing incomplete triplet.
pub fn luminance(file: &Vec<u8>) -> (lum: Vec<u8>)
    ensures
        lum@ == luminance_of(file@),
        lum@.len() == file@.len() / 3,
{
    let n = file.len();
    let count = n / 3;
    proof {
        lemma_fundamental_div_mod(n as int, 3);
    }
    let mut lum: Vec<u8> = Vec::new();
    let mut k: usize = 0;
    while k < count
        invariant
            n == file@.len(),
            count == n as int / 3,
            3 * count <= n,
            k <= count,
            lum@.len() == k,
            forall|m: int| 0 <= m < k ==> lum@[m] == luminance_of(file@)[m],
        decreases count - k,
    {
        let r = file[3 * k];
        let g = file[3 * k + 1];
        let b = file[3 * k + 2];
        let weighted = 299 * (r as u32) + 587 * (g as u32) + 114 * (b as u32) + 500;
        let l = weighted / 1000;
        proof {
            lemma_luma_range(r as int, g as int, b as int);
        }
        lum.push(l as u8);
        k = k + 1;
    }
    assert(lum@ =~= luminance_of(file@));
    lum
}

} // verus!
