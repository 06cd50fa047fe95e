//! Mapping from luminance bytes to characters of the fixed brightness ramp.
use vstd::prelude::*;
use vstd::arithmetic::div_mod::lemma_div_is_ordered;
use vstd::arithmetic::div_mod::lemma_multiply_divide_lt;
use vstd::arithmetic::div_mod::lemma_div_pos_is_pos;

verus! {

/// The fixed character ramp, from sparsest (darkest) to densest (brightest).
pub open spec fn glyph_ramp() -> Seq<char> {
    seq![' ', '`', '.', ',', '-', '+', '*', '!', '$', '#']
}

/// Ramp index chosen for a luminance value: `(l / 255) * 9`, rounded
/// half away from zero, computed exactly as `(18 * l + 255) / 510`.
pub open spec fn glyph_index(l: int) -> int {
    (18 * l + 255) / 510
}

/// Character a luminance byte is rendered as.
pub open spec fn glyph_of(l: int) -> char {
    glyph_ramp()[glyph_index(l)]
}

/// Glyph sequence derived from a luminance buffer, element by element.
pub open spec fn glyphs_of(lum: Seq<u8>) -> Seq<char> {
    Seq::new(lum.len(), |k: int| glyph_of(lum[k] as int))
}

/// The chosen ramp index stays inside the ramp for every luminance byte.
pub proof fn lemma_glyph_index_range(l: int)
    requires
        0 <= l <= 255,
    ensures
        0 <= glyph_index(l) <= 9,
{
    assert(18 * l + 255 < 5100) by (nonlinear_arith)
        requires l <= 255;
    lemma_div_pos_is_pos(18 * l + 255, 510);
    lemma_multiply_divide_lt(18 * l + 255, 510, 10);
}

/// A brighter luminance never selects an earlier ramp character.
pub proof fn lemma_glyph_index_monotonic(l1: int, l2: int)
    requires
        l1 <= l2,
    ensures
        glyph_index(l1) <= glyph_index(l2),
{
    lemma_div_is_ordered(18 * l1 + 255, 18 * l2 + 255, 510);
}

/// Ramp characters never collide with the row terminator.
pub proof fn lemma_glyph_not_newline(l: int)
    requires
        0 <= l <= 255,
    ensures
        glyph_of(l) != '\n',
{
    lemma_glyph_index_range(l);
}

/// Character of the ramp at a given index.
pub fn ramp_char_at(idx: usize) -> (c: char)
    requires
        idx < 10,
    ensures
        c == glyph_ramp()[idx as int],
{
    if idx == 0 { ' ' }
    else if idx == 1 { '`' }
    else if idx == 2 { '.' }
    else if idx == 3 { ',' }
    else if idx == 4 { '-' }
    else if idx == 5 { '+' }
    else if idx == 6 { '*' }
    else if idx == 7 { '!' }
    else if idx == 8 { '$' }
    else { '#' }
}

/// Maps each luminance byte of a buffer to its ramp character.
pub fn map_ascii(luminances: &Vec<u8>) -> (out: Vec<char>)
    ensures
        out@ == glyphs_of(luminances@),
{
    let mut out: Vec<char> = Vec::new();
    let n = luminances.len();
    let mut k: usize = 0;
    while k < n
        invariant
            n == luminances@.len(),
            k <= n,
            out@.len() == k,
            forall|m: int| 0 <= m < k ==> out@[m] == glyphs_of(luminances@)[m],
        decreases n - k,
    {
        let l = luminances[k];
        let idx = (18 * (l as u32) + 255) / 510;
        proof {
            lemma_glyph_index_range(l as int);
        }
        out.push(ramp_char_at(idx as usize));
        k = k + 1;
    }
    assert(out@ =~= glyphs_of(luminances@));
    out
}

} // verus!
