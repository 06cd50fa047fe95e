//! Nearest-neighbor resampling of a flat, row-major RGB buffer.
//!
//! Every target coordinate selects one source pixel by truncating
//! integer scaling: `sx = i * source_w / target_w`,
//! `sy = j * source_h / target_h`.
use vstd::prelude::*;
use vstd::arithmetic::div_mod::lemma_div_by_multiple;
use vstd::arithmetic::div_mod::lemma_div_pos_is_pos;
use vstd::arithmetic::div_mod::lemma_fundamental_div_mod;
use vstd::arithmetic::div_mod::lemma_fundamental_div_mod_converse_div;
use vstd::arithmetic::div_mod::lemma_fundamental_div_mod_converse_mod;
use vstd::arithmetic::div_mod::lemma_mod_division_less_than_divisor;
use vstd::arithmetic::div_mod::lemma_multiply_divide_lt;
use vstd::arithmetic::mul::lemma_mul_is_commutative;

verus! {

/// Source-buffer byte offset feeding byte `n` of the resized buffer.
///
/// Byte `n` decomposes as channel `c` of target column `i` in target
/// row `j`; the nearest source pixel is found by truncating scaling.
pub open spec fn src_byte_index(sw: int, sh: int, tw: int, th: int, n: int) -> int {
    let c = n % 3;
    let t = n / 3;
    let i = t % tw;
    let j = t / tw;
    ((j * sh / th) * sw + (i * sw / tw)) * 3 + c
}

/// The resized buffer: `tw * th` pixels in row-major order, each copied
/// from its nearest source pixel.
pub open spec fn resized(pixels: Seq<u8>, sw: int, sh: int, tw: int, th: int) -> Seq<u8> {
    Seq::new((tw * th * 3) as nat, |n: int| pixels[src_byte_index(sw, sh, tw, th, n)])
}

/// Decomposition facts for the flat byte offset `(j * tw + i) * 3 + c`.
proof fn lemma_flat_index(tw: int, th: int, j: int, i: int, c: int)
    requires
        0 <= i < tw,
        0 <= j < th,
        0 <= c < 3,
    ensures
        0 <= (j * tw + i) * 3 + c < tw * th * 3,
        ((j * tw + i) * 3 + c) % 3 == c,
        ((j * tw + i) * 3 + c) / 3 == j * tw + i,
        (j * tw + i) % tw == i,
        (j * tw + i) / tw == j,
{
    assert(0 <= (j * tw + i) * 3 + c < tw * th * 3) by (nonlinear_arith)
        requires 0 <= i < tw && 0 <= j < th && 0 <= c < 3;
    lemma_fundamental_div_mod_converse_div((j * tw + i) * 3 + c, 3, j * tw + i, c);
    lemma_fundamental_div_mod_converse_mod((j * tw + i) * 3 + c, 3, j * tw + i, c);
    lemma_fundamental_div_mod_converse_div(j * tw + i, tw, j, i);
    lemma_fundamental_div_mod_converse_mod(j * tw + i, tw, j, i);
}

/// Byte offset of the nearest source pixel for target column `i` of
/// target row `j`, by truncating integer scaling.
fn src_offset(i: u32, j: u32, sw: u32, sh: u32, tw: u32, th: u32) -> (idx: usize)
    requires
        i < tw,
        j < th,
        sw > 0,
        sh > 0,
        sw * sh * 3 <= usize::MAX,
    ensures
        idx == ((j as int * sh as int / (th as int)) * sw as int
            + (i as int * sw as int / (tw as int))) * 3,
        idx + 2 < sw * sh * 3,
{
    proof {
        assert(j * sh < th * sh) by (nonlinear_arith)
            requires j < th && sh > 0;
        lemma_multiply_divide_lt(j as int * sh as int, th as int, sh as int);
        lemma_div_pos_is_pos(j as int * sh as int, th as int);
        assert(i * sw < tw * sw) by (nonlinear_arith)
            requires i < tw && sw > 0;
        lemma_multiply_divide_lt(i as int * sw as int, tw as int, sw as int);
        lemma_div_pos_is_pos(i as int * sw as int, tw as int);
        assert(j as int * sh as int <= 0xffff_ffff * 0xffff_ffff) by (nonlinear_arith)
            requires j as int <= 0xffff_ffff && sh as int <= 0xffff_ffff;
        assert(i as int * sw as int <= 0xffff_ffff * 0xffff_ffff) by (nonlinear_arith)
            requires i as int <= 0xffff_ffff && sw as int <= 0xffff_ffff;
    }
    let sy = ((j as u64) * (sh as u64) / (th as u64)) as usize;
    let sx = ((i as u64) * (sw as u64) / (tw as u64)) as usize;
    proof {
        assert(sy * sw + sx < sw * sh) by (nonlinear_arith)
            requires sy < sh && sx < sw && sw > 0;
        assert((sy * sw + sx) * 3 + 2 < sw * sh * 3) by (nonlinear_arith)
            requires sy * sw + sx < sw * sh;
        assert(0 <= sw * sh) by (nonlinear_arith)
            requires sw >= 0 && sh >= 0;
        assert(sw * sh <= sw * sh * 3);
    }
    (sy * (sw as usize) + sx) * 3
}

/// Resizes the flat RGB buffer `file` of dimensions `original_w` by
/// `original_h` to `target_width` by `target_height`, nearest neighbor,
/// truncating toward zero. A zero target yields an empty buffer.
#[verifier::loop_isolation(false)]
pub fn scale(
    file: &Vec<u8>,
    target_width: u32,
    target_height: u32,
    original_w: u32,
    original_h: u32,
) -> (out: Vec<u8>)
    requires
        original_w > 0,
        original_h > 0,
        file@.len() == original_w * original_h * 3,
    ensures
        out@ == resized(
            file@,
            original_w as int,
            original_h as int,
            target_width as int,
            target_height as int,
        ),
        out@.len() == target_width * target_height * 3,
{
    let ghost tw = target_width as int;
    let ghost th = target_height as int;
    let ghost sw = original_w as int;
    let ghost sh = original_h as int;
    let ghost full = resized(file@, sw, sh, tw, th);
    proof {
        assert(file.len() == file@.len());
        assert(sw * sh * 3 <= usize::MAX);
    }
    let mut out: Vec<u8> = Vec::new();
    let mut j: u32 = 0;
    while j < target_height
        invariant
            j <= target_height,
            out@.len() == (j * tw) * 3,
            forall|n: int| 0 <= n < out@.len() ==> out@[n] == full[n],
        decreases target_height - j,
    {
        let mut i: u32 = 0;
        while i < target_width
            invariant
                j < target_height,
                i <= target_width,
                out@.len() == (j * tw + i) * 3,
                forall|n: int| 0 <= n < out@.len() ==> out@[n] == full[n],
            decreases target_width - i,
        {
            let idx = src_offset(i, j, original_w, original_h, target_width, target_height);
            proof {
                lemma_flat_index(tw, th, j as int, i as int, 0);
                lemma_flat_index(tw, th, j as int, i as int, 1);
                lemma_flat_index(tw, th, j as int, i as int, 2);
            }
            out.push(file[idx]);
            out.push(file[idx + 1]);
            out.push(file[idx + 2]);
            proof {
                assert((j * tw + i) * 3 + 3 == (j * tw + (i + 1)) * 3) by (nonlinear_arith);
            }
            i = i + 1;
        }
        proof {
            assert((j * tw + tw) * 3 == ((j + 1) * tw) * 3) by (nonlinear_arith);
        }
        j = j + 1;
    }
    proof {
        assert((th * tw) * 3 == tw * th * 3) by (nonlinear_arith);
        assert(out@ =~= full);
    }
    out
}

/// Resizing a valid buffer to its own dimensions reproduces it exactly:
/// under truncating nearest-neighbor scaling the coordinate map is the
/// identity.
pub proof fn lemma_resize_identity(pixels: Seq<u8>, w: int, h: int)
    requires
        w > 0,
        h > 0,
        pixels.len() == w * h * 3,
    ensures
        resized(pixels, w, h, w, h) == pixels,
{
    let full = resized(pixels, w, h, w, h);
    assert forall|n: int| 0 <= n < pixels.len() implies full[n] == pixels[n] by {
        let c = n % 3;
        let t = n / 3;
        let i = t % w;
        let j = t / w;
        lemma_mod_division_less_than_divisor(n, 3);
        lemma_fundamental_div_mod(n, 3);
        lemma_div_pos_is_pos(n, 3);
        lemma_mod_division_less_than_divisor(t, w);
        lemma_fundamental_div_mod(t, w);
        lemma_div_pos_is_pos(t, w);
        lemma_div_by_multiple(j, h);
        lemma_div_by_multiple(i, w);
        assert(j * h / h == j);
        assert(i * w / w == i);
        lemma_mul_is_commutative(w, j);
        lemma_mul_is_commutative(3, t);
        assert((j * w + i) * 3 + c == t * 3 + c);
        assert(t * 3 + c == n);
        assert(src_byte_index(w, h, w, h, n) == n);
    }
    assert(full =~= pixels);
}

} // verus!
