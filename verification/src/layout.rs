//! Row layout: the flat glyph grid joined into one text blob, with one
//! line terminator after every row, the last row included.
use vstd::prelude::*;
use vstd::arithmetic::div_mod::lemma_div_pos_is_pos;
use vstd::arithmetic::div_mod::lemma_fundamental_div_mod_converse_div;
use vstd::arithmetic::div_mod::lemma_fundamental_div_mod_converse_mod;
use vstd::arithmetic::div_mod::lemma_mod_division_less_than_divisor;
use vstd::arithmetic::div_mod::lemma_multiply_divide_lt;

verus! {

/// Relies on `String::push`, which appends the given character to the
/// end of the string.
pub assume_specification[ String::push ](s: &mut String, ch: char)
    ensures
        final(s)@ == old(s)@.push(ch),
;

/// The rendered text for a glyph grid of `w` columns and `h` rows:
/// each of the `h` rows holds its `w` glyphs in order, followed by one
/// line terminator.
pub open spec fn layout_of(glyphs: Seq<char>, w: int, h: int) -> Seq<char> {
    Seq::new(
        ((w + 1) * h) as nat,
        |p: int| if p % (w + 1) == w {
            '\n'
        } else {
            glyphs[(p / (w + 1)) * w + p % (w + 1)]
        },
    )
}

/// Decomposition facts for the text position of glyph `i` in row `j`.
proof fn lemma_row_index(w: int, h: int, j: int, i: int)
    requires
        0 <= i < w,
        0 <= j < h,
    ensures
        0 <= j * (w + 1) + i < (w + 1) * h,
        (j * (w + 1) + i) % (w + 1) == i,
        (j * (w + 1) + i) / (w + 1) == j,
        0 <= j * w + i < w * h,
{
    assert(0 <= j * (w + 1) + i < (w + 1) * h) by (nonlinear_arith)
        requires 0 <= i < w && 0 <= j < h;
    assert(0 <= j * w + i < w * h) by (nonlinear_arith)
        requires 0 <= i < w && 0 <= j < h;
    lemma_fundamental_div_mod_converse_div(j * (w + 1) + i, w + 1, j, i);
    lemma_fundamental_div_mod_converse_mod(j * (w + 1) + i, w + 1, j, i);
}

/// Decomposition facts for the terminator position closing row `j`.
proof fn lemma_row_end(w: int, h: int, j: int)
    requires
        w >= 0,
        0 <= j < h,
    ensures
        0 <= j * (w + 1) + w < (w + 1) * h,
        (j * (w + 1) + w) % (w + 1) == w,
{
    assert(0 <= j * (w + 1) + w < (w + 1) * h) by (nonlinear_arith)
        requires w >= 0 && 0 <= j < h;
    lemma_fundamental_div_mod_converse_mod(j * (w + 1) + w, w + 1, j, w);
}

/// Joins a row-major glyph grid of the given dimensions into one text
/// blob, each row closed by a line terminator.
#[verifier::loop_isolation(false)]
pub fn vec_to_ascii_image(output: &Vec<char>, width: u32, height: u32) -> (s: String)
    requires
        output@.len() == width * height,
    ensures
        s@ == layout_of(output@, width as int, height as int),
        s@.len() == (width + 1) * height,
{
    let ghost w = width as int;
    let ghost h = height as int;
    let ghost full = layout_of(output@, w, h);
    proof {
        assert(output.len() == output@.len());
    }
    let mut s = String::new();
    let mut j: u32 = 0;
    while j < height
        invariant
            j <= height,
            s@.len() == j * (w + 1),
            forall|p: int| 0 <= p < s@.len() ==> s@[p] == full[p],
        decreases height - j,
    {
        let mut i: u32 = 0;
        while i < width
            invariant
                j < height,
                i <= width,
                s@.len() == j * (w + 1) + i,
                forall|p: int| 0 <= p < s@.len() ==> s@[p] == full[p],
            decreases width - i,
        {
            proof {
                lemma_row_index(w, h, j as int, i as int);
            }
            let idx = (j as usize) * (width as usize) + (i as usize);
            s.push(output[idx]);
            i = i + 1;
        }
        proof {
            lemma_row_end(w, h, j as int);
        }
        s.push('\n');
        proof {
            assert(j * (w + 1) + (w + 1) == (j + 1) * (w + 1)) by (nonlinear_arith);
        }
        j = j + 1;
    }
    proof {
        assert(h * (w + 1) == (w + 1) * h) by (nonlinear_arith);
        assert(s@ =~= full);
    }
    s
}

/// A rendered grid of `h` rows of `w` glyphs holds a line terminator at
/// exactly the position that closes each row and nowhere else, as long
/// as no glyph is itself a terminator.
pub proof fn lemma_layout_shape(glyphs: Seq<char>, w: int, h: int)
    requires
        w >= 0,
        h >= 0,
        glyphs.len() == w * h,
        forall|k: int| 0 <= k < glyphs.len() ==> glyphs[k] != '\n',
    ensures
        layout_of(glyphs, w, h).len() == (w + 1) * h,
        forall|p: int| 0 <= p < (w + 1) * h ==>
            (layout_of(glyphs, w, h)[p] == '\n' <==> p % (w + 1) == w),
{
    let full = layout_of(glyphs, w, h);
    assert forall|p: int| 0 <= p < (w + 1) * h implies
        (full[p] == '\n' <==> p % (w + 1) == w) by {
        lemma_mod_division_less_than_divisor(p, w + 1);
        if p % (w + 1) != w {
            let i = p % (w + 1);
            let j = p / (w + 1);
            lemma_div_pos_is_pos(p, w + 1);
            lemma_multiply_divide_lt(p, w + 1, h);
            assert(0 <= j * w + i < w * h) by (nonlinear_arith)
                requires 0 <= i < w && 0 <= j < h;
            assert(glyphs[j * w + i] != '\n');
        }
    }
}

} // verus!
