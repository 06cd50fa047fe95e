//! The whole pipeline in one verified step: resize, luminance, glyph
//! mapping and layout in strict order, behind the degenerate-input
//! guard that nearest-neighbor scaling needs.
use vstd::prelude::*;
use vstd::arithmetic::div_mod::lemma_div_by_multiple;
use crate::glyph::glyph_of;
use crate::glyph::glyphs_of;
use crate::glyph::lemma_glyph_not_newline;
use crate::layout::lemma_layout_shape;
use crate::glyph::map_ascii;
use crate::layout::layout_of;
use crate::layout::vec_to_ascii_image;
use crate::luminance::luminance;
use crate::luminance::luminance_of;
use crate::resize::resized;
use crate::resize::scale;

verus! {

/// Failure of the rendering pipeline.
#[derive(Debug, PartialEq, Eq)]
pub enum RenderError {
    /// The source width or height is zero, so nearest-neighbor scaling
    /// has no source pixel to select.
    DegenerateInput,
}

/// The text a valid source buffer renders to, stage by stage.
pub open spec fn rendered(pixels: Seq<u8>, sw: int, sh: int, tw: int, th: int) -> Seq<char> {
    layout_of(glyphs_of(luminance_of(resized(pixels, sw, sh, tw, th))), tw, th)
}

/// The rendered text for a `tw` by `th` target is `th` rows of `tw`
/// glyphs: it holds a line terminator at exactly the position that
/// closes each row, since no ramp character is a terminator.
pub proof fn lemma_rendered_shape(pixels: Seq<u8>, sw: int, sh: int, tw: int, th: int)
    requires
        tw >= 0,
        th >= 0,
    ensures
        rendered(pixels, sw, sh, tw, th).len() == (tw + 1) * th,
        forall|p: int| 0 <= p < (tw + 1) * th ==>
            (rendered(pixels, sw, sh, tw, th)[p] == '\n' <==> p % (tw + 1) == tw),
{
    let lum = luminance_of(resized(pixels, sw, sh, tw, th));
    let glyphs = glyphs_of(lum);
    lemma_div_by_multiple(tw * th, 3);
    assert(glyphs.len() == tw * th);
    assert forall|k: int| 0 <= k < glyphs.len() implies glyphs[k] != '\n' by {
        assert(glyphs[k] == glyph_of(lum[k] as int));
        lemma_glyph_not_newline(lum[k] as int);
    }
    lemma_layout_shape(glyphs, tw, th);
}

/// Renders a flat RGB source buffer of dimensions `source_w` by
/// `source_h` as a `target_w` by `target_h` character grid. A source
/// with zero width or height is rejected rather than divided by.
pub fn render(
    pixels: &Vec<u8>,
    source_w: u32,
    source_h: u32,
    target_w: u32,
    target_h: u32,
) -> (result: Result<String, RenderError>)
    requires
        pixels@.len() == source_w * source_h * 3,
    ensures
        result is Err <==> (source_w == 0 || source_h == 0),
        result is Err ==> result->Err_0 == RenderError::DegenerateInput,
        result is Ok ==> result->Ok_0@ == rendered(
            pixels@,
            source_w as int,
            source_h as int,
            target_w as int,
            target_h as int,
        ),
{
    if source_w == 0 || source_h == 0 {
        return Err(RenderError::DegenerateInput);
    }
    let scaled = scale(pixels, target_w, target_h, source_w, source_h);
    let lum = luminance(&scaled);
    proof {
        lemma_div_by_multiple(target_w as int * target_h as int, 3);
    }
    let glyphs = map_ascii(&lum);
    let text = vec_to_ascii_image(&glyphs, target_w, target_h);
    Ok(text)
}

} // verus!
