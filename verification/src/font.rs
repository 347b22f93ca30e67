//! Glyph rasterizer: maps a character to a fixed-size intensity bitmap,
//! substituting a fallback glyph for characters the font does not know.

use vstd::prelude::*;

use crate::{BACKUP_CHAR, GLYPH_HEIGHT, GLYPH_WIDTH};

verus! {

/// One character's rasterized bitmap: `GLYPH_HEIGHT` rows of `GLYPH_WIDTH`
/// intensity bytes (0 is background, 255 full ink).
pub struct Glyph {
    pub rows: Vec<Vec<u8>>,
}

impl View for Glyph {
    type V = Seq<Seq<u8>>;

    open spec fn view(&self) -> Seq<Seq<u8>> {
        self.rows@.map_values(|r: Vec<u8>| r@)
    }
}

/// A well-formed bitmap fills the fixed glyph cell exactly.
pub open spec fn glyph_wf(g: Seq<Seq<u8>>) -> bool {
    &&& g.len() == GLYPH_HEIGHT
    &&& forall|i: int| 0 <= i < g.len() ==> (#[trigger] g[i]).len() == GLYPH_WIDTH
}

/// The bitmap the font assigns to a character (after fallback substitution).
/// It depends on the character alone.
pub uninterp spec fn glyph_of(c: char) -> Seq<Seq<u8>>;

/// Relies on `noto_sans_mono_bitmap::get_raster` (regular weight, raster
/// height 16): the raster depends on the character alone; every raster of
/// this weight and height has exactly 16 rows of `RASTER_WIDTH` (7) intensity
/// bytes; a character the font does not know falls back to the replacement
/// character, which the bundled `unicode-specials` range always defines.
#[verifier::external_body]
pub(crate) fn get_char_raster(c: char) -> (g: Glyph)
    ensures
        g@ == glyph_of(c),
        glyph_wf(g@),
{
    let weight = noto_sans_mono_bitmap::FontWeight::Regular;
    let height = noto_sans_mono_bitmap::RasterHeight::Size16;
    let raster = noto_sans_mono_bitmap::get_raster(c, weight, height).unwrap_or_else(|| {
        noto_sans_mono_bitmap::get_raster(BACKUP_CHAR, weight, height)
            .expect("raster of the fallback character")
    });
    Glyph { rows: raster.raster().iter().map(|row| row.to_vec()).collect() }
}

} // verus!
