use vstd::prelude::*;

verus! {

/// Advance width of one character cell in pixels.
pub const CELL_W: usize = 9;

/// Height of one character cell in pixels.
pub const CELL_H: usize = 20;

/// Width of the rasterized glyph bitmap in pixels.
pub const GLYPH_W: usize = 7;

/// Height of the rasterized glyph bitmap in pixels.
pub const GLYPH_H: usize = 16;

/// A rasterized glyph: rows of per-pixel coverage intensities, 0 to 255.
pub struct Glyph {
    pub rows: Vec<Vec<u8>>,
}

impl Glyph {
    /// The intensity rows as sequences.
    pub open spec fn raster(self) -> Seq<Seq<u8>> {
        Seq::new(self.rows@.len(), |i: int| self.rows@[i]@)
    }
}

/// The intensity raster the font holds for a character, if the character is
/// in the font.
pub uninterp spec fn glyph_raster(c: char) -> Option<Seq<Seq<u8>>>;

/// The raster a character is drawn with: its own, or the replacement
/// glyph's where the font does not know the character.
pub open spec fn glyph_for(c: char) -> Seq<Seq<u8>> {
    if glyph_raster(c) is Some {
        glyph_raster(c)->Some_0
    } else if glyph_raster('?') is Some {
        glyph_raster('?')->Some_0
    } else {
        Seq::empty()
    }
}

/// Relies on noto_sans_mono_bitmap::get_raster at regular weight and raster
/// height 16: the raster depends on the character alone, has 16 rows of 7
/// intensity bytes, and exists for every basic-latin character, '?' among
/// them.
#[verifier::external_body]
pub(crate) fn lookup_glyph(c: char) -> (r: Option<Glyph>)
    ensures
        r is Some <==> glyph_raster(c) is Some,
        r is Some ==> r->Some_0.raster() == glyph_raster(c)->Some_0,
        r is Some ==> r->Some_0.rows@.len() == GLYPH_H,
        r is Some ==> forall|i: int|
            0 <= i < r->Some_0.rows@.len() ==> (#[trigger] r->Some_0.rows@[i])@.len() == GLYPH_W,
        c == '?' ==> r is Some,
{
    let rc = noto_sans_mono_bitmap::get_raster(
        c,
        noto_sans_mono_bitmap::FontWeight::Regular,
        noto_sans_mono_bitmap::RasterHeight::Size16,
    )?;
    Some(Glyph { rows: rc.raster().iter().map(|row| row.to_vec()).collect() })
}

/// Relies on noto_sans_mono_bitmap::get_raster_width: the advance width for
/// the regular weight at raster height 20 is 9 pixels.
#[verifier::external_body]
pub(crate) fn cell_width() -> (r: usize)
    ensures
        r == CELL_W,
{
    noto_sans_mono_bitmap::get_raster_width(
        noto_sans_mono_bitmap::FontWeight::Regular,
        noto_sans_mono_bitmap::RasterHeight::Size20,
    )
}

} // verus!
