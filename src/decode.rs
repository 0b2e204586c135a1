use vstd::prelude::*;
use crate::terrain::{raster_sized, texel_offset, MapError, Raster, Rgb, TerrainMap};

verus! {

#[verifier::external_type_specification]
#[verifier::external_body]
pub struct ExImageError(image::ImageError);

/// What `image::load_from_memory` makes of an encoded image, as width,
/// height and RGBA bytes; `None` where it cannot be decoded.
pub uninterp spec fn decoded_rgba(bytes: Seq<u8>) -> Option<(u32, u32, Seq<u8>)>;

/// The decoded image as a raster.
pub open spec fn decoded_raster(bytes: Seq<u8>) -> (u32, u32, Seq<u8>) {
    decoded_rgba(bytes)->Some_0
}

/// Relies on `image::load_from_memory` to decode an encoded image, and on
/// `DynamicImage::to_rgba8` and `ImageBuffer::into_raw` for its RGBA copy,
/// which holds four bytes for each of `width * height` pixels.
#[verifier::external_body]
fn decode_rgba(bytes: &[u8]) -> (r: Result<Raster, image::ImageError>)
    ensures
        r is Ok <==> decoded_rgba(bytes@) is Some,
        r is Ok ==> decoded_rgba(bytes@) == Some((r->Ok_0.width, r->Ok_0.height, r->Ok_0.rgba@)),
        r is Ok ==> raster_sized(r->Ok_0),
{
    match image::load_from_memory(bytes) {
        Ok(img) => Ok(Raster { width: img.width(), height: img.height(), rgba: img.to_rgba8().into_raw() }),
        Err(e) => Err(e),
    }
}

impl TerrainMap {
    /// Decodes a colour image and a height image (PNG) and builds the map
    /// from them; `Decode` when either cannot be decoded.
    pub fn decode(color_image: &[u8], height_image: &[u8]) -> (r: Result<TerrainMap, MapError>)
        ensures
            (r == Err::<TerrainMap, MapError>(MapError::Decode)) <==> (decoded_rgba(color_image@) is None
                || decoded_rgba(height_image@) is None),
            decoded_rgba(color_image@) is Some && decoded_rgba(height_image@) is Some ==> {
                let (cw, ch, c) = decoded_raster(color_image@);
                let (hw, hh, h) = decoded_raster(height_image@);
                &&& c.len() == 4 * (cw as int) * (ch as int)
                &&& h.len() == 4 * (hw as int) * (hh as int)
                &&& match r {
                    Ok(m) => {
                        &&& cw == hw && ch == hh && cw > 0 && ch > 0
                        &&& m.wf()
                        &&& m.map_width() == cw
                        &&& m.map_height() == ch
                        &&& forall|x: int, y: int|
                            0 <= x < cw && 0 <= y < ch ==> {
                                let o = #[trigger] texel_offset(cw as int, x, y);
                                &&& m.color_at(x, y) == Rgb { r: c[o], g: c[o + 1], b: c[o + 2] }
                                &&& m.elevation_at(x, y) == h[o]
                            }
                    },
                    Err(e) => {
                        &&& e != MapError::Decode
                        &&& (cw != hw || ch != hh) <==> e == MapError::DimensionMismatch
                        &&& (cw == hw && ch == hh && (cw == 0 || ch == 0)) <==> e == MapError::EmptyRaster
                        &&& e != MapError::BadLength
                    },
                }
            },
    {
        let color = match decode_rgba(color_image) {
            Ok(c) => c,
            Err(_) => return Err(MapError::Decode),
        };
        let height = match decode_rgba(height_image) {
            Ok(h) => h,
            Err(_) => return Err(MapError::Decode),
        };
        TerrainMap::new(color, height)
    }
}

} // verus!
