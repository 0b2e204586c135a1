use vstd::prelude::*;

verus! {

/// One colour, eight bits per channel.
#[derive(Clone, Copy, Debug, PartialEq, Eq, Structural)]
pub struct Rgb {
    pub r: u8,
    pub g: u8,
    pub b: u8,
}

/// A decoded image: `rgba` holds four bytes per texel, row by row from the
/// top-left corner.
#[derive(Debug)]
pub struct Raster {
    pub width: u32,
    pub height: u32,
    pub rgba: Vec<u8>,
}

/// Why two rasters do not make a terrain map.
#[derive(Clone, Copy, Debug, PartialEq, Eq, Structural)]
pub enum MapError {
    /// An image could not be decoded.
    Decode,
    /// The colour and height rasters differ in width or height.
    DimensionMismatch,
    /// A raster has no texels.
    EmptyRaster,
    /// A raster's byte count is not four per texel.
    BadLength,
}

/// A colour raster and a height raster of one size, read-only once built.
/// The height of a texel is the red channel of the height raster.
pub struct TerrainMap {
    width: u32,
    height: u32,
    colors: Vec<u8>,
    heights: Vec<u8>,
}

/// Whether a raster holds four bytes for each of its texels.
pub open spec fn raster_sized(r: Raster) -> bool {
    r.rgba@.len() == 4 * (r.width as int) * (r.height as int)
}

/// Byte offset of texel `(x, y)` in an RGBA raster of the given width.
pub open spec fn texel_offset(width: int, x: int, y: int) -> int {
    4 * (y * width + x)
}

/// The error, if any, that building a map from these two rasters gives.
pub open spec fn map_error(color: Raster, height: Raster) -> Option<MapError> {
    if color.width != height.width || color.height != height.height {
        Some(MapError::DimensionMismatch)
    } else if color.width == 0 || color.height == 0 {
        Some(MapError::EmptyRaster)
    } else if !raster_sized(color) || !raster_sized(height) {
        Some(MapError::BadLength)
    } else {
        None
    }
}

proof fn lemma_texel_in_bounds(w: int, h: int, x: int, y: int)
    requires
        0 <= x < w,
        0 <= y < h,
    ensures
        0 <= y * w + x < w * h,
        texel_offset(w, x, y) + 3 < 4 * w * h,
{
    assert(y * w + x < (y + 1) * w) by (nonlinear_arith)
        requires x < w;
    assert((y + 1) * w <= h * w) by (nonlinear_arith)
        requires y + 1 <= h, 0 <= w;
    assert(0 <= y * w) by (nonlinear_arith)
        requires 0 <= y, 0 <= w;
    assert(4 * (w * h) == 4 * w * h) by (nonlinear_arith);
}

impl TerrainMap {
    /// Width in texels.
    pub closed spec fn map_width(&self) -> int {
        self.width as int
    }

    /// Height in texels.
    pub closed spec fn map_height(&self) -> int {
        self.height as int
    }

    /// Both rasters hold four bytes for each of `width * height > 0` texels.
    pub closed spec fn wf(&self) -> bool {
        &&& self.width > 0
        &&& self.height > 0
        &&& self.colors@.len() == 4 * (self.width as int) * (self.height as int)
        &&& self.heights@.len() == self.colors@.len()
    }

    /// Colour of texel `(x, y)`.
    pub closed spec fn color_at(&self, x: int, y: int) -> Rgb {
        let o = texel_offset(self.width as int, x, y);
        Rgb { r: self.colors@[o], g: self.colors@[o + 1], b: self.colors@[o + 2] }
    }

    /// Elevation of texel `(x, y)`.
    pub closed spec fn elevation_at(&self, x: int, y: int) -> u8 {
        self.heights@[texel_offset(self.width as int, x, y)]
    }

    /// Builds a map from a colour raster and a height raster of the same
    /// size; the red channel of the height raster gives the elevations.
    pub fn new(color: Raster, height: Raster) -> (r: Result<TerrainMap, MapError>)
        ensures
            match r {
                Ok(m) => {
                    &&& map_error(color, height) is None
                    &&& m.wf()
                    &&& m.map_width() == color.width
                    &&& m.map_height() == color.height
                    &&& forall|x: int, y: int|
                        0 <= x < color.width && 0 <= y < color.height ==> {
                            let o = #[trigger] texel_offset(color.width as int, x, y);
                            &&& m.color_at(x, y) == Rgb {
                                r: color.rgba@[o],
                                g: color.rgba@[o + 1],
                                b: color.rgba@[o + 2],
                            }
                            &&& m.elevation_at(x, y) == height.rgba@[o]
                        }
                },
                Err(e) => map_error(color, height) == Some(e),
            },
    {
        if color.width != height.width || color.height != height.height {
            return Err(MapError::DimensionMismatch);
        }
        if color.width == 0 || color.height == 0 {
            return Err(MapError::EmptyRaster);
        }
        let cw: u64 = color.width as u64;
        let ch: u64 = color.height as u64;
        assert(cw * ch <= 0xffff_ffff_ffff_ffff) by (nonlinear_arith)
            requires cw <= 0xffff_ffff, ch <= 0xffff_ffff;
        let texels: u128 = (cw * ch) as u128;
        assert(4 * texels == 4 * (color.width as int) * (color.height as int)) by (nonlinear_arith)
            requires texels == cw * ch, cw == color.width, ch == color.height;
        if color.rgba.len() as u128 != 4 * texels || height.rgba.len() as u128 != 4 * texels {
            return Err(MapError::BadLength);
        }
        proof {
            assert forall|x: int, y: int| 0 <= x < color.width && 0 <= y < color.height implies
                #[trigger] texel_offset(color.width as int, x, y) + 3 < color.rgba@.len() by {
                lemma_texel_in_bounds(color.width as int, color.height as int, x, y);
            }
        }
        Ok(TerrainMap { width: color.width, height: color.height, colors: color.rgba, heights: height.rgba })
    }

    /// Width and height in texels.
    pub fn dimensions(&self) -> (r: (u32, u32))
        ensures
            r.0 == self.map_width(),
            r.1 == self.map_height(),
    {
        (self.width, self.height)
    }

    /// Colour and elevation of texel `(x, y)`; `None` outside the map.
    pub fn sample(&self, x: i64, y: i64) -> (r: Option<(Rgb, u8)>)
        requires
            self.wf(),
        ensures
            r is Some <==> (0 <= x < self.map_width() && 0 <= y < self.map_height()),
            r is Some ==> r->Some_0 == (self.color_at(x as int, y as int), self.elevation_at(x as int, y as int)),
    {
        if x < 0 || y < 0 || x >= self.width as i64 || y >= self.height as i64 {
            return None;
        }
        proof {
            lemma_texel_in_bounds(self.width as int, self.height as int, x as int, y as int);
        }
        let n: usize = self.colors.len();
        assert(n == 4 * (self.width as int) * (self.height as int));
        let t: usize = y as usize * self.width as usize + x as usize;
        let o: usize = 4 * t;
        let c = Rgb { r: self.colors[o], g: self.colors[o + 1], b: self.colors[o + 2] };
        Some((c, self.heights[o]))
    }
}

} // verus!
