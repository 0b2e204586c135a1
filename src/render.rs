use vstd::prelude::*;
use crate::camera::{Camera, SUBTEXELS};
use crate::terrain::{texel_offset, Rgb, TerrainMap};

verus! {

/// The frame to draw: its size in pixels, and the sky colour that shows
/// wherever no terrain reaches.
#[derive(Clone, Copy, Debug, PartialEq, Eq, Structural)]
pub struct Screen {
    pub width: u32,
    pub height: u32,
    pub sky: Rgb,
}

impl Screen {
    /// Not empty, and its RGBA bytes fit in memory.
    pub open spec fn wf(&self) -> bool {
        &&& self.width > 0
        &&& self.height > 0
        &&& 4 * (self.width as int) * (self.height as int) <= usize::MAX
    }

    /// A screen of the given size; `None` when it is empty or too large to
    /// address.
    pub fn new(width: u32, height: u32, sky: Rgb) -> (r: Option<Screen>)
        ensures
            r is Some <==> (width > 0 && height > 0 && 4 * (width as int) * (height as int) <= usize::MAX),
            r is Some ==> r->Some_0 == (Screen { width, height, sky }) && r->Some_0.wf(),
    {
        if width == 0 || height == 0 {
            return None;
        }
        let w: u128 = width as u128;
        let h: u128 = height as u128;
        assert(4 * w * h <= 0x4_0000_0000_0000_0000) by (nonlinear_arith)
            requires w <= 0xffff_ffff, h <= 0xffff_ffff;
        if 4 * w * h > usize::MAX as u128 {
            return None;
        }
        Some(Screen { width, height, sky })
    }

    /// 640 by 480 pixels under a light blue sky.
    pub fn standard() -> (r: Screen)
        ensures
            r.wf(),
            r.width == 640 && r.height == 480,
            r.sky == (Rgb { r: 110, g: 209, b: 255 }),
    {
        Screen { width: 640, height: 480, sky: Rgb { r: 110, g: 209, b: 255 } }
    }
}

/// The ray of column `sx` advances `(2 * sx - width) / width` texels on x
/// per step; its x after `k` steps, in units of `1 / (SUBTEXELS * width)`
/// texel.
pub open spec fn ray_x(cam: Camera, scr: Screen, sx: int, k: int) -> int {
    cam.position.x * scr.width + k * (2 * sx - scr.width) * SUBTEXELS
}

/// Every ray goes one texel toward lower y per step; its y after `k` steps,
/// in units of `1 / SUBTEXELS` texel.
pub open spec fn ray_y(cam: Camera, k: int) -> int {
    cam.position.y - k * SUBTEXELS
}

/// The texel under the ray of column `sx` after `k` steps (rounded down).
pub open spec fn ray_texel(cam: Camera, scr: Screen, sx: int, k: int) -> (int, int) {
    (ray_x(cam, scr, sx, k) / (SUBTEXELS * scr.width), ray_y(cam, k) / (SUBTEXELS as int))
}

/// Colour and elevation under the ray of column `sx` after `k` steps;
/// `None` where the ray has left the map.
pub open spec fn ray_sample(cam: Camera, map: TerrainMap, scr: Screen, sx: int, k: int) -> Option<(Rgb, u8)> {
    let (tx, ty) = ray_texel(cam, scr, sx, k);
    if 0 <= tx < map.map_width() && 0 <= ty < map.map_height() {
        Some((map.color_at(tx, ty), map.elevation_at(tx, ty)))
    } else {
        None
    }
}

/// The lowest elevation sampled in column `sx` by the first `k` steps, or the
/// screen height if lower: a later sample paints only if it lies below it.
pub open spec fn ceiling(cam: Camera, map: TerrainMap, scr: Screen, sx: int, k: int) -> int
    decreases k,
{
    if k <= 0 {
        scr.height as int
    } else {
        let prev = ceiling(cam, map, scr, sx, k - 1);
        match ray_sample(cam, map, scr, sx, k) {
            Some(s) => if (s.1 as int) < prev { s.1 as int } else { prev },
            None => prev,
        }
    }
}

/// Whether step `k` of column `sx` paints: its sample is on the map and
/// lower than every sample before it.
pub open spec fn paints(cam: Camera, map: TerrainMap, scr: Screen, sx: int, k: int) -> bool {
    &&& k >= 1
    &&& ray_sample(cam, map, scr, sx, k) is Some
    &&& (ray_sample(cam, map, scr, sx, k)->Some_0.1 as int) < ceiling(cam, map, scr, sx, k - 1)
}

/// Colour of row `y` of column `sx` after `k` steps: the colour of the last
/// step that painted rows `0 .. h` with `y < h`, else the sky.
pub open spec fn row_color(cam: Camera, map: TerrainMap, scr: Screen, sx: int, y: int, k: int) -> Rgb
    decreases k,
{
    if k <= 0 {
        scr.sky
    } else if paints(cam, map, scr, sx, k) && y < ray_sample(cam, map, scr, sx, k)->Some_0.1 {
        ray_sample(cam, map, scr, sx, k)->Some_0.0
    } else {
        row_color(cam, map, scr, sx, y, k - 1)
    }
}

/// The number of steps of each ray: depths `1 .. far_clip`.
pub open spec fn last_step(cam: Camera) -> int {
    if cam.far_clip == 0 {
        0
    } else {
        cam.far_clip - 1
    }
}

/// The colour of pixel `(x, y)` of the rendered frame.
pub open spec fn pixel(cam: Camera, map: TerrainMap, scr: Screen, x: int, y: int) -> Rgb {
    row_color(cam, map, scr, x, y, last_step(cam))
}


proof fn lemma_floor_negative(n: int, d: int)
    requires
        n < 0,
        d > 0,
    ensures
        n / d < 0,
{
    vstd::arithmetic::div_mod::lemma_fundamental_div_mod(n, d);
    assert(d * (n / d) < 0);
    if n / d >= 0 {
        assert(d * (n / d) >= 0) by (nonlinear_arith)
            requires d > 0, n / d >= 0;
    }
}

impl Camera {
    /// What the ray of column `sx` samples after `k` steps.
    fn sample_ray(&self, map: &TerrainMap, scr: &Screen, sx: u32, k: u32) -> (r: Option<(Rgb, u8)>)
        requires
            map.wf(),
            scr.wf(),
            sx < scr.width,
        ensures
            r == ray_sample(*self, *map, *scr, sx as int, k as int),
    {
        let w: i128 = scr.width as i128;
        let s: i128 = SUBTEXELS as i128;
        let px: i128 = self.position.x as i128;
        let lean: i128 = 2 * (sx as i128) - w;
        let kk: i128 = k as i128;
        assert(-0x8000_0000_0000_0000_0000_0000 <= px * w <= 0x8000_0000_0000_0000_0000_0000) by (nonlinear_arith)
            requires -0x8000_0000_0000_0000 <= px <= 0x8000_0000_0000_0000, 0 <= w <= 0x1_0000_0000;
        assert(-0x2_0000_0000 <= lean <= 0x2_0000_0000);
        assert(-0x2_0000_0000_0000_0000 <= kk * lean <= 0x2_0000_0000_0000_0000) by (nonlinear_arith)
            requires -0x2_0000_0000 <= lean <= 0x2_0000_0000, 0 <= kk <= 0x1_0000_0000;
        let nx: i128 = px * w + kk * lean * s;
        let ny: i128 = self.position.y as i128 - kk * s;
        assert(nx == ray_x(*self, *scr, sx as int, k as int));
        let d: i128 = s * w;
        if nx < 0 || ny < 0 {
            proof {
                if nx < 0 {
                    lemma_floor_negative(nx as int, d as int);
                } else {
                    lemma_floor_negative(ny as int, s as int);
                }
            }
            return None;
        }
        let tx: u128 = (nx as u128) / (d as u128);
        let ty: u128 = (ny as u128) / (s as u128);
        let (mw, mh) = map.dimensions();
        if tx >= mw as u128 || ty >= mh as u128 {
            return None;
        }
        map.sample(tx as i64, ty as i64)
    }

    /// Marches the ray of column `sx` and returns the column's colours,
    /// row by row: entry `y` is the colour of pixel `(sx, y)`.
    pub fn trace_column(&self, map: &TerrainMap, scr: &Screen, sx: u32) -> (r: Vec<Rgb>)
        requires
            map.wf(),
            scr.wf(),
            sx < scr.width,
        ensures
            r@.len() == scr.height,
            forall|y: int| 0 <= y < scr.height ==> #[trigger] r@[y] == pixel(*self, *map, *scr, sx as int, y),
    {
        let mut col: Vec<Rgb> = Vec::new();
        let mut y: u32 = 0;
        while y < scr.height
            invariant
                y <= scr.height,
                col@.len() == y,
                forall|i: int| 0 <= i < y ==> #[trigger] col@[i] == scr.sky,
            decreases scr.height - y,
        {
            col.push(scr.sky);
            y = y + 1;
        }
        let mut ceil: u32 = scr.height;
        let mut k: u32 = 1;
        while k < self.far_clip
            invariant
                map.wf(),
                scr.wf(),
                sx < scr.width,
                1 <= k,
                k <= self.far_clip || k == 1,
                col@.len() == scr.height,
                ceil == ceiling(*self, *map, *scr, sx as int, k - 1),
                ceil <= scr.height,
                forall|i: int| 0 <= i < scr.height ==> #[trigger] col@[i] == row_color(*self, *map, *scr, sx as int, i, k - 1),
            decreases self.far_clip - k,
        {
            let sample = self.sample_ray(map, scr, sx, k);
            if let Some((c, h)) = sample {
                if (h as u32) < ceil {
                    let mut j: u32 = 0;
                    while j < h as u32
                        invariant
                            j <= h,
                            (h as u32) < ceil <= scr.height,
                            col@.len() == scr.height,
                            forall|i: int| 0 <= i < scr.height ==> #[trigger] col@[i] == if i < j {
                                c
                            } else {
                                row_color(*self, *map, *scr, sx as int, i, k - 1)
                            },
                        decreases h - j,
                    {
                        col.set(j as usize, c);
                        j = j + 1;
                    }
                    ceil = h as u32;
                }
            }
            proof {
                assert forall|i: int| 0 <= i < scr.height implies #[trigger] col@[i] == row_color(*self, *map, *scr, sx as int, i, k as int) by {
                    reveal_with_fuel(row_color, 1);
                }
            }
            k = k + 1;
        }
        col
    }

    /// Traces every column: entry `x` of the result is column `x`.
    pub fn trace_columns(&self, map: &TerrainMap, scr: &Screen) -> (r: Vec<Vec<Rgb>>)
        requires
            map.wf(),
            scr.wf(),
        ensures
            columns_hold(r@, *scr, |x: int, y: int| pixel(*self, *map, *scr, x, y)),
    {
        let mut cols: Vec<Vec<Rgb>> = Vec::new();
        let mut sx: u32 = 0;
        while sx < scr.width
            invariant
                map.wf(),
                scr.wf(),
                sx <= scr.width,
                cols@.len() == sx,
                forall|x: int| 0 <= x < sx ==> (#[trigger] cols@[x])@.len() == scr.height,
                forall|x: int, y: int| 0 <= x < sx && 0 <= y < scr.height ==>
                    #[trigger] cols@[x]@[y] == pixel(*self, *map, *scr, x, y),
            decreases scr.width - sx,
        {
            let col = self.trace_column(map, scr, sx);
            cols.push(col);
            sx = sx + 1;
        }
        cols
    }

    /// Renders the view of `map` into `scr.width * scr.height` RGBA pixels,
    /// row by row from the top-left corner, every pixel opaque.
    pub fn render(&self, map: &TerrainMap, scr: &Screen) -> (r: Vec<u8>)
        requires
            map.wf(),
            scr.wf(),
        ensures
            frame_holds(r@, *scr, |x: int, y: int| pixel(*self, *map, *scr, x, y)),
    {
        let cols = self.trace_columns(map, scr);
        composite(&cols, scr)
    }
}

/// `cols` holds `scr.width` columns of `scr.height` colours each, with
/// `f(x, y)` in row `y` of column `x`.
pub open spec fn columns_hold(cols: Seq<Vec<Rgb>>, scr: Screen, f: spec_fn(int, int) -> Rgb) -> bool {
    &&& cols.len() == scr.width
    &&& forall|x: int| 0 <= x < scr.width ==> (#[trigger] cols[x])@.len() == scr.height
    &&& forall|x: int, y: int| 0 <= x < scr.width && 0 <= y < scr.height ==> #[trigger] cols[x]@[y] == f(x, y)
}

/// `frame` is a `scr.width` by `scr.height` RGBA raster whose pixel
/// `(x, y)` has the colour `f(x, y)` and alpha 255.
pub open spec fn frame_holds(frame: Seq<u8>, scr: Screen, f: spec_fn(int, int) -> Rgb) -> bool {
    &&& frame.len() == 4 * (scr.width as int) * (scr.height as int)
    &&& forall|x: int, y: int| 0 <= x < scr.width && 0 <= y < scr.height ==> {
        let o = #[trigger] texel_offset(scr.width as int, x, y);
        &&& frame[o] == f(x, y).r
        &&& frame[o + 1] == f(x, y).g
        &&& frame[o + 2] == f(x, y).b
        &&& frame[o + 3] == 255
    }
}

proof fn lemma_offset_order(w: int, x1: int, y1: int, x2: int, y2: int)
    requires
        0 <= x1 < w,
        0 <= x2 < w,
        y1 < y2 || (y1 == y2 && x1 < x2),
    ensures
        texel_offset(w, x1, y1) + 4 <= texel_offset(w, x2, y2),
{
    if y1 < y2 {
        assert(y1 * w + x1 < (y1 + 1) * w) by (nonlinear_arith)
            requires x1 < w;
        assert((y1 + 1) * w <= y2 * w) by (nonlinear_arith)
            requires y1 + 1 <= y2, 0 <= w;
    }
}

/// Interleaves columns into an RGBA raster, row by row: each pixel keeps the
/// three channels of its colour, and alpha is 255.
pub fn composite(cols: &Vec<Vec<Rgb>>, scr: &Screen) -> (r: Vec<u8>)
    requires
        scr.wf(),
        cols@.len() == scr.width,
        forall|x: int| 0 <= x < scr.width ==> (#[trigger] cols@[x])@.len() == scr.height,
    ensures
        frame_holds(r@, *scr, |x: int, y: int| cols@[x]@[y]),
{
    let ghost w = scr.width as int;
    let mut out: Vec<u8> = Vec::new();
    let mut y: u32 = 0;
    while y < scr.height
        invariant
            scr.wf(),
            w == scr.width,
            cols@.len() == scr.width,
            forall|x: int| 0 <= x < scr.width ==> (#[trigger] cols@[x])@.len() == scr.height,
            y <= scr.height,
            out@.len() == 4 * (y * w),
            forall|x1: int, y1: int| 0 <= x1 < w && 0 <= y1 < y ==> {
                let o = #[trigger] texel_offset(w, x1, y1);
                &&& out@[o] == cols@[x1]@[y1].r
                &&& out@[o + 1] == cols@[x1]@[y1].g
                &&& out@[o + 2] == cols@[x1]@[y1].b
                &&& out@[o + 3] == 255
            },
        decreases scr.height - y,
    {
        let mut x: u32 = 0;
        while x < scr.width
            invariant
                scr.wf(),
                w == scr.width,
                cols@.len() == scr.width,
                forall|x: int| 0 <= x < scr.width ==> (#[trigger] cols@[x])@.len() == scr.height,
                y < scr.height,
                x <= scr.width,
                out@.len() == texel_offset(w, x as int, y as int),
                forall|x1: int, y1: int| 0 <= x1 < w && (0 <= y1 < y || (y1 == y && 0 <= x1 < x)) ==> {
                    let o = #[trigger] texel_offset(w, x1, y1);
                    &&& out@[o] == cols@[x1]@[y1].r
                    &&& out@[o + 1] == cols@[x1]@[y1].g
                    &&& out@[o + 2] == cols@[x1]@[y1].b
                    &&& out@[o + 3] == 255
                },
            decreases scr.width - x,
        {
            proof {
                lemma_offset_order(w, x as int, y as int, 0, scr.height as int);
                assert(texel_offset(w, 0, scr.height as int) == 4 * w * scr.height) by (nonlinear_arith);
            }
            let c: Rgb = cols[x as usize][y as usize];
            let ghost before = out@;
            out.push(c.r);
            out.push(c.g);
            out.push(c.b);
            out.push(255);
            proof {
                assert forall|x1: int, y1: int| 0 <= x1 < w && (0 <= y1 < y || (y1 == y && 0 <= x1 <= x)) implies {
                    let o = #[trigger] texel_offset(w, x1, y1);
                    &&& out@[o] == cols@[x1]@[y1].r
                    &&& out@[o + 1] == cols@[x1]@[y1].g
                    &&& out@[o + 2] == cols@[x1]@[y1].b
                    &&& out@[o + 3] == 255
                } by {
                    if !(y1 == y && x1 == x) {
                        lemma_offset_order(w, x1, y1, x as int, y as int);
                    }
                }
            }
            x = x + 1;
        }
        proof {
            assert(texel_offset(w, w, y as int) == 4 * ((y + 1) * w)) by (nonlinear_arith);
        }
        y = y + 1;
    }
    proof {
        assert(4 * (scr.height * w) == 4 * w * scr.height) by (nonlinear_arith);
    }
    out
}

/// Along a ray the ceiling never rises, and never lies above the
/// elevation that a step on the map sampled.
pub proof fn lemma_ceiling_falls(cam: Camera, map: TerrainMap, scr: Screen, sx: int, k1: int, k2: int)
    requires
        0 <= k1 <= k2,
    ensures
        ceiling(cam, map, scr, sx, k2) <= ceiling(cam, map, scr, sx, k1),
        k1 >= 1 && ray_sample(cam, map, scr, sx, k1) is Some ==>
            ceiling(cam, map, scr, sx, k1) <= ray_sample(cam, map, scr, sx, k1)->Some_0.1,
    decreases k2 - k1,
{
    if k1 < k2 {
        lemma_ceiling_falls(cam, map, scr, sx, k1, k2 - 1);
    }
}

/// Occlusion: once a step of column `sx` has sampled elevation `t` on the
/// map, no later step whose sample is `t` or more paints, the elevations of
/// the steps that do paint fall strictly, and the rows at or above the
/// ceiling after that step keep their colour for the rest of the march.
pub proof fn lemma_occlusion(cam: Camera, map: TerrainMap, scr: Screen, sx: int, k1: int, k2: int)
    requires
        1 <= k1 < k2,
        ray_sample(cam, map, scr, sx, k1) is Some,
    ensures
        ray_sample(cam, map, scr, sx, k2) is Some
            && ray_sample(cam, map, scr, sx, k2)->Some_0.1 >= ray_sample(cam, map, scr, sx, k1)->Some_0.1
            ==> !paints(cam, map, scr, sx, k2),
        paints(cam, map, scr, sx, k1) && paints(cam, map, scr, sx, k2) ==>
            ray_sample(cam, map, scr, sx, k2)->Some_0.1 < ray_sample(cam, map, scr, sx, k1)->Some_0.1,
        forall|y: int| y >= ceiling(cam, map, scr, sx, k1) ==>
            #[trigger] row_color(cam, map, scr, sx, y, k2) == row_color(cam, map, scr, sx, y, k1),
    decreases k2 - k1,
{
    lemma_ceiling_falls(cam, map, scr, sx, k1, k2 - 1);
    lemma_ceiling_falls(cam, map, scr, sx, k1, k1);
    if k1 < k2 - 1 {
        lemma_occlusion(cam, map, scr, sx, k1, k2 - 1);
    }
    assert forall|y: int| y >= ceiling(cam, map, scr, sx, k1) implies
        #[trigger] row_color(cam, map, scr, sx, y, k2) == row_color(cam, map, scr, sx, y, k1) by {
        if k1 < k2 - 1 {
            assert(row_color(cam, map, scr, sx, y, k2 - 1) == row_color(cam, map, scr, sx, y, k1));
        }
    }
}

/// The step whose colour row `y` of column `sx` shows after `k` steps: the
/// last step up to `k` that painted that row, or 0 where none did (sky).
pub open spec fn painter(cam: Camera, map: TerrainMap, scr: Screen, sx: int, y: int, k: int) -> int
    decreases k,
{
    if k <= 0 {
        0
    } else if paints(cam, map, scr, sx, k) && y < ray_sample(cam, map, scr, sx, k)->Some_0.1 {
        k
    } else {
        painter(cam, map, scr, sx, y, k - 1)
    }
}

/// The highest row reached by a step after `s` up to step `k` of column
/// `sx`: the largest elevation that such a step painted, or 0.
pub open spec fn top_after(cam: Camera, map: TerrainMap, scr: Screen, sx: int, s: int, k: int) -> int
    decreases k - s,
{
    if k <= s {
        0
    } else {
        let prev = top_after(cam, map, scr, sx, s, k - 1);
        let here = if paints(cam, map, scr, sx, k) { ray_sample(cam, map, scr, sx, k)->Some_0.1 as int } else { 0 };
        if here > prev { here } else { prev }
    }
}

/// Each row shows the colour of its painter, or the sky where it has none.
pub proof fn lemma_row_painter(cam: Camera, map: TerrainMap, scr: Screen, sx: int, y: int, k: int)
    ensures
        0 <= painter(cam, map, scr, sx, y, k) <= if k < 0 { 0 } else { k },
        row_color(cam, map, scr, sx, y, k) == if painter(cam, map, scr, sx, y, k) == 0 {
            scr.sky
        } else {
            ray_sample(cam, map, scr, sx, painter(cam, map, scr, sx, y, k))->Some_0.0
        },
        painter(cam, map, scr, sx, y, k) != 0 ==> paints(cam, map, scr, sx, painter(cam, map, scr, sx, y, k)),
    decreases k,
{
    if k > 0 {
        lemma_row_painter(cam, map, scr, sx, y, k - 1);
    }
}

/// A row is painted by a step after `s` exactly when it lies below the
/// highest row that those steps reached. With `s == 0`: the column shows
/// terrain exactly on rows `0 .. h`, `h` the elevation of its first painting
/// step (none if no step paints), and sky above.
pub proof fn lemma_painted_rows(cam: Camera, map: TerrainMap, scr: Screen, sx: int, y: int, s: int, k: int)
    requires
        0 <= y,
        0 <= s <= k,
    ensures
        painter(cam, map, scr, sx, y, k) > s <==> y < top_after(cam, map, scr, sx, s, k),
    decreases k - s,
{
    lemma_row_painter(cam, map, scr, sx, y, k);
    if k > s {
        lemma_painted_rows(cam, map, scr, sx, y, s, k - 1);
        lemma_row_painter(cam, map, scr, sx, y, k - 1);
    }
}

/// Lower rows show nearer or equal steps: the painter of a column never
/// grows as the row rises.
pub proof fn lemma_painter_falls(cam: Camera, map: TerrainMap, scr: Screen, sx: int, y1: int, y2: int, k: int)
    requires
        0 <= y1 <= y2,
        k >= 0,
    ensures
        painter(cam, map, scr, sx, y2, k) <= painter(cam, map, scr, sx, y1, k),
{
    let p2 = painter(cam, map, scr, sx, y2, k);
    lemma_row_painter(cam, map, scr, sx, y2, k);
    lemma_row_painter(cam, map, scr, sx, y1, k);
    if p2 > 0 {
        assert(p2 <= k);
        lemma_painted_rows(cam, map, scr, sx, y2, p2 - 1, k);
        lemma_painted_rows(cam, map, scr, sx, y1, p2 - 1, k);
        assert(y2 < top_after(cam, map, scr, sx, p2 - 1, k));
        assert(y1 < top_after(cam, map, scr, sx, p2 - 1, k));
        assert(painter(cam, map, scr, sx, y1, k) > p2 - 1);
    }
}

proof fn lemma_top_after_paint(cam: Camera, map: TerrainMap, scr: Screen, sx: int, s: int, k: int)
    requires
        1 <= s <= k,
        paints(cam, map, scr, sx, s),
    ensures
        top_after(cam, map, scr, sx, s, k) <= ray_sample(cam, map, scr, sx, s)->Some_0.1,
        top_after(cam, map, scr, sx, s - 1, k) == ray_sample(cam, map, scr, sx, s)->Some_0.1,
    decreases k - s,
{
    if k > s {
        lemma_top_after_paint(cam, map, scr, sx, s, k - 1);
        lemma_occlusion(cam, map, scr, sx, s, k);
        assert(top_after(cam, map, scr, sx, s - 1, k - 1) == ray_sample(cam, map, scr, sx, s)->Some_0.1);
    } else {
        assert(top_after(cam, map, scr, sx, s - 1, s - 1) == 0);
    }
}

/// After a step `s` paints rows `0 .. h`, for the rest of the march the
/// column shows that step's colour exactly on rows `p .. h`, `p` the highest
/// row reached by a farther step (0 if none): nothing farther paints at or
/// above `h`, and `p <= h`. A spike of elevation 255 thus keeps rows
/// `p .. 255` against all terrain behind it.
pub proof fn lemma_rows_after_paint(cam: Camera, map: TerrainMap, scr: Screen, sx: int, y: int, s: int, k: int)
    requires
        0 <= y,
        1 <= s <= k,
        paints(cam, map, scr, sx, s),
    ensures
        top_after(cam, map, scr, sx, s, k) <= ray_sample(cam, map, scr, sx, s)->Some_0.1,
        painter(cam, map, scr, sx, y, k) == s <==> (top_after(cam, map, scr, sx, s, k) <= y
            < ray_sample(cam, map, scr, sx, s)->Some_0.1),
        top_after(cam, map, scr, sx, s, k) <= y < ray_sample(cam, map, scr, sx, s)->Some_0.1 ==>
            row_color(cam, map, scr, sx, y, k) == ray_sample(cam, map, scr, sx, s)->Some_0.0,
{
    lemma_top_after_paint(cam, map, scr, sx, s, k);
    lemma_painted_rows(cam, map, scr, sx, y, s, k);
    lemma_painted_rows(cam, map, scr, sx, y, s - 1, k);
    lemma_row_painter(cam, map, scr, sx, y, k);
}

/// A sample at or above the ceiling leaves no trace: two maps whose rays in
/// column `sx` sample alike at every step but `z`, where each samples
/// nothing or an elevation at or above the ceiling, in whatever colour, give
/// that column the same ceiling and the same colour in every row after every
/// step.
pub proof fn lemma_occluded_sample_unseen(
    cam: Camera,
    m1: TerrainMap,
    m2: TerrainMap,
    scr: Screen,
    sx: int,
    z: int,
    k: int,
)
    requires
        z >= 1,
        forall|j: int| j >= 1 && j != z ==> #[trigger] ray_sample(cam, m1, scr, sx, j) == ray_sample(cam, m2, scr, sx, j),
        ray_sample(cam, m1, scr, sx, z) is None
            || ray_sample(cam, m1, scr, sx, z)->Some_0.1 >= ceiling(cam, m1, scr, sx, z - 1),
        ray_sample(cam, m2, scr, sx, z) is None
            || ray_sample(cam, m2, scr, sx, z)->Some_0.1 >= ceiling(cam, m2, scr, sx, z - 1),
    ensures
        ceiling(cam, m1, scr, sx, k) == ceiling(cam, m2, scr, sx, k),
        forall|y: int| #[trigger] row_color(cam, m1, scr, sx, y, k) == row_color(cam, m2, scr, sx, y, k),
    decreases k,
{
    if k > 0 {
        lemma_occluded_sample_unseen(cam, m1, m2, scr, sx, z, k - 1);
        assert forall|y: int| #[trigger] row_color(cam, m1, scr, sx, y, k) == row_color(cam, m2, scr, sx, y, k) by {
            assert(row_color(cam, m1, scr, sx, y, k - 1) == row_color(cam, m2, scr, sx, y, k - 1));
        }
    }
}

} // verus!
