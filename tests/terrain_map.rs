use voxel_space::{MapError, Raster, Rgb, TerrainMap};

fn raster(width: u32, height: u32, f: impl Fn(u32, u32) -> [u8; 4]) -> Raster {
    let mut rgba = Vec::new();
    for y in 0..height {
        for x in 0..width {
            rgba.extend_from_slice(&f(x, y));
        }
    }
    Raster { width, height, rgba }
}

fn sample_map() -> TerrainMap {
    let color = raster(3, 2, |x, y| [x as u8 * 10, y as u8 * 10, 7, 255]);
    let height = raster(3, 2, |x, y| [(x + 3 * y) as u8, 99, 99, 255]);
    TerrainMap::new(color, height).unwrap()
}

#[test]
fn map_keeps_dimensions() {
    assert_eq!(sample_map().dimensions(), (3, 2));
}

#[test]
fn sample_inside_reads_both_rasters() {
    let map = sample_map();
    assert_eq!(map.sample(0, 0), Some((Rgb { r: 0, g: 0, b: 7 }, 0)));
    assert_eq!(map.sample(2, 1), Some((Rgb { r: 20, g: 10, b: 7 }, 5)));
    assert_eq!(map.sample(1, 1), Some((Rgb { r: 10, g: 10, b: 7 }, 4)));
}

#[test]
fn sample_defined_exactly_on_the_map() {
    let map = sample_map();
    for y in -2i64..5 {
        for x in -2i64..6 {
            let inside = (0..3).contains(&x) && (0..2).contains(&y);
            assert_eq!(map.sample(x, y).is_some(), inside, "({x}, {y})");
        }
    }
    assert_eq!(map.sample(i64::MIN, 0), None);
    assert_eq!(map.sample(0, i64::MAX), None);
}

#[test]
fn mismatched_dimensions_are_rejected() {
    let color = raster(3, 2, |_, _| [0, 0, 0, 255]);
    let height = raster(2, 3, |_, _| [0, 0, 0, 255]);
    assert_eq!(TerrainMap::new(color, height).err(), Some(MapError::DimensionMismatch));
}

#[test]
fn empty_rasters_are_rejected() {
    let color = raster(0, 2, |_, _| [0, 0, 0, 255]);
    let height = raster(0, 2, |_, _| [0, 0, 0, 255]);
    assert_eq!(TerrainMap::new(color, height).err(), Some(MapError::EmptyRaster));
}

#[test]
fn short_rasters_are_rejected() {
    let color = raster(3, 2, |_, _| [0, 0, 0, 255]);
    let mut height = raster(3, 2, |_, _| [0, 0, 0, 255]);
    height.rgba.pop();
    assert_eq!(TerrainMap::new(color, height).err(), Some(MapError::BadLength));
}

#[test]
fn undecodable_images_are_rejected() {
    assert_eq!(TerrainMap::decode(b"not an image", b"nor this").err(), Some(MapError::Decode));
}

fn png(width: u32, height: u32, rgba: Vec<u8>) -> Vec<u8> {
    let img = image::RgbaImage::from_raw(width, height, rgba).unwrap();
    let mut out = std::io::Cursor::new(Vec::new());
    img.write_to(&mut out, image::ImageOutputFormat::Png).unwrap();
    out.into_inner()
}

#[test]
fn decoded_images_make_a_map() {
    let color = png(2, 2, vec![1, 2, 3, 255, 4, 5, 6, 255, 7, 8, 9, 255, 10, 11, 12, 255]);
    let height = png(2, 2, vec![40, 0, 0, 255, 41, 0, 0, 255, 42, 0, 0, 255, 43, 0, 0, 255]);
    let map = TerrainMap::decode(&color, &height).unwrap();
    assert_eq!(map.dimensions(), (2, 2));
    assert_eq!(map.sample(1, 0), Some((Rgb { r: 4, g: 5, b: 6 }, 41)));
    assert_eq!(map.sample(0, 1), Some((Rgb { r: 7, g: 8, b: 9 }, 42)));
}

#[test]
fn decoded_images_of_other_sizes_are_rejected() {
    let color = png(2, 2, vec![0; 16]);
    let height = png(1, 2, vec![0; 8]);
    assert_eq!(TerrainMap::decode(&color, &height).err(), Some(MapError::DimensionMismatch));
}
