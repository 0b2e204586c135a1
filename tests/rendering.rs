use voxel_space::{composite, Camera, Raster, Rgb, Screen, TerrainMap, SUBTEXELS};

fn map_of(width: u32, height: u32, f: impl Fn(u32, u32) -> (Rgb, u8)) -> TerrainMap {
    let mut color = Vec::new();
    let mut elevation = Vec::new();
    for y in 0..height {
        for x in 0..width {
            let (c, h) = f(x, y);
            color.extend_from_slice(&[c.r, c.g, c.b, 255]);
            elevation.extend_from_slice(&[h, h, h, 255]);
        }
    }
    TerrainMap::new(
        Raster { width, height, rgba: color },
        Raster { width, height, rgba: elevation },
    )
    .unwrap()
}

fn pixel(frame: &[u8], screen: &Screen, x: u32, y: u32) -> [u8; 4] {
    let o = 4 * (y as usize * screen.width as usize + x as usize);
    [frame[o], frame[o + 1], frame[o + 2], frame[o + 3]]
}

const SKY: Rgb = Rgb { r: 1, g: 2, b: 3 };
const RED: Rgb = Rgb { r: 200, g: 0, b: 0 };
const GREEN: Rgb = Rgb { r: 0, g: 200, b: 0 };

#[test]
fn standard_screen() {
    let s = Screen::standard();
    assert_eq!((s.width, s.height), (640, 480));
    assert_eq!(s.sky, Rgb { r: 110, g: 209, b: 255 });
}

#[test]
fn screen_sizes_are_checked() {
    assert!(Screen::new(0, 10, SKY).is_none());
    assert!(Screen::new(10, 0, SKY).is_none());
    assert_eq!(Screen::new(3, 4, SKY), Some(Screen { width: 3, height: 4, sky: SKY }));
}

#[test]
fn flat_map_renders_one_band() {
    let color = Rgb { r: 10, g: 20, b: 30 };
    let map = map_of(1024, 1024, |_, _| (color, 100));
    let screen = Screen::standard();
    let frame = Camera::new().render(&map, &screen);
    assert_eq!(frame.len(), 640 * 480 * 4);
    for x in 0..640 {
        for y in 0..480 {
            let want = if y < 100 { color } else { screen.sky };
            assert_eq!(pixel(&frame, &screen, x, y), [want.r, want.g, want.b, 255], "({x}, {y})");
        }
    }
}

#[test]
fn frame_shape_and_alpha() {
    let map = map_of(16, 16, |x, y| (Rgb { r: x as u8, g: y as u8, b: 9 }, (x * 7 + y * 3) as u8));
    let screen = Screen::new(5, 7, SKY).unwrap();
    let mut cam = Camera::new();
    cam.position.x = 8 * SUBTEXELS;
    cam.position.y = 15 * SUBTEXELS;
    cam.far_clip = 20;
    let frame = cam.render(&map, &screen);
    assert_eq!(frame.len(), 5 * 7 * 4);
    assert!(frame.chunks(4).all(|p| p[3] == 255));
}

/// A camera just south of texel (32, 60), looking north along column 4 of an
/// eight-column screen, whose ray stays on x = 32.
fn spike_view(behind: u8) -> (Vec<u8>, Screen) {
    let map = map_of(64, 64, |x, y| if (x, y) == (32, 60) { (RED, 255) } else { (GREEN, behind) });
    let screen = Screen::new(8, 300, SKY).unwrap();
    let mut cam = Camera::new();
    cam.position.x = 32 * SUBTEXELS + SUBTEXELS / 2;
    cam.position.y = 61 * SUBTEXELS + SUBTEXELS / 2;
    cam.far_clip = 60;
    (cam.render(&map, &screen), screen)
}

#[test]
fn spike_occludes_terrain_behind_it() {
    let (frame, screen) = spike_view(255);
    for y in 0..300 {
        let want = if y < 255 { RED } else { SKY };
        assert_eq!(pixel(&frame, &screen, 4, y), [want.r, want.g, want.b, 255], "row {y}");
    }
}

#[test]
fn lower_terrain_behind_repaints_lower_rows() {
    let (frame, screen) = spike_view(40);
    for y in 0..300 {
        let want = if y < 40 { GREEN } else if y < 255 { RED } else { SKY };
        assert_eq!(pixel(&frame, &screen, 4, y), [want.r, want.g, want.b, 255], "row {y}");
    }
}

#[test]
fn camera_off_the_map_sees_only_sky() {
    let map = map_of(8, 8, |_, _| (RED, 50));
    let screen = Screen::new(4, 60, SKY).unwrap();
    let mut cam = Camera::new();
    cam.position.x = -100 * SUBTEXELS;
    cam.position.y = 4 * SUBTEXELS;
    cam.far_clip = 30;
    let frame = cam.render(&map, &screen);
    assert!(frame.chunks(4).all(|p| p == [SKY.r, SKY.g, SKY.b, 255]));
}

#[test]
fn no_steps_without_far_clip() {
    let map = map_of(8, 8, |_, _| (RED, 50));
    let screen = Screen::new(2, 60, SKY).unwrap();
    let mut cam = Camera::new();
    cam.position.x = 4 * SUBTEXELS;
    cam.position.y = 7 * SUBTEXELS;
    cam.far_clip = 1;
    assert!(cam.render(&map, &screen).chunks(4).all(|p| p == [SKY.r, SKY.g, SKY.b, 255]));
    cam.far_clip = 2;
    let col = cam.trace_column(&map, &screen, 1);
    assert_eq!(col[49], RED);
    assert_eq!(col[50], SKY);
}

#[test]
fn edge_columns_lean_outward() {
    // Column 0 of a four-column screen moves one texel west per step; the
    // west half of the map is tall, the east half flat.
    let map = map_of(40, 40, |x, _| if x < 20 { (RED, 90) } else { (GREEN, 10) });
    let screen = Screen::new(4, 100, SKY).unwrap();
    let mut cam = Camera::new();
    cam.position.x = 20 * SUBTEXELS + SUBTEXELS / 2;
    cam.position.y = 39 * SUBTEXELS + SUBTEXELS / 2;
    cam.far_clip = 10;
    let cols = cam.trace_columns(&map, &screen);
    assert_eq!(cols.len(), 4);
    assert_eq!(cols[0][50], RED);
    assert_eq!(cols[2][5], GREEN);
    assert_eq!(cols[2][50], SKY);
}

#[test]
fn composite_interleaves_columns() {
    let screen = Screen::new(2, 2, SKY).unwrap();
    let a = Rgb { r: 1, g: 2, b: 3 };
    let b = Rgb { r: 4, g: 5, b: 6 };
    let c = Rgb { r: 7, g: 8, b: 9 };
    let d = Rgb { r: 10, g: 11, b: 12 };
    let frame = composite(&vec![vec![a, b], vec![c, d]], &screen);
    assert_eq!(frame, vec![1, 2, 3, 255, 7, 8, 9, 255, 4, 5, 6, 255, 10, 11, 12, 255]);
}

/// Column 4 of an eight-column screen looking north from just south of
/// texel (32, 60), over a map given by `f`.
fn column_view(f: impl Fn(u32, u32) -> (Rgb, u8)) -> (Vec<u8>, Screen) {
    let map = map_of(64, 64, f);
    let screen = Screen::new(8, 300, SKY).unwrap();
    let mut cam = Camera::new();
    cam.position.x = 32 * SUBTEXELS + SUBTEXELS / 2;
    cam.position.y = 61 * SUBTEXELS + SUBTEXELS / 2;
    cam.far_clip = 60;
    (cam.render(&map, &screen), screen)
}

#[test]
fn occluded_sample_colour_is_never_seen() {
    let blue = Rgb { r: 0, g: 0, b: 200 };
    let view = |hidden: Rgb| {
        column_view(move |x, y| match (x, y) {
            (32, 60) => (RED, 200),
            (32, 59) => (hidden, 250),
            _ => (GREEN, 255),
        })
    };
    let (a, screen) = view(blue);
    let (b, _) = view(Rgb { r: 9, g: 99, b: 199 });
    assert_eq!(a, b);
    for y in 0..300 {
        let want = if y < 200 { RED } else { SKY };
        assert_eq!(pixel(&a, &screen, 4, y), [want.r, want.g, want.b, 255], "row {y}");
    }
}

#[test]
fn spike_keeps_rows_above_later_terrain() {
    let blue = Rgb { r: 0, g: 0, b: 200 };
    let (frame, screen) = column_view(|x, y| match (x, y) {
        (32, 60) => (RED, 255),
        (32, 59) => (blue, 100),
        (32, 58) => (GREEN, 50),
        _ => (GREEN, 255),
    });
    for y in 0..300 {
        let want = if y < 50 {
            GREEN
        } else if y < 100 {
            blue
        } else if y < 255 {
            RED
        } else {
            SKY
        };
        assert_eq!(pixel(&frame, &screen, 4, y), [want.r, want.g, want.b, 255], "row {y}");
    }
}
