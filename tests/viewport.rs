use flint::geometry::{Point, SUBPIXELS};
use flint::render::view_transform;
use flint::viewport::to_image_space;

/// Whole pixels in the library's 1/256-pixel units.
fn u(px: i32) -> i32 {
    px * SUBPIXELS
}

#[test]
fn exact_fit_scales_up() {
    assert_eq!(to_image_space(u(50), u(20), 200, 100, 100, 50), Some(Point::new(25, 10)));
}

#[test]
fn wide_area_centres_horizontally() {
    // (33 - 0) / 2 = 16.5 pixels
    assert_eq!(to_image_space(u(150), u(33), 300, 100, 100, 50), Some(Point::from_units(u(50), 4224)));
    assert_eq!(to_image_space(u(50), 0, 300, 100, 100, 50), Some(Point::new(0, 0)));
}

#[test]
fn outside_points_map_without_clamping() {
    assert_eq!(to_image_space(0, 0, 300, 100, 100, 50), Some(Point::new(-25, 0)));
    // (1 - 50) / 2 = -24.5 pixels, exactly
    assert_eq!(to_image_space(u(1), 0, 300, 100, 100, 50), Some(Point::from_units(-6272, 0)));
    assert_eq!(to_image_space(u(400), u(-10), 300, 100, 100, 50), Some(Point::new(175, -5)));
}

#[test]
fn tall_area_centres_vertically() {
    // area 100x300, image 100x50: scale 1, offset (0, 125)
    assert_eq!(to_image_space(u(10), u(130), 100, 300, 100, 50), Some(Point::new(10, 5)));
}

#[test]
fn downscaled_image() {
    assert_eq!(to_image_space(u(481), u(270), 960, 540, 1920, 1080), Some(Point::new(962, 540)));
}

#[test]
fn sub_pixel_positions_are_kept() {
    // scale 4: display pixel 3 is image pixel 0.75
    assert_eq!(to_image_space(u(3), u(3), 400, 400, 100, 100), Some(Point::from_units(192, 192)));
    // scale 1.5: display pixel 1 is image pixel 2/3 = 170.67 units
    assert_eq!(to_image_space(u(1), u(1), 150, 150, 100, 100), Some(Point::from_units(170, 170)));
}

#[test]
fn huge_coordinates_do_not_fit() {
    assert_eq!(to_image_space(i32::MAX, 0, 1, 1, u32::MAX, 1), None);
}

#[test]
fn mapping_back_lands_within_one_unit() {
    let (aw, ah, iw, ih) = (333u32, 97u32, 120u32, 45u32);
    let t = view_transform(aw, ah, iw, ih);
    let scale = t.scale_num as f64 / t.scale_den as f64;
    let unit = 1.0 / SUBPIXELS as f64;
    for d in -20..400 {
        let (dx, dy) = (d as f64 + 0.3, (d / 3) as f64 + 0.7);
        let p = to_image_space((dx / unit) as i32, (dy / unit) as i32, aw, ah, iw, ih).unwrap();
        let back_x = p.x as f64 * unit * scale + t.offset_x_num as f64 / t.offset_den as f64;
        let back_y = p.y as f64 * unit * scale + t.offset_y_num as f64 / t.offset_den as f64;
        assert!((back_x - dx).abs() <= scale * unit + unit + 1e-9);
        assert!((back_y - dy).abs() <= scale * unit + unit + 1e-9);
    }
}

#[test]
fn transform_values() {
    let t = view_transform(300, 100, 100, 50);
    assert_eq!((t.scale_num, t.scale_den), (100, 50));
    assert_eq!((t.offset_x_num, t.offset_y_num, t.offset_den), (5000, 0, 100));
}
