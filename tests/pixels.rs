use flint::pixels::{bgra_to_rgba, rgba_to_surface, surface_to_rgba, PixelError};

fn sample() -> Vec<u8> {
    (1..=24).collect()
}

#[test]
fn surface_layout_swaps_channels_and_pads_rows() {
    let surface = rgba_to_surface(&sample(), 3, 2, 16).unwrap();
    assert_eq!(
        surface,
        vec![
            3, 2, 1, 4, 7, 6, 5, 8, 11, 10, 9, 12, 0, 0, 0, 0, 15, 14, 13, 16, 19, 18, 17, 20,
            23, 22, 21, 24, 0, 0, 0, 0
        ]
    );
}

#[test]
fn surface_round_trip_with_padding() {
    let rgba = sample();
    let surface = rgba_to_surface(&rgba, 3, 2, 16).unwrap();
    assert_eq!(surface_to_rgba(&surface, 3, 2, 16).unwrap(), rgba);
}

#[test]
fn surface_round_trip_tight_stride() {
    let rgba: Vec<u8> = (0..=255).cycle().take(4 * 7 * 5).collect();
    let surface = rgba_to_surface(&rgba, 7, 5, 28).unwrap();
    assert_eq!(surface.len(), 28 * 5);
    assert_eq!(surface_to_rgba(&surface, 7, 5, 28).unwrap(), rgba);
}

#[test]
fn surface_readback_drops_padding() {
    let surface = vec![
        3, 2, 1, 4, 99, 99, 99, 99, //
        7, 6, 5, 8, 99, 99, 99, 99,
    ];
    assert_eq!(surface_to_rgba(&surface, 1, 2, 8).unwrap(), vec![1, 2, 3, 4, 5, 6, 7, 8]);
}

#[test]
fn zero_area_is_refused() {
    assert_eq!(rgba_to_surface(&[], 0, 5, 0), Err(PixelError::ZeroArea));
    assert_eq!(rgba_to_surface(&[], 5, 0, 20), Err(PixelError::ZeroArea));
    assert_eq!(surface_to_rgba(&[], 0, 1, 4), Err(PixelError::ZeroArea));
}

#[test]
fn wrong_length_is_refused() {
    assert_eq!(rgba_to_surface(&sample(), 3, 3, 12), Err(PixelError::LengthMismatch));
    assert_eq!(surface_to_rgba(&[0; 31], 3, 2, 16), Err(PixelError::LengthMismatch));
}

#[test]
fn short_stride_is_refused() {
    assert_eq!(rgba_to_surface(&sample(), 3, 2, 11), Err(PixelError::StrideTooSmall));
    assert_eq!(surface_to_rgba(&[0; 22], 3, 2, 11), Err(PixelError::StrideTooSmall));
}

#[test]
fn oversized_surface_is_refused() {
    assert_eq!(rgba_to_surface(&sample(), 3, 2, usize::MAX), Err(PixelError::TooLarge));
}

#[test]
fn bgra_groups_become_rgba() {
    let data = [10, 20, 30, 40, 50, 60, 70, 80, 1, 2];
    assert_eq!(bgra_to_rgba(&data), vec![30, 20, 10, 40, 70, 60, 50, 80]);
}
