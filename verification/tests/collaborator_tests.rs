// The outside collaborators called through the library: image cutting,
// level rotation, and randomness.

use image::DynamicImage;
use image::GenericImageView;
use image::Rgb;
use image::RgbImage;
use jigsaw::levels::Levels;
use jigsaw::partition::partition;
use jigsaw::rng::random_in_range;
use jigsaw::rng::random_positions;

// A 600 x 400 picture whose pixels encode their 3 x 2 grid cell, so a
// sub-image's content proves which cell it was cut from.
fn cell_coded_picture() -> DynamicImage {
    let buffer = RgbImage::from_fn(600, 400, |x, y| {
        Rgb([(x / 200) as u8 * 10, (y / 200) as u8 * 10, 0])
    });
    DynamicImage::ImageRgb8(buffer)
}

#[test]
fn partition_cuts_the_grid() {
    let picture = cell_coded_picture();
    let subs = partition(&picture, 3, 2);
    assert_eq!(subs.len(), 6);
    for (i, sub) in subs.iter().enumerate() {
        // A sub-image really is a cut-out, not the whole picture.
        assert_eq!(sub.dimensions(), (200, 200));
        // Row-major, rows top to bottom: sub-image i carries the color
        // of pixel cell (i % 3, i / 3).
        let col = (i % 3) as u8;
        let row = (i / 3) as u8;
        let pixel = sub.get_pixel(0, 0);
        assert_eq!(pixel[0], col * 10);
        assert_eq!(pixel[1], row * 10);
    }
}

#[test]
fn partition_of_uneven_picture_still_covers_the_grid() {
    let buffer = RgbImage::from_fn(601, 401, |_, _| Rgb([7, 7, 7]));
    let picture = DynamicImage::ImageRgb8(buffer);
    let subs = partition(&picture, 3, 2);
    assert_eq!(subs.len(), 6);
    for sub in &subs {
        assert_eq!(sub.dimensions(), (200, 200));
    }
}

#[test]
fn default_levels_start_at_the_first_picture() {
    let levels = Levels::default();
    assert_eq!(levels.current_level().get_path(), "assets/resources/1.jpg");
}

#[test]
fn next_level_wraps_around() {
    let mut levels = Levels::default();
    levels.next_level();
    assert_eq!(levels.current_level().get_path(), "assets/resources/2.jpg");
    levels.next_level();
    assert_eq!(levels.current_level().get_path(), "assets/resources/1.jpg");
}

#[test]
fn random_level_stays_in_the_rotation() {
    let mut levels = Levels::default();
    for _ in 0..50 {
        levels.random_level();
        let path = levels.current_level().get_path();
        assert!(path == "assets/resources/1.jpg" || path == "assets/resources/2.jpg");
    }
}

#[test]
fn random_draws_stay_in_range() {
    for _ in 0..200 {
        let drawn = random_in_range(-800, 800);
        assert!((-800..800).contains(&drawn));
    }
}

#[test]
fn random_scatter_stays_on_the_table() {
    let scatter = random_positions(50, -800, 800, -500, 500);
    assert_eq!(scatter.len(), 50);
    for (x, y) in scatter {
        assert!((-800..800).contains(&x));
        assert!((-500..500).contains(&y));
    }
}
