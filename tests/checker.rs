use simimgrs::{SimilarChecker, SimilarError};

fn gradient(w: u32, h: u32) -> image::DynamicImage {
    image::DynamicImage::ImageLuma8(image::GrayImage::from_fn(w, h, |x, y| {
        image::Luma([((x * 255 / w + y * 97 / h) % 256) as u8])
    }))
}

fn halves(w: u32, h: u32, bright_left: bool) -> image::DynamicImage {
    image::DynamicImage::ImageRgb8(image::RgbImage::from_fn(w, h, |x, _| {
        let left = x < w / 2;
        if left == bright_left {
            image::Rgb([250, 240, 230])
        } else {
            image::Rgb([5, 10, 15])
        }
    }))
}

#[test]
fn default_matches_new() {
    let a = SimilarChecker::new();
    let b = SimilarChecker::default();
    for (x, y) in [(0u64, 0u64), (0, 0x1FF), (0, 0x3FF), (0, u64::MAX)] {
        assert_eq!(a.is_similar_fingerprints(x, y), b.is_similar_fingerprints(x, y));
    }
}

#[test]
fn default_threshold_is_ten_exclusive() {
    let c = SimilarChecker::new();
    assert!(c.is_similar_fingerprints(0, 0x1FF));
    assert!(!c.is_similar_fingerprints(0, 0x3FF));
}

#[test]
fn threshold_boundary_is_strict() {
    let c = SimilarChecker::new().threshold(3);
    assert!(!c.is_similar_fingerprints(0b111, 0));
    assert!(c.is_similar_fingerprints(0b011, 0));
}

#[test]
fn zero_threshold_judges_nothing_similar() {
    let c = SimilarChecker::new().threshold(0);
    assert!(!c.is_similar_fingerprints(42, 42));
}

#[test]
fn grid_size_sets_compared_bits() {
    let c = SimilarChecker::new().compression_size(2, 2).unwrap().threshold(1);
    // only the four low bits are compared on a 2 by 2 grid
    assert!(c.is_similar_fingerprints(0xF0, 0x00));
    assert!(!c.is_similar_fingerprints(0x01, 0x00));
}

#[test]
fn invalid_grids_are_refused() {
    assert_eq!(
        SimilarChecker::new().compression_size(0, 8).err(),
        Some(SimilarError::InvalidGridDimensions)
    );
    assert_eq!(
        SimilarChecker::new().compression_size(8, 0).err(),
        Some(SimilarError::InvalidGridDimensions)
    );
    assert_eq!(
        SimilarChecker::new().compression_size(10, 10).err(),
        Some(SimilarError::InvalidGridDimensions)
    );
    assert_eq!(
        SimilarChecker::new().compression_size(65, 1).err(),
        Some(SimilarError::InvalidGridDimensions)
    );
    assert!(SimilarChecker::new().compression_size(1, 64).is_ok());
    assert!(SimilarChecker::new().compression_size(4, 16).is_ok());
}

#[test]
fn image_is_similar_to_its_copy() {
    let img = gradient(40, 30);
    assert!(SimilarChecker::new().is_similar(img.clone(), img));
    let flat = image::DynamicImage::ImageLuma8(image::GrayImage::from_pixel(9, 9, image::Luma([77])));
    assert!(SimilarChecker::new().threshold(1).is_similar(flat.clone(), flat));
}

#[test]
fn resized_copy_is_similar() {
    let c = SimilarChecker::new();
    assert!(c.is_similar(halves(64, 64, true), halves(32, 48, true)));
}

#[test]
fn mirrored_halves_are_not_similar() {
    let c = SimilarChecker::new();
    assert!(!c.is_similar(halves(64, 64, true), halves(64, 64, false)));
}

#[test]
fn small_grid_comparison() {
    let c = SimilarChecker::new().compression_size(4, 4).unwrap().threshold(2);
    assert!(c.is_similar(halves(20, 20, true), halves(20, 20, true)));
    assert!(!c.is_similar(halves(20, 20, true), halves(20, 20, false)));
}

#[test]
fn checked_comparison_refuses_empty_images() {
    let c = SimilarChecker::new();
    let empty = image::DynamicImage::ImageLuma8(image::GrayImage::new(0, 5));
    assert_eq!(
        c.is_similar_checked(empty.clone(), halves(8, 8, true)),
        Err(SimilarError::EmptyImage)
    );
    assert_eq!(
        c.is_similar_checked(halves(8, 8, true), empty),
        Err(SimilarError::EmptyImage)
    );
}

#[test]
fn checked_comparison_gives_verdict() {
    let c = SimilarChecker::new();
    assert_eq!(c.is_similar_checked(halves(64, 64, true), halves(32, 48, true)), Ok(true));
    assert_eq!(c.is_similar_checked(halves(64, 64, true), halves(64, 64, false)), Ok(false));
}
