use crate::fingerprint::{
    average_hash, fingerprint, get_distance, hamming, hashed_cells, lemma_distance_identity,
};
use crate::raster::{
    dimensions, dims_of, grayscaled, has_pixels, lanczos_resized, red_channel, reds_of, resize_lanczos3,
    to_grayscale,
};
use vstd::arithmetic::power2::pow2;
use vstd::prelude::*;

verus! {

/// Largest number of grid cells: one fingerprint bit per cell.
pub const MAX_CELLS: usize = 64;

/// Why a configuration was refused.
#[derive(Debug, Clone, Copy, PartialEq, Eq, Structural)]
pub enum SimilarError {
    /// The grid has a zero side, or more cells than a fingerprint has bits.
    InvalidGridDimensions,
    /// An image has no pixel, so it has no mean brightness.
    EmptyImage,
}

/// A grid that a fingerprint can hold: both sides positive, at most one cell per bit.
pub open spec fn valid_grid(width: nat, height: nat) -> bool {
    0 < width && 0 < height && width * height <= MAX_CELLS
}

/// Settings for comparing images: the greatest distance (exclusive) at which two
/// images count as similar, and the grid that each image is shrunk to.
pub struct SimilarChecker {
    threshold: usize,
    compressed_w: usize,
    compressed_h: usize,
}

impl Default for SimilarChecker {
    /// Threshold 10 on an 8 by 8 grid.
    fn default() -> (r: Self)
        ensures
            r.threshold_of() == 10,
            r.grid_width() == 8,
            r.grid_height() == 8,
    {
        SimilarChecker::new()
    }
}

impl SimilarChecker {
    #[verifier::type_invariant]
    spec fn grid_fits(self) -> bool {
        &&& valid_grid(self.compressed_w as nat, self.compressed_h as nat)
        &&& self.compressed_w <= MAX_CELLS
        &&& self.compressed_h <= MAX_CELLS
    }

    /// Distances strictly below this count as similar.
    pub closed spec fn threshold_of(self) -> nat {
        self.threshold as nat
    }

    /// Width of the grid, in cells.
    pub closed spec fn grid_width(self) -> nat {
        self.compressed_w as nat
    }

    /// Height of the grid, in cells.
    pub closed spec fn grid_height(self) -> nat {
        self.compressed_h as nat
    }

    /// Number of grid cells, which is the number of fingerprint bits compared.
    pub open spec fn cell_count(self) -> nat {
        self.grid_width() * self.grid_height()
    }

    /// The verdict on two fingerprints.
    pub open spec fn fingerprints_similar(self, hash1: u64, hash2: u64) -> bool {
        hamming(hash1, hash2, self.cell_count()) < self.threshold_of()
    }

    /// The gray grid that an image is shrunk to.
    pub open spec fn gray_grid(self, img: image::DynamicImage) -> Seq<u8> {
        reds_of(
            grayscaled(lanczos_resized(img, self.grid_width() as u32, self.grid_height() as u32)),
        )
    }

    /// The verdict on two images.
    pub open spec fn images_similar(self, img1: image::DynamicImage, img2: image::DynamicImage) -> bool {
        self.fingerprints_similar(
            fingerprint(self.gray_grid(img1)) as u64,
            fingerprint(self.gray_grid(img2)) as u64,
        )
    }

    /// Threshold 10 on an 8 by 8 grid.
    pub fn new() -> (r: Self)
        ensures
            r.threshold_of() == 10,
            r.grid_width() == 8,
            r.grid_height() == 8,
    {
        SimilarChecker { threshold: 10, compressed_w: 8, compressed_h: 8 }
    }

    /// The same settings on a `width` by `height` grid, or
    /// `InvalidGridDimensions` where a fingerprint cannot hold that grid.
    pub fn compression_size(self, width: usize, height: usize) -> (r: Result<Self, SimilarError>)
        ensures
            valid_grid(width as nat, height as nat) <==> r is Ok,
            r matches Ok(c) ==> c.grid_width() == width && c.grid_height() == height
                && c.threshold_of() == self.threshold_of(),
            r matches Err(e) ==> e == SimilarError::InvalidGridDimensions,
    {
        if width == 0 || height == 0 || width > MAX_CELLS || height > MAX_CELLS / width {
            proof {
                if width > 0 && width <= MAX_CELLS && height > MAX_CELLS / width {
                    assert(width * height > MAX_CELLS) by (nonlinear_arith)
                        requires
                            width > 0,
                            height > MAX_CELLS / width,
                    ;
                }
                if width > MAX_CELLS && height > 0 {
                    assert(width * height >= width) by (nonlinear_arith)
                        requires
                            height > 0,
                    ;
                }
            }
            Err(SimilarError::InvalidGridDimensions)
        } else {
            assert(width * height <= MAX_CELLS && height <= MAX_CELLS) by (nonlinear_arith)
                requires
                    width > 0,
                    height <= MAX_CELLS / width,
            ;
            Ok(SimilarChecker { compressed_w: width, compressed_h: height, ..self })
        }
    }

    /// The same grid with another threshold.
    pub fn threshold(self, threshold: usize) -> (r: Self)
        ensures
            r.threshold_of() == threshold,
            r.grid_width() == self.grid_width(),
            r.grid_height() == self.grid_height(),
    {
        proof {
            use_type_invariant(&self);
        }
        SimilarChecker { threshold, ..self }
    }

    /// Whether two fingerprints of this grid are close enough to be similar.
    pub fn is_similar_fingerprints(&self, hash1: u64, hash2: u64) -> (r: bool)
        ensures
            r == self.fingerprints_similar(hash1, hash2),
    {
        proof {
            use_type_invariant(self);
        }
        let distance = get_distance(hash1, hash2, self.compressed_w * self.compressed_h);
        distance < self.threshold
    }

    /// Whether two images look alike: each is shrunk to the grid and hashed,
    /// and the fingerprints are compared.
    pub fn is_similar(&self, img1: image::DynamicImage, img2: image::DynamicImage) -> (r: bool)
        requires
            has_pixels(img1),
            has_pixels(img2),
        ensures
            r == self.images_similar(img1, img2),
    {
        proof {
            use_type_invariant(self);
        }
        let w = self.compressed_w as u32;
        let h = self.compressed_h as u32;
        let hash1 = get_hash(process(img1, w, h));
        let hash2 = get_hash(process(img2, w, h));
        self.is_similar_fingerprints(hash1, hash2)
    }

    /// Whether two images look alike, or `EmptyImage` where either has no pixel.
    pub fn is_similar_checked(&self, img1: image::DynamicImage, img2: image::DynamicImage) -> (r:
        Result<bool, SimilarError>)
        ensures
            (has_pixels(img1) && has_pixels(img2)) <==> r is Ok,
            r matches Ok(b) ==> b == self.images_similar(img1, img2),
            r matches Err(e) ==> e == SimilarError::EmptyImage,
    {
        let (w1, h1) = dimensions(&img1);
        let (w2, h2) = dimensions(&img2);
        if w1 == 0 || h1 == 0 || w2 == 0 || h2 == 0 {
            Err(SimilarError::EmptyImage)
        } else {
            Ok(self.is_similar(img1, img2))
        }
    }
}

/// Shrinks an image to `w` by `h` pixels and turns it gray.
fn process(img: image::DynamicImage, w: u32, h: u32) -> (r: image::DynamicImage)
    requires
        has_pixels(img),
        0 < w,
        0 < h,
    ensures
        r == grayscaled(lanczos_resized(img, w, h)),
        dims_of(r) == (w, h),
{
    to_grayscale(&resize_lanczos3(&img, w, h))
}

/// Average hash of an image's pixels, taken in row-major order: one bit per
/// pixel, so only the lowest `width * height` bits (at most 64) can be set.
pub fn get_hash(img: image::DynamicImage) -> (r: u64)
    requires
        has_pixels(img),
    ensures
        r == fingerprint(reds_of(img)),
        reds_of(img).len() == dims_of(img).0 as nat * dims_of(img).1 as nat,
        r < pow2(hashed_cells(reds_of(img))),
{
    let cells = red_channel(&img);
    average_hash(&cells)
}

/// Average hash of an image, or `EmptyImage` where it has no pixel.
pub fn get_hash_checked(img: image::DynamicImage) -> (r: Result<u64, SimilarError>)
    ensures
        has_pixels(img) <==> r is Ok,
        r matches Ok(h) ==> h == fingerprint(reds_of(img)),
        r matches Err(e) ==> e == SimilarError::EmptyImage,
{
    let (width, height) = dimensions(&img);
    if width == 0 || height == 0 {
        Err(SimilarError::EmptyImage)
    } else {
        Ok(get_hash(img))
    }
}

/// An image is similar to itself under any positive threshold: both copies
/// shrink to the same grid, so their fingerprints are at distance zero.
pub proof fn lemma_similar_reflexive(checker: SimilarChecker, img: image::DynamicImage)
    requires
        checker.threshold_of() > 0,
    ensures
        checker.images_similar(img, img),
{
    let hash = fingerprint(checker.gray_grid(img)) as u64;
    lemma_distance_identity(hash, checker.cell_count());
}

/// The threshold is exclusive: fingerprints exactly `threshold` bits apart are
/// not similar, and ones a bit closer are.
pub proof fn lemma_threshold_boundary(checker: SimilarChecker, hash1: u64, hash2: u64)
    ensures
        hamming(hash1, hash2, checker.cell_count()) == checker.threshold_of()
            ==> !checker.fingerprints_similar(hash1, hash2),
        hamming(hash1, hash2, checker.cell_count()) + 1 == checker.threshold_of()
            ==> checker.fingerprints_similar(hash1, hash2),
{
}

} // verus!
