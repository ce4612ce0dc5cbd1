//! Perceptual image comparison by average hash.
//!
//! An image is shrunk to a small grid of gray cells; each cell gives one bit
//! of a fingerprint, set when the cell is brighter than the grid's mean.
//! Two images are judged similar when their fingerprints differ in fewer
//! bits than a configured threshold.

mod fingerprint;
mod raster;
mod checker;

pub use fingerprint::{
    above_mean, average_hash, bit, cell_sum, fingerprint, fingerprint_bits, get_distance, hamming,
    hashed_cells, lemma_distance_identity, lemma_distance_symmetric, lemma_fingerprint_bits_bound,
    lemma_uniform_grid_hashes_to_zero,
};
pub use checker::{
    get_hash, get_hash_checked, lemma_similar_reflexive, lemma_threshold_boundary, valid_grid, SimilarChecker,
    SimilarError, MAX_CELLS,
};
pub use raster::{dims_of, grayscaled, has_pixels, lanczos_resized, reds_of};
