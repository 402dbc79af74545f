//! Near-duplicate image detection: perceptual fingerprints compared by
//! Hamming distance over every pair of images, pairs selected by a distance
//! threshold, and duplicates relocated only into a destination proven
//! writable.
pub mod fingerprint;
pub mod loader;
pub mod monitor;
pub mod options;
pub mod pairs;
pub mod relocation;
pub mod selector;

pub use fingerprint::{hamming_distance, DecodedImage, Fingerprint, Fingerprinter, HashAlgorithm};
pub use loader::{select_paths, InvalidFilter, LoadOutcome, LoadTally, NameFilter};
pub use monitor::{backlog_warning, MonitorAction, QueueMonitor};
pub use options::{parse_algo, parse_dimension, parse_hash_size};
pub use pairs::{all_fingerprints_fit, combinations, pair_distances, score_pair, Fingerprinted, ScoredPair};
pub use relocation::{get_filename, get_filename_unchecked, Relocation, RelocationAction, RelocationEvent, RelocationState};
pub use selector::{duplicate_set, filter_max_dist, sort_for_report};
