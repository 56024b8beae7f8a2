//! Two small verified algorithms: summary statistics (mean numerator,
//! median, mode) over a vector of integers, and a pig-latin-like word
//! transformation driven by a fixed vowel set.

pub mod stats;
pub mod pig_latin;
