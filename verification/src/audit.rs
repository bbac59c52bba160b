//! Audiologo audit: corpus entries, seed matching and the HTML report.

pub mod clips;
pub mod entry;
pub mod match_seed;
pub mod report;
pub mod report_laws;
pub mod seed;
pub mod walk;
pub mod waveform;
