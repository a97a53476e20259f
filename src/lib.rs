//! Track reconstruction, statistics and export for GPS location reports.
//!
//! The library holds the logic: the accuracy filter, the single-pass
//! accumulators, the grouping of stored rows into day tracks, and the
//! document models of the exports. Rendering the documents to text, storage
//! and transport belong to the application around it.
pub mod assets;
pub mod db;
pub mod filter;
pub mod geojson;
pub mod gpx;
pub mod mqtt;
pub mod owntracks;
pub mod reconstruct;
pub mod stats;
pub mod time_text;
pub mod value;
