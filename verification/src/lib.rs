//! Verified core of a sequencer-output ingest tool.
//!
//! The library recognizes which instrument family produced a run directory,
//! interprets the two instrument-written XML manifests, derives a canonical
//! flow cell record, plans which base-call files must be read to sample an
//! index read, decodes the three base-call container formats, aggregates
//! index-adapter histograms, and decides the synchronization steps against
//! the companion REST service.
//!
//! Everything that touches the world — directory walking, file reads, HTTP —
//! stays outside; callers hand the library plain values (marker flags,
//! file bytes, directory listings, resolve outcomes) and get plain values
//! back, so every decision and every decode is verified.

pub mod bcl;
pub mod dates;
pub mod digits;
pub mod errors;
pub mod flowcell;
pub mod histogram;
pub mod layout;
pub mod manifest;
pub mod reads;
pub mod settings;
pub mod stacks;
pub mod strutil;
pub mod xmlio;

pub use errors::IngestError;
pub use layout::{FolderLayout, LayoutMarkers, guess_folder_layout};
