//! Core of a desktop video-editing tool: the durable project/timeline data
//! model, the rough-cut synthesis algorithm that turns "ranges to remove"
//! into a playable timeline, and the bookkeeping around the external
//! pipeline stages (transcription, enrichment, rendering).
pub mod errors;
pub mod jsondoc;
pub mod paths;
pub mod pipeline;
pub mod project;
pub mod ranges;
pub mod stamp;
pub mod telemetry;
pub mod text;
pub mod timeline;
