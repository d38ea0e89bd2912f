//! Run-scoped orchestration of a two-stage image analysis pipeline: staging
//! of source images under collision-free names, clearing of the run input
//! directory, sequencing of the detection and judgment stages, ingestion of
//! the judgment results and lookup of annotated images.

pub mod text;
pub mod names;
pub mod workspace;
pub mod locate;
pub mod results;
pub mod runid;
pub mod log;
pub mod environment;
pub mod pipeline;
