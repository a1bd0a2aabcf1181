//! Planning layer of an idempotent fetch/transform/cache pipeline for
//! geographic source data.
//!
//! Each operation of the pipeline (fetching a dataset, converting a KML file,
//! clipping an OSM extract, building a map from its raw representation) is
//! split in two: a verified planner here that decides, from the target path,
//! the source URL and the cache gate's answers, exactly which steps are to be
//! taken and in what order; and a thin driver that carries the steps out by
//! running the external tools. The contracts pin every plan down to the step,
//! so the cache-gate idempotence, the format dispatch and the KML sidecar
//! reuse rules are proved rather than tested alone.

pub mod action;
pub mod laws;
pub mod paths;
pub mod plans;
pub mod shapes;
