//! Core logic of a video-harvest coordination pipeline.
//!
//! On each upstream event the pipeline decides whether enough new source
//! material exists to cut a new harvest clip, and — once multiple clip
//! segments exist — whether the full expected set of segments has landed so
//! a downstream transcode job can be triggered.  This crate holds the parts
//! with real invariants: per-key harvest state tracking, the harvest
//! decision processors, manifest-key parsing and segment-completion
//! detection, and the derivation of deterministic dispatch requests.
//! Network collaborators (the state store, the object listing service and
//! the job submission service) are driven by a thin unverified shell that
//! hands this crate plain values and performs the calls it plans.

pub mod bytestr;
pub mod config;
pub mod digits;
pub mod dispatch;
pub mod engine;
pub mod errors;
pub mod segments;
pub mod state;
