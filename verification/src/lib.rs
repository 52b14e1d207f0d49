//! Update gating: plans package-manager updates behind release-age, version
//! policy and vulnerability checks, and models the interactive picker.
pub mod text;
pub mod domain;
pub mod keyed;
pub mod release;
pub mod timestamps;
pub mod plan;
pub mod selection;
pub mod versions;
pub mod classify;
pub mod evaluate;
pub mod adapter;
pub mod planner;
pub mod audit;
pub mod laws;
pub mod mise;
pub mod bun;
pub mod platform_artifacts;
pub mod mise_metadata;
pub mod pipx;
pub mod notes;
pub mod selection_view;
pub mod selection_state;
pub mod screen;
pub mod components;
pub mod outcome;
pub mod infra;
pub mod cli;
pub mod batch;
pub mod scan;
pub mod execution;
pub mod snapshot;
pub mod tabs;
pub mod width;
