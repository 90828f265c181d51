//! Rook — the verified core of a non-linear video editor.
//!
//! The crate holds the editing model (projects, timelines, tracks, clips,
//! multicam groups, plugins), the undo/redo history, the rule set that turns
//! an [`commands::EditCommand`] into a change of a [`project::Project`], the
//! byte-budgeted frame cache, and the small configuration and naming tables
//! used around decoding and export.  File, process and GPU work lives outside.

pub mod num;
pub mod ids;
pub mod time;
pub mod transform;
pub mod keyframe;
pub mod effect;
pub mod clip;
pub mod error;
pub mod track;
pub mod marker;
pub mod timeline;
pub mod multicam;
pub mod plugin;
pub mod canvas;
pub mod asset;
pub mod project;
pub mod history;
pub mod commands;
pub mod apply;
pub mod restructure;
pub mod multicam_edit;
pub mod plugin_edit;
pub mod edit;
pub mod fits;
pub mod cache;
pub mod text;
pub mod platform;
pub mod media;
pub mod jobs;
pub mod ipc;
pub mod exchange;
pub mod fcpxml;
pub mod edl;
pub mod edl_read;
pub mod fcp7;
pub mod xml_out;
pub mod exporter;
pub mod mlt_plan;
pub mod decoder_select;
pub mod graph;
pub mod crash;
pub mod views;
pub mod decode;
pub mod planes;
pub mod copy;
pub mod resolve;
pub mod repair;
pub mod proxy;
pub mod engine;
