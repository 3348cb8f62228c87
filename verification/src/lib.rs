//! The editor workspace's state and decisions: dialogs and their fields,
//! the cloud gallery's paging and culling, metadata forms, canvas
//! transforms and the paths and names the cloud side writes.
use vstd::prelude::*;

pub mod text;
pub mod assets;
pub mod culling;
pub mod documents;
pub mod raster;
pub mod line_edit;
pub mod numbers;
pub mod metadata;
pub mod cloud_paths;
pub mod clipboard;
pub mod modal;
pub mod workspace;
pub mod fields;
pub mod field_commit;
pub mod field_keys;
pub mod canvas;
pub mod recipes;
pub mod mask_refine;
pub mod filter_stack;
pub mod cloud_view;
pub mod cloud_sync;
pub mod similar;
pub mod import_target;
pub mod search;
pub mod export_report;
pub mod workflows;
pub mod keys;
pub mod submit;
pub mod gallery_review;
pub mod thumbnail_queue;
pub mod session;
pub mod download_names;
pub mod doc_sync;
pub mod viewport_queue;

verus! {
} // verus!
