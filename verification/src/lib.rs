use vstd::prelude::*;

pub mod cache;
pub mod config;
pub mod dais_record;
pub mod display_mode;
pub mod document;
pub mod engine;
pub mod export;
pub mod grouping_editor;
pub mod keybindings;
pub mod modes;
pub mod navigation;
pub mod notes;
pub mod notes_round_trip;
pub mod order;
pub mod overview;
pub mod pdfpc;
pub mod platform;
pub mod remote;
pub mod remote_requests;
pub mod render_queue;
pub mod saved_slides;
pub mod session;
pub mod sidecar;
pub mod slide_group;
pub mod status;
pub mod style;
pub mod text;
pub mod timer;
pub mod ui;

verus! {

} // verus!
