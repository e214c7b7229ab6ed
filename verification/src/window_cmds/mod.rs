//! The builtins on windows and frames.
pub mod args;
pub mod create;
pub mod create_laws;
pub mod display;
pub mod edit;
pub mod family_laws;
pub mod frame_laws;
pub mod frame_size;
pub mod frames;
pub mod geometry;
pub mod laws;
pub mod listing;
pub mod motion_laws;
pub mod order;
pub mod parameter_laws;
pub mod place_laws;
pub mod position;
pub mod query;
pub mod records;
pub mod resize;
pub mod resolve;
pub mod return_laws;
pub mod scroll;
pub mod scroll_laws;
pub mod select_laws;
pub mod shown_laws;
pub mod size_laws;
pub mod split_laws;
pub mod state;
pub mod step_laws;
pub mod vars;
