use vstd::prelude::*;

pub mod app_state;
pub mod canvas;
pub mod checkpoint;
pub mod document;
pub mod geometry;
pub mod history;
pub mod ident;
pub mod interaction;
pub mod node;
pub mod requests;
pub mod resize;
pub mod seq_util;
pub mod stacking;
pub mod tabs;
pub mod text;
