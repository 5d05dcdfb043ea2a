//! A Dark Room as a library: the village, its clock and pacing, the wasteland,
//! and the small input rules of the doors around it.
use vstd::prelude::*;

pub mod chance;
pub mod collections;
pub mod data;
pub mod dcss;
pub mod encounter;
pub mod door;
pub mod event;
pub mod fight;
pub mod identity;
pub mod landing;
pub mod model;
pub mod pace;
pub mod screen;
pub mod sim;
pub mod space;
pub mod state;
pub mod ui;
pub mod world;
pub mod world_data;

verus! {
}
