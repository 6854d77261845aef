//! A sparse engine for two-state cellular automata of the Life family. The
//! plane reaches as far as an `i32` counts and is mostly dead, so only the
//! live cells are stored, and a generation looks only at the cells that lie
//! within one step of a live cell.
//!
//! - `rules`: the conditions that decide a cell's fate from the number of its
//!   live neighbours;
//! - `cells`: the set of live cells;
//! - `grid`: the neighbour count and the step to the next generation;
//! - `plane`: the step is a generation on the plane of all integers, as long
//!   as no live cell touches the edge;
//! - `pattern`: placing a glider, or another shape, on the plane;
//! - `viewport`: between the points of a window and the cells drawn there;
//! - `controls`: what each input of the keyboard, the pointer and the window
//!   does to the view and to the live cells.

pub mod rules;
pub mod cells;
pub mod grid;
pub mod plane;
pub mod pattern;
pub mod viewport;
pub mod controls;
