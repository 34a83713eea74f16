//! A single-axis flexible-box layout solver and a grid partitioner.
//!
//! Lengths are whole pixels. A `Layout` collects keyed items, each sized in
//! fixed pixels, as a percentage of the main axis, or as a flex weight, and
//! `Layout::solve` assigns every item its rectangle inside a frame.

mod error;
mod geometry;
mod grid;
mod key;
mod laws;
mod layout;

pub use error::{LayoutError, LayoutErrorKind};
pub use grid::{grid, Ratio};
pub use geometry::{Alpha, Direction, Lerp, Padding, Rect, MAX_COORD};
pub use key::{Key, KeyKind};
pub use laws::{law_flex_distribution, law_flex_fills, law_order, law_percent_as_pixels, law_percent_resolution, law_pixel_only};
pub use layout::{Item, OnLayout, PlacementLog, Layout, LayoutInfo, LayoutView, Placement, Size, Spec};
pub use geometry::{axis_length, axis_origin};
pub use grid::{along, cell_values, centered, fits_width, gap_of, grid_valid, min_size, rect_is, some_cell_unfit, spacing_pixels, values_fit};
pub use key::{decimal, digit_char, prefix_of};
pub use layout::{law_keys_distinct, added, fixed_len, fixed_upto, flex_edge, solved, spec_of, weight, weight_upto};
