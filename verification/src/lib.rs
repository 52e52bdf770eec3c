//! Content-aware image resizing by seam carving.
//!
//! An image is shrunk one seam at a time: the energy of every pixel is
//! computed, a dynamic program finds the connected path of least total
//! energy across the image, and that path is cut out.  Every step is
//! specified over a mathematical model of the image and proved against it.

pub mod axis;
pub mod carve;
pub mod energy;
pub mod overlay;
pub mod percentage;
pub mod pixel_colors;
pub mod raster;
pub mod resize;
pub mod seam;
pub mod symmetry;

pub use axis::Axis;
pub use carve::{delete_seam_height, delete_seam_width};
pub use energy::{calculate_energy_map_height, calculate_energy_map_width, energy_map};
pub use overlay::{max_energy, overlay_seam};
pub use percentage::parse_percentage;
pub use pixel_colors::PixelColors;
pub use raster::{Image, ImageView};
pub use resize::{
    adjust_height, adjust_width, carve_once, resize, resize_with_sink, CarvedSeam, ResizeError,
};
pub use seam::{find_low_energy_seam_height, find_low_energy_seam_width, find_min_seam};
