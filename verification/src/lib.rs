//! Film-emulation toolkit: layer stacks, integer pixel kernels, film-stock
//! name matching and style tables.

pub mod layers;
pub mod text;
pub mod presets;
pub mod lookup;
pub mod image;
pub mod styles;
pub mod platform;
pub mod files;
pub mod exif;
pub mod stats;
pub mod studio;
