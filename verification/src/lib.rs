//! Tiling geometry for printing an oversized image on a narrow
//! continuous-feed monochrome printer.
//!
//! The engine derives a virtual canvas from the source image's size and the
//! desired output width, then walks that canvas in a row-major raster and
//! emits one [`CropInfo`] descriptor per print pass: which rectangle of the
//! source to crop, what size to resample it to, whether blank padding is
//! needed at the bottom edge, and whether the pass completes a strip (which
//! triggers a cut). It is pure, deterministic integer geometry; decoding,
//! resampling, dithering and device I/O stay with the caller.

mod crop_bounds;

pub use crop_bounds::CropBounds;
pub use crop_bounds::CropBoundsIterator;
pub use crop_bounds::CropInfo;
