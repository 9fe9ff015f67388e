//! Annotation model and rasteriser for marking up screenshots.
//!
//! A document is a picture and an ordered history of annotations:
//! rectangles, ellipses, lines, arrows, freehand strokes, numbered markers
//! and text.  Annotations live in image space.  A view transform carries
//! them to the screen for the live view, and the compositor burns them into
//! the pixels of the picture, later ones over earlier ones.
//!
//! Every coordinate and length of image space is a whole number of
//! coordinate units, 1024 to the pixel, so that all geometry is exact
//! integer arithmetic: the same shapes cover the same samples on every
//! machine, and the contracts can say which.  Screen space is held finer,
//! in screen units of which 2^30 make a pixel, so that an image point that
//! is carried to the screen and back comes out as it went in at every zoom.
//! Screen positions and colours of a toolkit are converted at the edge of
//! the library.
//!
//! - [`fixed`], [`geometry`], [`color`]: scalars, points and colours.
//! - [`utils`], [`viewport`]: the view transform, zoom and pan.
//! - [`toolbar`], [`operators`], [`document`]: tools, gestures, annotations
//!   and their history.
//! - [`canvas`], [`coverage`], [`raster`], [`font`], [`drawable`],
//!   [`compositor`]: the pixel buffer, regions and their coverage, painting,
//!   glyphs, drawing one annotation, and rendering them all.
//! - [`color_picker`]: the state of the colour picker.

pub mod canvas;
pub mod color;
pub mod color_picker;
pub mod compositor;
pub mod coverage;
pub mod document;
pub mod drawable;
pub mod fixed;
pub mod font;
pub mod geometry;
pub mod operators;
pub mod raster;
pub mod toolbar;
pub mod utils;
pub mod viewport;
