//! Verified core of a set of animated GUI widgets: the discrete logic of
//! playback, selection, paging, text editing, expression parsing and
//! shadow rasterisation, separated from drawing.

pub mod style;
pub mod expr;
pub mod edit;
pub mod gif;
pub mod slider;
pub mod fisheye;
pub mod toggle;
pub mod blur;
pub mod decode;
pub mod shadow;
pub mod cache;
pub mod spin;
pub mod raster;
