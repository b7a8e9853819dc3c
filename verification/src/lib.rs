//! Renders a chess position as a raster image: piece artwork is resized to the
//! size of a square and laid over a board background, seen from either side.
//!
//! The library reads no files. Whoever calls it looks the artwork up where
//! [`asset`] says it is kept, hands over what was found, and gets the picture
//! or the theme back:
//!
//! - [`board`]: pieces, positions, and the order in which a side sees the
//!   squares;
//! - [`asset`]: the paths of a theme's artwork;
//! - [`raster`]: images in memory, and their resizing;
//! - [`art`]: the pictures found for the pieces;
//! - [`overlay`]: laying one image over another, all or nothing;
//! - [`compose`]: what the picture of a position is, and the drawing of it;
//! - [`img`]: themes, and `position_to_image`.

pub mod art;
pub mod asset;
pub mod board;
pub mod compose;
pub mod img;
pub mod overlay;
pub mod raster;
