//! Integer rules for image-processing programs, each with a contract proved by Verus.
//!
//! Nothing here touches an image. The functions take and return pixel positions, boxes
//! and indices, and decide what a program built on a vision library does with them:
//!
//! - `geometry`: points, boxes, strokes, and the center of a box;
//! - `traffic`: which boxes are vehicles, and the tally of those reaching a line;
//! - `outline`: the closed outline through a list of corners;
//! - `matching`: from groups of descriptor matches to pairs of key points;
//! - `pixel`: rewriting a value from the position it stands at.

pub mod geometry;
pub mod matching;
pub mod outline;
pub mod pixel;
pub mod traffic;
