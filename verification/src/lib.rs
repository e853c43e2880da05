//! Paths over geographic coordinates, from their text to their segments.
//!
//! The input is a list of decimal numbers separated by commas: latitude and
//! longitude in turn, in degrees. [`text::tokenize`] cuts it into fields. The
//! caller reads each field as a number and hands the fields on to
//! [`path::read_path`], which takes the numbers two by two as coordinates and
//! checks each against the geographic bounds. Of the [`path::Path`] that
//! results, [`path::Path::segments`] gives the pairs of points between which
//! the distances are to be taken and added up.
//!
//! A number is held as the bit pattern of an IEEE 754 binary64 value. The
//! library compares such numbers and never computes with them: [`binary64`]
//! says which number a pattern denotes, and everything is proved of that.

pub mod binary64;
pub mod coordinate;
pub mod path;
pub mod text;

pub use coordinate::{validate_coordinates, Coordinate};
pub use path::{read_path, Field, InputError, Path};
pub use text::tokenize;
