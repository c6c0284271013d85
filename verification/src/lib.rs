//! The value type of a ray tracer: a vector of three binary64 numbers that
//! serves as a direction, as a point and as a colour, and the line of text
//! that stands for a pixel of a colour.
//!
//! Everything here is verified, and nothing here rounds. A number is held
//! as its IEEE 754 binary64 encoding, an integer, and the library does with
//! it what is exact: it keeps and hands out the components of a vector,
//! compares and negates them, rounds a scaled channel toward zero to a
//! level, and writes the level in base 10, in full, whatever its size.
//! What rounds to the nearest binary64 number (a sum, a product, a
//! quotient, a square root) is the caller's to compute, in floating point.

pub mod binary64;
pub mod colors;
pub mod decimal;
pub mod natural;
pub mod vec3;
