//! A bouncing-text canvas: every line of a text travels left and right across
//! the screen and turns round at the edges.  The crate holds the rules of that
//! motion, the command-line grammar and the splitting of a text into lines.
//! Each function carries a contract.  Verus proves them all but those of the
//! calls into the `rand` crate, which it takes on trust.

pub mod line_state;
mod random;
pub mod canvas;
pub mod speed;
pub mod args;
pub mod text;
