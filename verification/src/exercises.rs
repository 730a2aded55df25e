//! Small verified exercises over integers, slices, vectors, strings and
//! functions-as-values, each proved against an exact contract.

pub mod closures;
pub mod collections;
pub mod iterators;
pub mod moves;
pub mod numeric;
pub mod references;
pub mod robot;
pub mod strings;
pub mod traits;
pub mod utility;
