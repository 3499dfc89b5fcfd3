//! Generic numeric value types for elementary signal analysis: a complex
//! number type and a real sinusoid type, both generic over a scalar that
//! implements a small hierarchy of numeric capability traits.

pub mod complex;
pub mod num_traits;
pub mod sinusoid;
