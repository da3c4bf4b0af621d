//! A fixed-length, heap-owned array of plain-data elements, with a forward
//! cursor over it and a sequence codec that rebuilds it element by element.

pub mod array;
pub mod iter;
pub mod codec;
