//! What the operations of the store do, in terms of what they are asked and of what comes of their
//! steps.

pub mod copies;
pub mod gets;
pub mod obliterations;
pub mod puts;
