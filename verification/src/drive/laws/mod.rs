//! What the requests do, in terms of what they are asked and of what comes of their steps.

pub mod archives;
pub mod downloads;
pub mod folders;
pub mod listings;
pub mod lookups;
pub mod moves;
pub mod openings;
pub mod paths;
pub mod replies;
pub mod serving;
pub mod uploads;
