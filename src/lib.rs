//! Disk sanitization engine: classifies storage devices from the text that
//! identification tools print, and drives the erasure of each device as a
//! verified state machine whose commands are carried out by the caller.

pub mod classify;
pub mod disk;
pub mod erase;
pub mod report;
pub mod text;
