//! Archiving a folder's immediate children into a zip container and planning
//! the extraction of a container's entries under a target root.

pub mod archiver;
pub mod audit;
pub mod container;
pub mod error;
pub mod extractor;
pub mod laws;
pub mod names;
pub mod request;
