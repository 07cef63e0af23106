//! Flashbang: writing disk images onto removable drives.
//!
//! The library decides which block devices an image may be written to, what
//! must be unmounted first, and in which order the work of a flash is done;
//! reading devices and files and writing to them is left to its callers.
pub mod devices;
pub mod flash;
pub mod gui;
pub mod images;
pub mod report;
pub mod text;
pub mod writer;
