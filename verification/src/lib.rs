//! A small library that sorts the files of one directory into two
//! destination directories — photos and videos — by file extension.
//!
//! The library holds the decision logic: extracting an extension from a
//! file name, classifying it case-insensitively, deciding which files may
//! be moved without overwriting anything at the destination, and
//! aggregating per-file move outcomes. The surrounding program performs
//! the filesystem work and hands plain values in and out.

pub mod classify;
pub mod file_name;
pub mod laws;
pub mod plan;
pub mod report;
