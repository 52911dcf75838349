//! Library for a dictionary-lookup launcher plugin: it turns a dictionary
//! service's definition records into a monospace-tagged text block, a list of
//! clipboard-copy actions, and a single output envelope, classifying the
//! service's response shapes along the way.

pub mod classify;
pub mod format;
pub mod model;
pub mod text;
pub mod trim;
