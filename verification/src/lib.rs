//! Assembles a hierarchical curriculum description — track, modules,
//! units, topics, exercises — into a planned output tree: per-unit slide
//! documents produced by substituting aggregated topic content into a
//! template, selectively copied exercise files under numbered tags, and a
//! chapter/section/subsection navigation structure for the
//! book-rendering engine.
//!
//! The library is the pure core of the pipeline. Reading config files,
//! walking directories and writing the output tree are the surrounding
//! program's concern; the library resolves every path reference against
//! its declaring file, validates the output-directory request, renders
//! the documents, selects the files, and hands back the exact plan of
//! what to put on disk.
use vstd::prelude::*;

pub mod aggregate;
pub mod book;
pub mod errors;
pub mod globmatch;
pub mod laws;
pub mod paths;
pub mod plan;
pub mod tag;
pub mod template;
pub mod textops;
pub mod types;
