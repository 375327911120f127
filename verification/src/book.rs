//! The navigation structure handed to the book-rendering engine: one
//! chapter per module, one section per unit, one subsection per exercise,
//! each subsection associated with the exercise's description file.
use vstd::prelude::*;

verus! {

/// A subsection: an exercise's name and its description file.
pub struct Subsection {
    pub title: String,
    pub content_path: String,
}

/// A section: a unit's name and its exercise subsections.
pub struct Section {
    pub title: String,
    pub subsections: Vec<Subsection>,
}

/// A chapter: a module's name and its unit sections.
pub struct Chapter {
    pub title: String,
    pub sections: Vec<Section>,
}

/// The assembled navigation tree.
pub struct Book {
    pub chapters: Vec<Chapter>,
}

} // verus!
