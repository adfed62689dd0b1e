//! Merge engine for browser-rendered page documents.
//!
//! The library treats a set of independently rendered documents as graphs of
//! typed, cross-referencing objects, imports and renumbers those graphs into
//! one id namespace, rebuilds the root structures, splices the per-source
//! outline trees into one tree, resolves site-internal hyperlinks to
//! in-document destinations, optionally stamps a page-number overlay on every
//! page, and compacts the final graph into a dense id space.

use vstd::prelude::*;

pub mod compact;
pub mod config;
pub mod document;
pub mod import;
pub mod links;
pub mod names;
pub mod numbering;
pub mod object;
pub mod outline;
pub mod pipeline;
pub mod structure;
pub mod text;

verus! {

/// A fatal merge failure: the inputs are not well-formed documents and no
/// output is produced.  Unresolved links are not errors — they are collected
/// and reported alongside a completed merge.
#[derive(PartialEq, Eq, Structural, Clone, Copy, Debug)]
pub enum MergeError {
    /// Renumbering a source would push an object number past the id space.
    IdSpaceExhausted,
    /// A source lists a page whose object is missing from its table.
    MissingPageObject,
    /// No page-tree root was found across all sources.
    NoPages,
    /// No catalog was found across all sources.
    NoCatalog,
    /// A catalog's destination table is not a reference to a dictionary.
    BadDestinations,
    /// An outline object is not a dictionary, or an outline root lacks a
    /// required field (`Count` as an integer, `First`/`Last` as references).
    BadOutline,
    /// An outline sibling chain does not terminate within the object table.
    OutlineCycle,
    /// Summing the outline counts leaves the integer range.
    CountOverflow,
    /// A page's annotation list is not an array of references to
    /// dictionaries.
    BadAnnotations,
    /// A link annotation carries an action without a text target.
    MissingUri,
    /// A page object of the merged document is not a dictionary, or its
    /// content entry has an unusable shape.
    BadPage,
    /// A page's resources, or its font table, is present but not a direct
    /// dictionary.
    BadResources,
    /// A color channel of the numbering style lies outside the unit range.
    InvalidColor,
    /// The numbering style names a font outside the standard built-in set.
    InvalidFont,
    /// A recorded first-page ordinal does not name a page of the merged
    /// document.
    PageOrdinalOutOfRange,
}

/// Default directory for caching downloaded browser builds, used by callers
/// that drive the out-of-scope rendering collaborator.
pub fn default_cache_path() -> (p: String)
    ensures
        p@ == "/tmp"@,
{
    "/tmp".to_owned()
}

} // verus!
