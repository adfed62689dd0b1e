//! The whole merge, one call: import and renumber the sources, rebuild the
//! root structures, splice the outlines, rewrite the site-internal links,
//! stamp page numbers when a style is configured, then compact the id space
//! and repoint any dangling bookmark.  The problem lists ride out next to
//! the finished document; writing its bytes is the caller's affair.

use vstd::prelude::*;

use crate::compact::{compact_ids, compact_spec, repoint_dangling_bookmarks, repoint_spec};
use crate::config::PageNumber;
use crate::document::{Document, DocumentV};
use crate::import::{import_documents, import_fold, init_parts, sources_view, SourceDoc, SourceV};
use crate::links::{byte_lists_view, rewrite_links, rewrite_spec};
use crate::numbering::{add_page_numbers, number_spec};
use crate::structure::{build_document, build_spec};
use crate::MergeError;

verus! {

/// The whole merge over the sources' values: the stages composed in
/// pipeline order, every failure the failing stage's own.
pub open spec fn merge_spec(
    ss: Seq<SourceV>,
    base: Seq<u8>,
    style: Option<PageNumber>,
) -> Result<(DocumentV, Seq<Seq<u8>>, Seq<Seq<u8>>), MergeError> {
    match import_fold(ss, init_parts()) {
        Err(e) => Err(e),
        Ok(p) => match build_spec(p) {
            Err(e) => Err(e),
            Ok(d1) => match rewrite_spec(d1, base, p.ordinals) {
                Err(e) => Err(e),
                Ok(rw) => match (match style {
                    Some(st) => number_spec(rw.0, st),
                    None => Ok(rw.0),
                }) {
                    Err(e) => Err(e),
                    Ok(d3) => Ok((repoint_spec(compact_spec(d3)), rw.1, rw.2)),
                },
            },
        },
    }
}

/// Merges the sources into one document, as [`merge_spec`] gives it: the
/// finished graph with a dense id space, the unresolved addresses, and the
/// unresolved anchors, in scan order.
pub fn merge_documents(
    sources: &Vec<SourceDoc>,
    base_url: &[u8],
    style: &Option<PageNumber>,
) -> (r: Result<(Document, Vec<Vec<u8>>, Vec<Vec<u8>>), MergeError>)
    ensures
        match r {
            Ok(p) => merge_spec(sources_view(*sources), base_url@, *style) == Ok::<
                (DocumentV, Seq<Seq<u8>>, Seq<Seq<u8>>),
                MergeError,
            >((p.0@, byte_lists_view(p.1), byte_lists_view(p.2))),
            Err(e) => merge_spec(sources_view(*sources), base_url@, *style) == Err::<
                (DocumentV, Seq<Seq<u8>>, Seq<Seq<u8>>),
                MergeError,
            >(e),
        },
{
    let parts = match import_documents(sources) {
        Ok(p) => p,
        Err(e) => {
            return Err(e);
        },
    };
    let mut doc = match build_document(&parts) {
        Ok(d) => d,
        Err(e) => {
            return Err(e);
        },
    };
    proof {
        assert(crate::links::ords_view(parts.ordinals) =~= parts@.ordinals);
    }
    let problems = match rewrite_links(&mut doc, base_url, &parts.ordinals) {
        Ok(x) => x,
        Err(e) => {
            return Err(e);
        },
    };
    match style {
        Some(st) => {
            match add_page_numbers(&mut doc, st) {
                Ok(_) => {},
                Err(e) => {
                    return Err(e);
                },
            }
        },
        None => {},
    }
    compact_ids(&mut doc);
    repoint_dangling_bookmarks(&mut doc);
    Ok((doc, problems.0, problems.1))
}

} // verus!
