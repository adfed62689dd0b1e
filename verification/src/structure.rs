//! The structure merger: one scan over the imported objects dispatched by
//! declared type, producing one coherent document with a single catalog and a
//! single page-tree root.
//!
//! The first catalog keeps its identity; every catalog's destination-table
//! reference is collected and the referenced dictionaries are merged into one
//! table attached to the final catalog.  Page-tree dictionaries are combined
//! field by field, earlier sources winning on conflicting keys.  Page objects
//! are re-parented under the surviving root and every page id is written into
//! its `Kids` list, whose length becomes its `Count`.  Outline roots are
//! handed to the outline merger.  Everything else passes through unchanged.

use vstd::prelude::*;

use crate::document::{t_get, t_remove, t_set, Document};
use crate::import::PartsV;
use crate::names::{
    k_catalog, k_count, k_dests, k_kids, k_outlines, k_page, k_pages, k_root, key_count, key_dests,
    key_kids, key_outlines, key_pages, key_parent, key_root,
};
use crate::object::{
    clone_entries, clone_object, entries_view_of, v_declared_type, v_get, v_has, v_set, Object,
    ObjectId, ObjectV,
};
use crate::outline::merge_outlines_spec;
use crate::MergeError;

verus! {

broadcast use vstd::std_specs::vec::group_vec_axioms, vstd::seq::group_seq_axioms;

/// What one scan over the imported objects collects.
pub struct ScanV {
    pub cat: Option<(ObjectId, Seq<(Seq<u8>, ObjectV)>)>,
    pub pages_root: Option<(ObjectId, Seq<(Seq<u8>, ObjectV)>)>,
    pub dest_ids: Seq<ObjectId>,
    pub outlines: Seq<(ObjectId, Seq<(Seq<u8>, ObjectV)>)>,
    pub rest: Seq<(ObjectId, ObjectV)>,
}

/// The scan's starting state: nothing seen yet.
pub open spec fn empty_scan() -> ScanV {
    ScanV {
        cat: None,
        pages_root: None,
        dest_ids: Seq::empty(),
        outlines: Seq::empty(),
        rest: Seq::empty(),
    }
}

/// A dictionary extended with the entries of another whose keys it does not
/// hold yet: the first source to set a key wins.
pub open spec fn dict_append_missing(
    acc: Seq<(Seq<u8>, ObjectV)>,
    d: Seq<(Seq<u8>, ObjectV)>,
) -> Seq<(Seq<u8>, ObjectV)>
    decreases d.len(),
{
    if d.len() == 0 {
        acc
    } else {
        dict_append_missing(
            if v_has(acc, d[0].0) {
                acc
            } else {
                acc.push(d[0])
            },
            d.skip(1),
        )
    }
}

/// A dictionary overwritten with the entries of another: the last writer
/// wins, as the destination tables are merged.
pub open spec fn dict_extend(acc: Seq<(Seq<u8>, ObjectV)>, d: Seq<(Seq<u8>, ObjectV)>) -> Seq<
    (Seq<u8>, ObjectV),
>
    decreases d.len(),
{
    if d.len() == 0 {
        acc
    } else {
        dict_extend(v_set(acc, d[0].0, d[0].1), d.skip(1))
    }
}

/// One scan step: the row is dispatched by its declared type.
pub open spec fn scan_step(acc: ScanV, row: (ObjectId, ObjectV)) -> Result<ScanV, MergeError> {
    match v_declared_type(row.1) {
        Some(ty) => if ty == k_catalog() {
            match row.1 {
                ObjectV::Dictionary(d) => {
                    let withcat = if acc.cat is None {
                        ScanV { cat: Some((row.0, d)), ..acc }
                    } else {
                        acc
                    };
                    match v_get(d, k_dests()) {
                        Some(ObjectV::Reference(r)) => Ok(
                            ScanV { dest_ids: withcat.dest_ids.push(r), ..withcat },
                        ),
                        Some(_) => Err(MergeError::BadDestinations),
                        None => Ok(withcat),
                    }
                },
                _ => Ok(ScanV { rest: acc.rest.push(row), ..acc }),
            }
        } else if ty == k_pages() {
            match row.1 {
                ObjectV::Dictionary(d) => Ok(
                    match acc.pages_root {
                        None => ScanV { pages_root: Some((row.0, d)), ..acc },
                        Some((id0, e)) => ScanV {
                            pages_root: Some((id0, dict_append_missing(e, d))),
                            ..acc
                        },
                    },
                ),
                _ => Ok(ScanV { rest: acc.rest.push(row), ..acc }),
            }
        } else if ty == k_page() {
            Ok(acc)
        } else if ty == k_outlines() {
            match row.1 {
                ObjectV::Dictionary(d) => Ok(
                    ScanV { outlines: acc.outlines.push((row.0, d)), ..acc },
                ),
                _ => Err(MergeError::BadOutline),
            }
        } else {
            Ok(ScanV { rest: acc.rest.push(row), ..acc })
        },
        None => Ok(ScanV { rest: acc.rest.push(row), ..acc }),
    }
}

/// The scan folded over the imported object rows, in table order.
pub open spec fn scan_fold(t: Seq<(ObjectId, ObjectV)>, acc: ScanV) -> Result<ScanV, MergeError>
    decreases t.len(),
{
    if t.len() == 0 {
        Ok(acc)
    } else {
        match scan_step(acc, t[0]) {
            Ok(acc2) => scan_fold(t.skip(1), acc2),
            Err(e) => Err(e),
        }
    }
}

/// The collected destination tables resolved against the passed-through
/// rows: each referenced dictionary is merged into one table, last writer
/// winning, and its row leaves the graph.  A reference that does not resolve
/// to a dictionary is a structural failure.
pub open spec fn resolve_dests(
    rest: Seq<(ObjectId, ObjectV)>,
    ids: Seq<ObjectId>,
    dests: Seq<(Seq<u8>, ObjectV)>,
) -> Result<(Seq<(ObjectId, ObjectV)>, Seq<(Seq<u8>, ObjectV)>), MergeError>
    decreases ids.len(),
{
    if ids.len() == 0 {
        Ok((rest, dests))
    } else {
        match t_get(rest, ids[0]) {
            Some(ObjectV::Dictionary(e)) => resolve_dests(
                t_remove(rest, ids[0]),
                ids.skip(1),
                dict_extend(dests, e),
            ),
            _ => Err(MergeError::BadDestinations),
        }
    }
}

/// The page rows inserted into the table, each one re-parented under the
/// page-tree root; a page that is not a dictionary is left out.
pub open spec fn insert_pages(
    t: Seq<(ObjectId, ObjectV)>,
    pages: Seq<(ObjectId, ObjectV)>,
    root: ObjectId,
) -> Seq<(ObjectId, ObjectV)>
    decreases pages.len(),
{
    if pages.len() == 0 {
        t
    } else {
        let t2 = match pages[0].1 {
            ObjectV::Dictionary(e) => t_set(
                t,
                pages[0].0,
                ObjectV::Dictionary(v_set(e, crate::names::k_parent(), ObjectV::Reference(root))),
            ),
            _ => t,
        };
        insert_pages(t2, pages.skip(1), root)
    }
}

/// The ordered references to every page, the root's `Kids` list.
pub open spec fn page_refs(pages: Seq<(ObjectId, ObjectV)>) -> Seq<ObjectV> {
    Seq::new(
        pages.len(),
        |i: int|
            if 0 <= i < pages.len() {
                ObjectV::Reference(pages[i].0)
            } else {
                ObjectV::Null
            },
    )
}

/// The structure merger over the importer's result: scan, destination
/// merge, page insertion, outline merge, then the rebuilt root objects and
/// trailer.  Every failure is the stage's own error, in pipeline order.
pub open spec fn build_spec(parts: PartsV) -> Result<crate::document::DocumentV, MergeError> {
    match scan_fold(parts.objects, empty_scan()) {
        Err(e) => Err(e),
        Ok(sc) => match resolve_dests(sc.rest, sc.dest_ids, Seq::empty()) {
            Err(e) => Err(e),
            Ok(rd) => match sc.pages_root {
                None => Err(MergeError::NoPages),
                Some((root_id, root_e)) => {
                    let t1 = insert_pages(rd.0, parts.pages, root_id);
                    match merge_outlines_spec(t1, sc.outlines, (t1.len() + 1) as nat) {
                        Err(e) => Err(e),
                        Ok(to) => match sc.cat {
                            None => Err(MergeError::NoCatalog),
                            Some((cat_id, cat_e)) => {
                                let pages_fin = v_set(
                                    v_set(
                                        root_e,
                                        k_count(),
                                        ObjectV::Integer(parts.pages.len() as i64),
                                    ),
                                    k_kids(),
                                    ObjectV::Array(page_refs(parts.pages)),
                                );
                                let t3 = t_set(to.0, root_id, ObjectV::Dictionary(pages_fin));
                                let cat1 = v_set(cat_e, k_pages(), ObjectV::Reference(root_id));
                                let cat2 = match to.1 {
                                    Some(oid) => v_set(cat1, k_outlines(), ObjectV::Reference(oid)),
                                    None => cat1,
                                };
                                let cat3 = v_set(cat2, k_dests(), ObjectV::Dictionary(rd.1));
                                let t4 = t_set(t3, cat_id, ObjectV::Dictionary(cat3));
                                Ok(
                                    crate::document::DocumentV {
                                        objects: t4,
                                        trailer: seq![
                                            (k_root(), ObjectV::Reference(cat_id)),
                                        ],
                                        max_id: (if parts.next_id >= 1 {
                                            parts.next_id - 1
                                        } else {
                                            0
                                        }) as u64,
                                    },
                                )
                            },
                        },
                    }
                },
            },
        },
    }
}

/// The value of an optionally collected root: its id and entries.
pub open spec fn opt_root_view(o: Option<(ObjectId, Vec<(Vec<u8>, Object)>)>) -> Option<
    (ObjectId, Seq<(Seq<u8>, ObjectV)>),
> {
    match o {
        Some(p) => Some((p.0, entries_view_of(p.1))),
        None => None,
    }
}

/// Extends a dictionary with the entries of another whose keys it does not
/// hold yet, as [`dict_append_missing`] gives it.
#[verifier::loop_isolation(false)]
fn append_missing_exec(acc: &mut Vec<(Vec<u8>, Object)>, d: &Vec<(Vec<u8>, Object)>)
    ensures
        entries_view_of(*final(acc)) == dict_append_missing(
            entries_view_of(*old(acc)),
            entries_view_of(*d),
        ),
{
    let ghost dv = entries_view_of(*d);
    let ghost a0 = entries_view_of(*old(acc));
    proof {
        assert(dv.skip(0) =~= dv);
    }
    let mut k: usize = 0;
    while k < d.len()
        invariant
            k <= d.len(),
            dict_append_missing(a0, dv) == dict_append_missing(
                entries_view_of(*acc),
                dv.skip(k as int),
            ),
        decreases d.len() - k,
    {
        let ghost before = entries_view_of(*acc);
        assert(dv.skip(k as int)[0] == dv[k as int]);
        if !crate::object::dict_has(acc, d[k].0.as_slice()) {
            let key = crate::object::clone_bytes(&d[k].0);
            let val = clone_object(&d[k].1);
            acc.push((key, val));
            assert(entries_view_of(*acc) =~= before.push(dv[k as int]));
        }
        assert(dv.skip(k as int).skip(1) =~= dv.skip(k as int + 1));
        k += 1;
    }
    assert(dv.skip(d@.len() as int).len() == 0);
}

/// Overwrites a dictionary with the entries of another, as [`dict_extend`]
/// gives it.
#[verifier::loop_isolation(false)]
fn dict_extend_exec(acc: &mut Vec<(Vec<u8>, Object)>, d: &Vec<(Vec<u8>, Object)>)
    ensures
        entries_view_of(*final(acc)) == dict_extend(
            entries_view_of(*old(acc)),
            entries_view_of(*d),
        ),
{
    let ghost dv = entries_view_of(*d);
    let ghost a0 = entries_view_of(*old(acc));
    proof {
        assert(dv.skip(0) =~= dv);
    }
    let mut k: usize = 0;
    while k < d.len()
        invariant
            k <= d.len(),
            dict_extend(a0, dv) == dict_extend(entries_view_of(*acc), dv.skip(k as int)),
        decreases d.len() - k,
    {
        assert(dv.skip(k as int)[0] == dv[k as int]);
        let key = crate::object::clone_bytes(&d[k].0);
        let val = clone_object(&d[k].1);
        crate::object::dict_set(acc, key, val);
        assert(dv.skip(k as int).skip(1) =~= dv.skip(k as int + 1));
        k += 1;
    }
    assert(dv.skip(d@.len() as int).len() == 0);
}

/// Builds the merged document from the importer's result, as [`build_spec`]
/// gives it: the same document on success, the same failure otherwise.
#[verifier::loop_isolation(false)]
pub fn build_document(parts: &crate::import::ImportedParts) -> (r: Result<Document, MergeError>)
    ensures
        match r {
            Ok(d) => build_spec(parts@) == Ok::<crate::document::DocumentV, MergeError>(d@),
            Err(e) => build_spec(parts@) == Err::<crate::document::DocumentV, MergeError>(e),
        },
{
    let ghost pv = parts@;
    let mut cat: Option<(ObjectId, Vec<(Vec<u8>, Object)>)> = None;
    let mut pages_root: Option<(ObjectId, Vec<(Vec<u8>, Object)>)> = None;
    let mut dest_ids: Vec<ObjectId> = Vec::new();
    let mut outlines: Vec<(ObjectId, Vec<(Vec<u8>, Object)>)> = Vec::new();
    let mut doc = Document::new();
    proof {
        let acc = ScanV {
            cat: opt_root_view(cat),
            pages_root: opt_root_view(pages_root),
            dest_ids: dest_ids@,
            outlines: crate::outline::roots_view(outlines),
            rest: doc@.objects,
        };
        assert(acc.dest_ids =~= empty_scan().dest_ids);
        assert(acc.outlines =~= empty_scan().outlines);
        assert(acc.rest =~= empty_scan().rest);
        assert(acc == empty_scan());
        assert(pv.objects.skip(0) =~= pv.objects);
    }
    let mut i: usize = 0;
    while i < parts.objects.len()
        invariant
            i <= parts.objects.len(),
            pv == parts@,
            pv.objects.len() == parts.objects@.len(),
            doc@.trailer.len() == 0,
            doc@.max_id == 0,
            scan_fold(pv.objects, empty_scan()) == scan_fold(
                pv.objects.skip(i as int),
                ScanV {
                    cat: opt_root_view(cat),
                    pages_root: opt_root_view(pages_root),
                    dest_ids: dest_ids@,
                    outlines: crate::outline::roots_view(outlines),
                    rest: doc@.objects,
                },
            ),
        decreases parts.objects.len() - i,
    {
        let ghost acc0 = ScanV {
            cat: opt_root_view(cat),
            pages_root: opt_root_view(pages_root),
            dest_ids: dest_ids@,
            outlines: crate::outline::roots_view(outlines),
            rest: doc@.objects,
        };
        let ghost rowv = pv.objects[i as int];
        assert(pv.objects.skip(i as int)[0] == rowv);
        assert(rowv == (parts.objects@[i as int].0, crate::object::obj_view(
            parts.objects@[i as int].1,
        )));
        let row_id: ObjectId = parts.objects[i].0;
        let row_obj: &Object = &parts.objects[i].1;
        let is_catalog: bool;
        let is_pages: bool;
        let is_page: bool;
        let is_outlines: bool;
        match crate::object::declared_type(row_obj) {
            Some(ty) => {
                is_catalog = crate::object::bytes_eq(
                    ty.as_slice(),
                    crate::names::key_catalog().as_slice(),
                );
                is_pages = !is_catalog && crate::object::bytes_eq(
                    ty.as_slice(),
                    key_pages().as_slice(),
                );
                is_page = !is_catalog && !is_pages && crate::object::bytes_eq(
                    ty.as_slice(),
                    crate::names::key_page().as_slice(),
                );
                is_outlines = !is_catalog && !is_pages && !is_page && crate::object::bytes_eq(
                    ty.as_slice(),
                    key_outlines().as_slice(),
                );
            },
            None => {
                is_catalog = false;
                is_pages = false;
                is_page = false;
                is_outlines = false;
            },
        }
        if is_catalog {
            match row_obj {
                Object::Dictionary(d) => {
                    if cat.is_none() {
                        cat = Some((row_id, clone_entries(d)));
                    }
                    match crate::object::dict_get(d, key_dests().as_slice()) {
                        Some(Object::Reference(rid)) => {
                            dest_ids.push(*rid);
                        },
                        Some(_) => {
                            assert(scan_step(acc0, rowv) == Err::<ScanV, MergeError>(
                                MergeError::BadDestinations,
                            ));
                            return Err(MergeError::BadDestinations);
                        },
                        None => {},
                    }
                },
                _ => {
                    doc.objects.push((row_id, clone_object(row_obj)));
                },
            }
        } else if is_pages {
            match row_obj {
                Object::Dictionary(d) => {
                    pages_root = match pages_root {
                        None => Some((row_id, clone_entries(d))),
                        Some((id0, mut e)) => {
                            append_missing_exec(&mut e, d);
                            Some((id0, e))
                        },
                    };
                },
                _ => {
                    doc.objects.push((row_id, clone_object(row_obj)));
                },
            }
        } else if is_page {
            // deferred to the re-parenting pass
        } else if is_outlines {
            match row_obj {
                Object::Dictionary(d) => {
                    outlines.push((row_id, clone_entries(d)));
                },
                _ => {
                    assert(scan_step(acc0, rowv) == Err::<ScanV, MergeError>(
                        MergeError::BadOutline,
                    ));
                    return Err(MergeError::BadOutline);
                },
            }
        } else {
            doc.objects.push((row_id, clone_object(row_obj)));
        }
        proof {
            let acc1 = ScanV {
                cat: opt_root_view(cat),
                pages_root: opt_root_view(pages_root),
                dest_ids: dest_ids@,
                outlines: crate::outline::roots_view(outlines),
                rest: doc@.objects,
            };
            let stepped = scan_step(acc0, rowv).unwrap();
            assert(acc1.dest_ids =~= stepped.dest_ids);
            assert(acc1.outlines =~= stepped.outlines);
            assert(acc1.rest =~= stepped.rest);
            assert(acc1 == stepped);
            assert(pv.objects.skip(i as int).skip(1) =~= pv.objects.skip(i as int + 1));
        }
        i += 1;
    }
    assert(pv.objects.skip(i as int).len() == 0);
    let ghost sc = scan_fold(pv.objects, empty_scan()).unwrap();

    // Merge the collected destination tables; their rows leave the graph.
    let mut dests: Vec<(Vec<u8>, Object)> = Vec::new();
    proof {
        assert(entries_view_of(dests) =~= Seq::<(Seq<u8>, ObjectV)>::empty());
        assert(dest_ids@.skip(0) =~= dest_ids@);
    }
    let mut k: usize = 0;
    while k < dest_ids.len()
        invariant
            k <= dest_ids.len(),
            doc@.trailer.len() == 0,
            doc@.max_id == 0,
            resolve_dests(sc.rest, sc.dest_ids, Seq::empty()) == resolve_dests(
                doc@.objects,
                dest_ids@.skip(k as int),
                entries_view_of(dests),
            ),
        decreases dest_ids.len() - k,
    {
        assert(dest_ids@.skip(k as int)[0] == dest_ids@[k as int]);
        let id = dest_ids[k];
        let found = doc.get_cloned(id);
        match found {
            Some(Object::Dictionary(e)) => {
                dict_extend_exec(&mut dests, &e);
                doc.remove(id);
            },
            _ => {
                return Err(MergeError::BadDestinations);
            },
        }
        assert(dest_ids@.skip(k as int).skip(1) =~= dest_ids@.skip(k as int + 1));
        k += 1;
    }
    assert(dest_ids@.skip(dest_ids@.len() as int).len() == 0);
    let ghost rd = resolve_dests(sc.rest, sc.dest_ids, Seq::empty()).unwrap();
    proof {
        assert(rd == (doc@.objects, entries_view_of(dests)));
    }

    // Without a page-tree root there is nothing to hang the pages on.
    let (root_id, mut root_entries) = match pages_root {
        Some(p) => p,
        None => {
            return Err(MergeError::NoPages);
        },
    };

    // Re-parent every page under the surviving root.
    proof {
        assert(pv.pages.skip(0) =~= pv.pages);
    }
    let mut m: usize = 0;
    while m < parts.pages.len()
        invariant
            m <= parts.pages.len(),
            pv == parts@,
            pv.pages.len() == parts.pages@.len(),
            doc@.trailer.len() == 0,
            doc@.max_id == 0,
            insert_pages(rd.0, pv.pages, root_id) == insert_pages(
                doc@.objects,
                pv.pages.skip(m as int),
                root_id,
            ),
        decreases parts.pages.len() - m,
    {
        assert(pv.pages.skip(m as int)[0] == pv.pages[m as int]);
        assert(pv.pages[m as int] == (parts.pages@[m as int].0, crate::object::obj_view(
            parts.pages@[m as int].1,
        )));
        match &parts.pages[m].1 {
            Object::Dictionary(e) => {
                let mut e2 = clone_entries(e);
                crate::object::dict_set(&mut e2, key_parent(), Object::Reference(root_id));
                doc.set(parts.pages[m].0, Object::Dictionary(e2));
            },
            _ => {},
        }
        assert(pv.pages.skip(m as int).skip(1) =~= pv.pages.skip(m as int + 1));
        m += 1;
    }
    assert(pv.pages.skip(pv.pages.len() as int).len() == 0);
    let ghost t1 = insert_pages(rd.0, pv.pages, root_id);
    proof {
        assert(t1 == doc@.objects);
    }

    // Splice the outline roots into one tree.
    let merged_root: Option<ObjectId> = match crate::outline::merge_outlines(&mut doc, &outlines) {
        Ok(o) => o,
        Err(e) => {
            return Err(e);
        },
    };
    let ghost to = merge_outlines_spec(t1, sc.outlines, (t1.len() + 1) as nat).unwrap();
    proof {
        assert(to == (doc@.objects, merged_root));
    }

    // Without a catalog there is no document root to rebuild.
    let (cat_id, mut cat_entries) = match cat {
        Some(p) => p,
        None => {
            return Err(MergeError::NoCatalog);
        },
    };

    // The surviving page-tree root gets the true count and the full ordered
    // list of pages.
    let count_val: i64 = parts.pages.len() as i64;
    crate::object::dict_set(&mut root_entries, key_count(), Object::Integer(count_val));
    let mut kids: Vec<Object> = Vec::new();
    let mut q: usize = 0;
    while q < parts.pages.len()
        invariant
            q <= parts.pages.len(),
            pv == parts@,
            pv.pages.len() == parts.pages@.len(),
            kids@.len() == q,
            forall|j: int|
                0 <= j < q ==> crate::object::obj_view(kids@[j]) == page_refs(pv.pages)[j],
        decreases parts.pages.len() - q,
    {
        kids.push(Object::Reference(parts.pages[q].0));
        q += 1;
    }
    let kids_arr = Object::Array(kids);
    proof {
        assert(kids_arr@->Array_0 =~= page_refs(pv.pages));
        assert(kids_arr@ == ObjectV::Array(page_refs(pv.pages)));
    }
    crate::object::dict_set(&mut root_entries, key_kids(), kids_arr);
    doc.set(root_id, Object::Dictionary(root_entries));

    // The surviving catalog points at the root structures.
    crate::object::dict_set(&mut cat_entries, key_pages(), Object::Reference(root_id));
    match merged_root {
        Some(oid) => {
            crate::object::dict_set(&mut cat_entries, key_outlines(), Object::Reference(oid));
        },
        None => {},
    }
    crate::object::dict_set(&mut cat_entries, key_dests(), Object::Dictionary(dests));
    doc.set(cat_id, Object::Dictionary(cat_entries));
    doc.trailer.push((key_root(), Object::Reference(cat_id)));
    doc.max_id = if parts.next_id >= 1 {
        parts.next_id - 1
    } else {
        0
    };
    proof {
        let spec_doc = build_spec(pv).unwrap();
        assert(doc@.trailer =~= spec_doc.trailer);
        assert(doc@.objects == spec_doc.objects);
        assert(doc@.max_id == spec_doc.max_id);
        assert(doc@ == spec_doc);
    }
    Ok(doc)
}

} // verus!
