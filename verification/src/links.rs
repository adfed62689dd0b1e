//! The destination and link rewriter: every link annotation that points
//! inside the site becomes a direct in-document jump, and every one that
//! cannot be resolved is collected as a readable problem entry instead of
//! failing the merge.
//!
//! All rewrites are staged during a read-only scan over the pages and
//! applied afterwards, so the scan always consults one consistent snapshot
//! of the named destinations and page order.

use vstd::prelude::*;

use crate::document::{t_get, t_set, Document, DocumentV};
use crate::names::{
    k_action, k_annots, k_colon_space, k_dest, k_dests, k_fit, k_index_html, k_kids, k_link,
    k_names, k_page_no_prefix, k_pages, k_root, k_subtype, k_uri,
};
use crate::object::{v_get, v_has, v_remove, v_set, Object, ObjectId, ObjectV};
use crate::text::{after_last, dec_rep, starts_with, starts_with_exec};
use crate::MergeError;

verus! {

broadcast use vstd::std_specs::vec::group_vec_axioms, vstd::seq::group_seq_axioms;

/// A value with one level of reference chasing: a reference is looked up in
/// the table, anything else stands for itself.
pub open spec fn deref_once(doc: DocumentV, v: Option<ObjectV>) -> Option<ObjectV> {
    match v {
        Some(ObjectV::Reference(id)) => t_get(doc.objects, id),
        _ => v,
    }
}

/// The document's catalog: the dictionary its trailer's root reference
/// points at.
pub open spec fn catalog_of(doc: DocumentV) -> Option<(ObjectId, Seq<(Seq<u8>, ObjectV)>)> {
    match v_get(doc.trailer, k_root()) {
        Some(ObjectV::Reference(rid)) => match t_get(doc.objects, rid) {
            Some(ObjectV::Dictionary(e)) => Some((rid, e)),
            _ => None,
        },
        _ => None,
    }
}

/// A dictionary field read through one level of reference, as the named
/// destinations are reached.
pub open spec fn dict_in(doc: DocumentV, e: Seq<(Seq<u8>, ObjectV)>, key: Seq<u8>) -> Option<
    Seq<(Seq<u8>, ObjectV)>,
> {
    match deref_once(doc, v_get(e, key)) {
        Some(ObjectV::Dictionary(d)) => Some(d),
        _ => None,
    }
}

/// The named-destinations table of a document whose catalog is `cat`: the
/// catalog's own destination dictionary, else the one under its name tree,
/// else empty — anchors then never resolve.
pub open spec fn named_dests_of(doc: DocumentV, cat: Seq<(Seq<u8>, ObjectV)>) -> Seq<
    (Seq<u8>, ObjectV),
> {
    match dict_in(doc, cat, k_dests()) {
        Some(d) => d,
        None => match dict_in(doc, cat, k_names()) {
            Some(n) => match dict_in(doc, n, k_dests()) {
                Some(d) => d,
                None => Seq::empty(),
            },
            None => Seq::empty(),
        },
    }
}

/// The reference targets among an array's elements, in order.
pub open spec fn kids_refs(vs: Seq<ObjectV>) -> Seq<ObjectId>
    decreases vs.len(),
{
    if vs.len() == 0 {
        Seq::empty()
    } else {
        match vs[0] {
            ObjectV::Reference(id) => seq![id] + kids_refs(vs.skip(1)),
            _ => kids_refs(vs.skip(1)),
        }
    }
}

/// The document's pages in page order: the `Kids` references of the root
/// page-tree node, or empty where the structure is absent.
pub open spec fn page_ids_of(doc: DocumentV) -> Seq<ObjectId> {
    match catalog_of(doc) {
        Some(cp) => match deref_once(doc, v_get(cp.1, k_pages())) {
            Some(ObjectV::Dictionary(pe)) => match v_get(pe, k_kids()) {
                Some(ObjectV::Array(vs)) => kids_refs(vs),
                _ => Seq::empty(),
            },
            _ => Seq::empty(),
        },
        _ => Seq::empty(),
    }
}

/// First-match lookup of an address in the ordinal list.
pub open spec fn ord_get(ords: Seq<(Seq<u8>, int)>, url: Seq<u8>) -> Option<int>
    decreases ords.len(),
{
    if ords.len() == 0 {
        None
    } else if ords[0].0 == url {
        Some(ords[0].1)
    } else {
        ord_get(ords.skip(1), url)
    }
}

/// One problem entry: the 1-based page number the problem was found on, and
/// the address or anchor that could not be resolved.
pub open spec fn problem_msg(page_num1: nat, tail: Seq<u8>) -> Seq<u8> {
    k_page_no_prefix() + dec_rep(page_num1) + k_colon_space() + tail
}

/// What the scan stages: rewrites to apply after it, and problems to
/// report, all in scan order.  An anchor rewrite carries the annotation's
/// id, the resolved destination value, and whether the annotation's old
/// external action is dropped — it is for a hit reached through an action's
/// address, and is not for a named destination rewritten in place.
pub struct RewriteAcc {
    pub anchors_rw: Seq<(ObjectId, ObjectV, bool)>,
    pub urls_rw: Seq<(ObjectId, ObjectId)>,
    pub problem_urls: Seq<Seq<u8>>,
    pub problem_anchors: Seq<Seq<u8>>,
}

/// The scan's starting state.
pub open spec fn empty_rewrites() -> RewriteAcc {
    RewriteAcc {
        anchors_rw: Seq::empty(),
        urls_rw: Seq::empty(),
        problem_urls: Seq::empty(),
        problem_anchors: Seq::empty(),
    }
}

/// One annotation examined.  A link whose action's address starts with the
/// base address is resolved: an anchor against the named destinations, a
/// plain address (an empty final segment standing for the index page)
/// against the ordinal list; a link holding a named destination directly is
/// resolved against the named destinations.  Hits are staged; misses become
/// problem entries citing the 1-based page number.  Anything else is left
/// alone.
pub open spec fn annot_step(
    doc: DocumentV,
    dests: Seq<(Seq<u8>, ObjectV)>,
    ords: Seq<(Seq<u8>, int)>,
    page_ids: Seq<ObjectId>,
    base: Seq<u8>,
    page_num: int,
    aid: ObjectId,
    a: Seq<(Seq<u8>, ObjectV)>,
    acc: RewriteAcc,
) -> Result<RewriteAcc, MergeError> {
    match deref_once(doc, v_get(a, k_subtype())) {
        Some(ObjectV::Name(st)) => if st != k_link() {
            Ok(acc)
        } else {
            match deref_once(doc, v_get(a, k_action())) {
                Some(ObjectV::Dictionary(ad)) => match v_get(ad, k_uri()) {
                    Some(ObjectV::Text(u)) => if !starts_with(u, base) {
                        Ok(acc)
                    } else {
                        let seg = u.skip(after_last(u, 47));
                        if after_last(seg, 35) > 0 {
                            let anchor = seg.skip(after_last(seg, 35));
                            match v_get(dests, anchor) {
                                Some(d) => Ok(
                                    RewriteAcc {
                                        anchors_rw: acc.anchors_rw.push((aid, d, true)),
                                        ..acc
                                    },
                                ),
                                None => Ok(
                                    RewriteAcc {
                                        problem_anchors: acc.problem_anchors.push(
                                            problem_msg((page_num + 1) as nat, u),
                                        ),
                                        ..acc
                                    },
                                ),
                            }
                        } else {
                            let full = if seg.len() == 0 {
                                u + k_index_html()
                            } else {
                                u
                            };
                            match ord_get(ords, full) {
                                Some(n) => Ok(
                                    RewriteAcc {
                                        urls_rw: acc.urls_rw.push((aid, page_ids[n])),
                                        ..acc
                                    },
                                ),
                                None => Ok(
                                    RewriteAcc {
                                        problem_urls: acc.problem_urls.push(
                                            problem_msg((page_num + 1) as nat, full),
                                        ),
                                        ..acc
                                    },
                                ),
                            }
                        }
                    },
                    _ => Err(MergeError::MissingUri),
                },
                _ => match v_get(a, k_dest()) {
                    Some(ObjectV::Name(nm)) => match v_get(dests, nm) {
                        Some(d) => Ok(
                            RewriteAcc {
                                anchors_rw: acc.anchors_rw.push((aid, d, false)),
                                ..acc
                            },
                        ),
                        None => Ok(
                            RewriteAcc {
                                problem_anchors: acc.problem_anchors.push(
                                    problem_msg((page_num + 1) as nat, nm),
                                ),
                                ..acc
                            },
                        ),
                    },
                    _ => Ok(acc),
                },
            }
        },
        _ => Ok(acc),
    }
}

/// An annotation array resolved, left to right: every element must be a
/// reference to a dictionary.
pub open spec fn annots_acc(
    doc: DocumentV,
    vs: Seq<ObjectV>,
    acc: Seq<(ObjectId, Seq<(Seq<u8>, ObjectV)>)>,
) -> Result<Seq<(ObjectId, Seq<(Seq<u8>, ObjectV)>)>, MergeError>
    decreases vs.len(),
{
    if vs.len() == 0 {
        Ok(acc)
    } else {
        match vs[0] {
            ObjectV::Reference(id) => match t_get(doc.objects, id) {
                Some(ObjectV::Dictionary(e)) => annots_acc(doc, vs.skip(1), acc.push((id, e))),
                _ => Err(MergeError::BadAnnotations),
            },
            _ => Err(MergeError::BadAnnotations),
        }
    }
}

/// An annotation array resolved: every element must be a reference to a
/// dictionary.
pub open spec fn annots_of(doc: DocumentV, vs: Seq<ObjectV>) -> Result<
    Seq<(ObjectId, Seq<(Seq<u8>, ObjectV)>)>,
    MergeError,
> {
    annots_acc(doc, vs, Seq::empty())
}

/// A page's annotations: its `Annots` value taken as a direct array or
/// through a reference; a page without one, or one that is not a
/// dictionary, has none.
pub open spec fn page_annots(doc: DocumentV, pid: ObjectId) -> Result<
    Seq<(ObjectId, Seq<(Seq<u8>, ObjectV)>)>,
    MergeError,
> {
    match t_get(doc.objects, pid) {
        Some(ObjectV::Dictionary(pe)) => match v_get(pe, k_annots()) {
            Some(ObjectV::Reference(rid)) => match t_get(doc.objects, rid) {
                Some(ObjectV::Array(vs)) => annots_of(doc, vs),
                _ => Err(MergeError::BadAnnotations),
            },
            Some(ObjectV::Array(vs)) => annots_of(doc, vs),
            _ => Ok(Seq::empty()),
        },
        _ => Ok(Seq::empty()),
    }
}

/// The scan over one page's annotations, in order.
pub open spec fn annots_fold(
    doc: DocumentV,
    dests: Seq<(Seq<u8>, ObjectV)>,
    ords: Seq<(Seq<u8>, int)>,
    page_ids: Seq<ObjectId>,
    base: Seq<u8>,
    page_num: int,
    annots: Seq<(ObjectId, Seq<(Seq<u8>, ObjectV)>)>,
    acc: RewriteAcc,
) -> Result<RewriteAcc, MergeError>
    decreases annots.len(),
{
    if annots.len() == 0 {
        Ok(acc)
    } else {
        match annot_step(
            doc,
            dests,
            ords,
            page_ids,
            base,
            page_num,
            annots[0].0,
            annots[0].1,
            acc,
        ) {
            Ok(acc2) => annots_fold(doc, dests, ords, page_ids, base, page_num, annots.skip(1), acc2),
            Err(e) => Err(e),
        }
    }
}

/// The scan over the pages from a position on, in page order.
pub open spec fn pages_fold(
    doc: DocumentV,
    dests: Seq<(Seq<u8>, ObjectV)>,
    ords: Seq<(Seq<u8>, int)>,
    page_ids: Seq<ObjectId>,
    base: Seq<u8>,
    page_num: int,
    acc: RewriteAcc,
) -> Result<RewriteAcc, MergeError>
    decreases page_ids.len() - page_num,
{
    if page_num < 0 || page_num >= page_ids.len() {
        Ok(acc)
    } else {
        match page_annots(doc, page_ids[page_num]) {
            Err(e) => Err(e),
            Ok(annots) => match annots_fold(
                doc,
                dests,
                ords,
                page_ids,
                base,
                page_num,
                annots,
                acc,
            ) {
                Ok(acc2) => pages_fold(doc, dests, ords, page_ids, base, page_num + 1, acc2),
                Err(e) => Err(e),
            },
        }
    }
}

/// The staged anchor rewrites applied: each annotation gets the resolved
/// destination under its `Dest` key, and one whose hit came through an
/// external action loses that action.
pub open spec fn apply_anchors(
    t: Seq<(ObjectId, ObjectV)>,
    rws: Seq<(ObjectId, ObjectV, bool)>,
) -> Result<Seq<(ObjectId, ObjectV)>, MergeError>
    decreases rws.len(),
{
    if rws.len() == 0 {
        Ok(t)
    } else {
        match t_get(t, rws[0].0) {
            Some(ObjectV::Dictionary(e)) => {
                let e2 = if rws[0].2 {
                    v_set(v_remove(e, k_action()), k_dest(), rws[0].1)
                } else {
                    v_set(e, k_dest(), rws[0].1)
                };
                apply_anchors(t_set(t, rws[0].0, ObjectV::Dictionary(e2)), rws.skip(1))
            },
            _ => Err(MergeError::BadAnnotations),
        }
    }
}

/// The staged address rewrites applied: each annotation loses its external
/// action and gets a direct page destination with the whole-page fit mode.
pub open spec fn apply_urls(t: Seq<(ObjectId, ObjectV)>, rws: Seq<(ObjectId, ObjectId)>) -> Result<
    Seq<(ObjectId, ObjectV)>,
    MergeError,
>
    decreases rws.len(),
{
    if rws.len() == 0 {
        Ok(t)
    } else {
        match t_get(t, rws[0].0) {
            Some(ObjectV::Dictionary(e)) => apply_urls(
                t_set(
                    t,
                    rws[0].0,
                    ObjectV::Dictionary(
                        v_set(
                            v_remove(e, k_action()),
                            k_dest(),
                            ObjectV::Array(
                                seq![
                                    ObjectV::Reference(rws[0].1),
                                    ObjectV::Name(k_fit()),
                                ],
                            ),
                        ),
                    ),
                ),
                rws.skip(1),
            ),
            _ => Err(MergeError::BadAnnotations),
        }
    }
}

/// Whether every recorded ordinal names a page of the document.
pub open spec fn ords_in_range(ords: Seq<(Seq<u8>, int)>, page_count: int) -> bool {
    forall|i: int| 0 <= i < ords.len() ==> 0 <= #[trigger] ords[i].1 < page_count
}

/// The whole rewriting stage: the named destinations and page order are
/// snapshotted, every page's annotations are examined in order, and the
/// staged rewrites are applied — anchors first, then addresses.  The
/// document keeps its trailer and id bound; the two problem lists come out
/// in scan order, addresses first.
pub open spec fn rewrite_spec(doc: DocumentV, base: Seq<u8>, ords: Seq<(Seq<u8>, int)>) -> Result<
    (DocumentV, Seq<Seq<u8>>, Seq<Seq<u8>>),
    MergeError,
> {
    let page_ids = page_ids_of(doc);
    if !ords_in_range(ords, page_ids.len() as int) {
        Err(MergeError::PageOrdinalOutOfRange)
    } else {
        match catalog_of(doc) {
            None => Err(MergeError::NoCatalog),
            Some(cp) => {
                let dests = named_dests_of(doc, cp.1);
                match pages_fold(doc, dests, ords, page_ids, base, 0, empty_rewrites()) {
                    Err(e) => Err(e),
                    Ok(acc) => match apply_anchors(doc.objects, acc.anchors_rw) {
                        Err(e) => Err(e),
                        Ok(t1) => match apply_urls(t1, acc.urls_rw) {
                            Err(e) => Err(e),
                            Ok(t2) => Ok(
                                (
                                    DocumentV { objects: t2, ..doc },
                                    acc.problem_urls,
                                    acc.problem_anchors,
                                ),
                            ),
                        },
                    },
                }
            },
        }
    }
}

/// The mathematical value of an ordinal list.
pub open spec fn ords_view(ords: Vec<(Vec<u8>, usize)>) -> Seq<(Seq<u8>, int)> {
    Seq::new(
        ords@.len(),
        |i: int|
            if 0 <= i < ords@.len() {
                (ords@[i].0@, ords@[i].1 as int)
            } else {
                (Seq::empty(), 0int)
            },
    )
}

/// The mathematical values of a list of byte strings.
pub open spec fn byte_lists_view(v: Vec<Vec<u8>>) -> Seq<Seq<u8>> {
    Seq::new(
        v@.len(),
        |i: int|
            if 0 <= i < v@.len() {
                v@[i]@
            } else {
                Seq::empty()
            },
    )
}

/// The mathematical value of the staged rewrites and problem lists.
pub open spec fn acc_view(
    anch: Vec<(ObjectId, Object, bool)>,
    urls: Vec<(ObjectId, ObjectId)>,
    pu: Vec<Vec<u8>>,
    pa: Vec<Vec<u8>>,
) -> RewriteAcc {
    RewriteAcc {
        anchors_rw: Seq::new(
            anch@.len(),
            |i: int|
                if 0 <= i < anch@.len() {
                    (anch@[i].0, crate::object::obj_view(anch@[i].1), anch@[i].2)
                } else {
                    (ObjectId { num: 0, gen: 0 }, ObjectV::Null, false)
                },
        ),
        urls_rw: urls@,
        problem_urls: byte_lists_view(pu),
        problem_anchors: byte_lists_view(pa),
    }
}

/// First-match lookup of a held address gives a recorded ordinal.
pub proof fn lemma_ord_first_match(ords: Seq<(Seq<u8>, int)>, url: Seq<u8>, i: int)
    requires
        0 <= i <= ords.len(),
        forall|j: int| 0 <= j < i ==> ords[j].0 != url,
        i < ords.len() ==> ords[i].0 == url,
    ensures
        i < ords.len() ==> ord_get(ords, url) == Some(ords[i].1),
        i == ords.len() ==> ord_get(ords, url) is None,
    decreases ords.len(),
{
    if ords.len() == 0 {
    } else if ords[0].0 == url {
    } else {
        assert(forall|j: int| 0 <= j < i - 1 ==> ords.skip(1)[j] == ords[j + 1]);
        lemma_ord_first_match(ords.skip(1), url, i - 1);
    }
}

/// An ordinal found under an address was recorded, so it is in range when
/// they all are.
pub proof fn lemma_ord_get_range(ords: Seq<(Seq<u8>, int)>, url: Seq<u8>, c: int)
    requires
        ords_in_range(ords, c),
        ord_get(ords, url) is Some,
    ensures
        0 <= ord_get(ords, url).unwrap() < c,
    decreases ords.len(),
{
    if ords.len() == 0 {
    } else if ords[0].0 == url {
    } else {
        assert(forall|j: int| 0 <= j < ords.skip(1).len() ==> ords.skip(1)[j] == ords[j + 1]);
        lemma_ord_get_range(ords.skip(1), url, c);
    }
}

/// Each new element's reference, if any, lands at the end of the collected
/// reference list.
pub proof fn lemma_kids_refs_push(s: Seq<ObjectV>, x: ObjectV)
    ensures
        kids_refs(s.push(x)) == kids_refs(s) + (match x {
            ObjectV::Reference(id) => seq![id],
            _ => Seq::empty(),
        }),
    decreases s.len(),
{
    if s.len() == 0 {
        assert(s.push(x)[0] == x);
        assert(s.push(x).skip(1) =~= Seq::<ObjectV>::empty());
        assert(kids_refs(s.push(x).skip(1)) =~= Seq::<ObjectId>::empty());
        assert(kids_refs(s) =~= Seq::<ObjectId>::empty());
        match x {
            ObjectV::Reference(id) => {
                assert(kids_refs(s.push(x)) =~= kids_refs(s) + seq![id]);
            },
            _ => {
                assert(kids_refs(s.push(x)) =~= kids_refs(s) + Seq::<ObjectId>::empty());
            },
        }
    } else {
        lemma_kids_refs_push(s.skip(1), x);
        assert(s.push(x)[0] == s[0]);
        assert(s.push(x).skip(1) =~= s.skip(1).push(x));
        match s[0] {
            ObjectV::Reference(id) => {
                assert(kids_refs(s.push(x)) =~= kids_refs(s) + (match x {
                    ObjectV::Reference(id2) => seq![id2],
                    _ => Seq::empty(),
                }));
            },
            _ => {},
        }
    }
}

/// A dictionary field read through one level of reference, as [`dict_in`]
/// gives it; the result is a fresh copy.
fn dict_in_exec(doc: &Document, e: &Vec<(Vec<u8>, Object)>, key: &[u8]) -> (r: Option<
    Vec<(Vec<u8>, Object)>,
>)
    ensures
        match r {
            Some(d) => dict_in(doc@, crate::object::entries_view_of(*e), key@) == Some(
                crate::object::entries_view_of(d),
            ),
            None => dict_in(doc@, crate::object::entries_view_of(*e), key@) is None,
        },
{
    match crate::object::dict_get(e, key) {
        Some(Object::Dictionary(d)) => Some(crate::object::clone_entries(d)),
        Some(Object::Reference(id)) => match doc.get(*id) {
            Some(Object::Dictionary(d)) => Some(crate::object::clone_entries(d)),
            _ => None,
        },
        _ => None,
    }
}

/// The document's catalog, freshly copied: the dictionary its trailer's
/// root reference points at.
pub fn get_catalog(doc: &Document) -> (r: Option<(ObjectId, Vec<(Vec<u8>, Object)>)>)
    ensures
        match r {
            Some(p) => catalog_of(doc@) == Some((p.0, crate::object::entries_view_of(p.1))),
            None => catalog_of(doc@) is None,
        },
{
    match crate::object::dict_get(&doc.trailer, crate::names::key_root().as_slice()) {
        Some(Object::Reference(rid)) => match doc.get(*rid) {
            Some(Object::Dictionary(e)) => Some((*rid, crate::object::clone_entries(e))),
            _ => None,
        },
        _ => None,
    }
}

/// The named-destinations table, freshly copied: the catalog's destination
/// dictionary, else the one under its name tree, else empty.  Fails only
/// when the document has no catalog.
pub fn get_named_dests(doc: &Document) -> (r: Result<Vec<(Vec<u8>, Object)>, MergeError>)
    ensures
        match r {
            Ok(d) => catalog_of(doc@) is Some && crate::object::entries_view_of(d)
                == named_dests_of(doc@, catalog_of(doc@).unwrap().1),
            Err(e) => e == MergeError::NoCatalog && catalog_of(doc@) is None,
        },
{
    let cat = match get_catalog(doc) {
        Some(p) => p.1,
        None => {
            return Err(MergeError::NoCatalog);
        },
    };
    match dict_in_exec(doc, &cat, crate::names::key_dests().as_slice()) {
        Some(d) => Ok(d),
        None => match dict_in_exec(doc, &cat, crate::names::key_names().as_slice()) {
            Some(n) => match dict_in_exec(doc, &n, crate::names::key_dests().as_slice()) {
                Some(d) => Ok(d),
                None => Ok(Vec::new()),
            },
            None => Ok(Vec::new()),
        },
        // an absent table resolves no anchors, and that is reported, not fatal
    }
}

/// The document's pages in page order, as [`page_ids_of`] gives them.
#[verifier::loop_isolation(false)]
pub fn get_page_ids(doc: &Document) -> (r: Vec<ObjectId>)
    ensures
        r@ == page_ids_of(doc@),
{
    let cat = match get_catalog(doc) {
        Some(p) => p.1,
        None => {
            assert(page_ids_of(doc@) =~= Seq::<ObjectId>::empty());
            return Vec::new();
        },
    };
    let pe = match dict_in_exec(doc, &cat, crate::names::key_pages().as_slice()) {
        Some(pe) => pe,
        None => {
            assert(page_ids_of(doc@) =~= Seq::<ObjectId>::empty());
            return Vec::new();
        },
    };
    match crate::object::dict_get(&pe, crate::names::key_kids().as_slice()) {
        Some(Object::Array(vs)) => {
            let ghost vsv = crate::object::obj_view(Object::Array(*vs))->Array_0;
            let mut out: Vec<ObjectId> = Vec::new();
            proof {
                assert(kids_refs(vsv.take(0)) =~= Seq::<ObjectId>::empty());
                assert(out@ =~= kids_refs(vsv.take(0)));
            }
            let mut i: usize = 0;
            while i < vs.len()
                invariant
                    i <= vs.len(),
                    vsv.len() == vs@.len(),
                    forall|j: int|
                        0 <= j < vs@.len() ==> vsv[j] == crate::object::obj_view(vs@[j]),
                    out@ == kids_refs(vsv.take(i as int)),
                decreases vs.len() - i,
            {
                proof {
                    lemma_kids_refs_push(vsv.take(i as int), vsv[i as int]);
                    assert(vsv.take(i as int).push(vsv[i as int]) =~= vsv.take(i as int + 1));
                }
                match &vs[i] {
                    Object::Reference(id) => {
                        out.push(*id);
                        assert(out@ =~= kids_refs(vsv.take(i as int + 1)));
                    },
                    _ => {
                        assert(out@ =~= kids_refs(vsv.take(i as int + 1)));
                    },
                }
                i += 1;
            }
            assert(vsv.take(vs@.len() as int) =~= vsv);
            assert(page_ids_of(doc@) == kids_refs(vsv));
            out
        },
        _ => {
            assert(page_ids_of(doc@) =~= Seq::<ObjectId>::empty());
            Vec::new()
        },
    }
}

/// First-match lookup of an address in the ordinal list, as [`ord_get`]
/// gives it.
fn ord_lookup(ords: &Vec<(Vec<u8>, usize)>, url: &Vec<u8>) -> (r: Option<usize>)
    ensures
        match r {
            Some(n) => ord_get(ords_view(*ords), url@) == Some(n as int),
            None => ord_get(ords_view(*ords), url@) is None,
        },
{
    let ghost ov = ords_view(*ords);
    let mut i: usize = 0;
    while i < ords.len()
        invariant
            i <= ords.len(),
            ov == ords_view(*ords),
            ov.len() == ords@.len(),
            forall|j: int| 0 <= j < i ==> ov[j].0 != url@,
        decreases ords.len() - i,
    {
        if crate::object::bytes_eq(ords[i].0.as_slice(), url.as_slice()) {
            proof {
                lemma_ord_first_match(ov, url@, i as int);
            }
            return Some(ords[i].1);
        }
        i += 1;
    }
    proof {
        lemma_ord_first_match(ov, url@, ords.len() as int);
    }
    None
}

/// One problem entry, as [`problem_msg`] gives it.
fn problem_bytes(n1: u64, tail: &[u8]) -> (r: Vec<u8>)
    requires
        n1 >= 1,
    ensures
        r@ == problem_msg(n1 as nat, tail@),
{
    let head = crate::names::key_page_no_prefix();
    let digits = crate::text::dec_bytes(n1);
    let sep = crate::names::key_colon_space();
    let a = crate::text::bytes_concat(head.as_slice(), digits.as_slice());
    let b = crate::text::bytes_concat(a.as_slice(), sep.as_slice());
    let r = crate::text::bytes_concat(b.as_slice(), tail);
    assert(r@ =~= problem_msg(n1 as nat, tail@));
    r
}

/// A dictionary field read with one level of reference chasing, as
/// [`deref_once`] gives it.
fn get_deref<'a>(doc: &'a Document, e: &'a Vec<(Vec<u8>, Object)>, key: &[u8]) -> (r: Option<
    &'a Object,
>)
    ensures
        match r {
            Some(o) => deref_once(doc@, v_get(crate::object::entries_view_of(*e), key@)) == Some(
                o@,
            ),
            None => deref_once(doc@, v_get(crate::object::entries_view_of(*e), key@)) is None,
        },
{
    match crate::object::dict_get(e, key) {
        Some(Object::Reference(id)) => doc.get(*id),
        x => x,
    }
}

/// An annotation array resolved into id–entry pairs, as [`annots_of`] gives
/// it; the entries are fresh copies.
#[verifier::loop_isolation(false)]
fn collect_annots(doc: &Document, vs: &Vec<Object>) -> (r: Result<
    Vec<(ObjectId, Vec<(Vec<u8>, Object)>)>,
    MergeError,
>)
    ensures
        ({
            let vsv = crate::object::obj_view(Object::Array(*vs))->Array_0;
            match r {
                Ok(list) => annots_of(doc@, vsv) == Ok::<_, MergeError>(
                    Seq::new(
                        list@.len(),
                        |i: int|
                            if 0 <= i < list@.len() {
                                (list@[i].0, crate::object::entries_view_of(list@[i].1))
                            } else {
                                (ObjectId { num: 0, gen: 0 }, Seq::empty())
                            },
                    ),
                ),
                Err(e) => annots_of(doc@, vsv) == Err::<
                    Seq<(ObjectId, Seq<(Seq<u8>, ObjectV)>)>,
                    _,
                >(e),
            }
        }),
{
    let ghost vsv = crate::object::obj_view(Object::Array(*vs))->Array_0;
    let mut out: Vec<(ObjectId, Vec<(Vec<u8>, Object)>)> = Vec::new();
    proof {
        assert(vsv.skip(0) =~= vsv);
        assert(Seq::new(
            out@.len(),
            |i: int|
                if 0 <= i < out@.len() {
                    (out@[i].0, crate::object::entries_view_of(out@[i].1))
                } else {
                    (ObjectId { num: 0, gen: 0 }, Seq::empty())
                },
        ) =~= Seq::<(ObjectId, Seq<(Seq<u8>, ObjectV)>)>::empty());
    }
    let mut i: usize = 0;
    while i < vs.len()
        invariant
            i <= vs.len(),
            vsv.len() == vs@.len(),
            forall|j: int| 0 <= j < vs@.len() ==> vsv[j] == crate::object::obj_view(vs@[j]),
            annots_acc(doc@, vsv, Seq::empty()) == annots_acc(
                doc@,
                vsv.skip(i as int),
                Seq::new(
                    out@.len(),
                    |k: int|
                        if 0 <= k < out@.len() {
                            (out@[k].0, crate::object::entries_view_of(out@[k].1))
                        } else {
                            (ObjectId { num: 0, gen: 0 }, Seq::empty())
                        },
                ),
            ),
        decreases vs.len() - i,
    {
        let ghost before = Seq::new(
            out@.len(),
            |k: int|
                if 0 <= k < out@.len() {
                    (out@[k].0, crate::object::entries_view_of(out@[k].1))
                } else {
                    (ObjectId { num: 0, gen: 0 }, Seq::empty())
                },
        );
        assert(vsv.skip(i as int)[0] == vsv[i as int]);
        match &vs[i] {
            Object::Reference(id) => match doc.get(*id) {
                Some(Object::Dictionary(e)) => {
                    out.push((*id, crate::object::clone_entries(e)));
                    proof {
                        let after = Seq::new(
                            out@.len(),
                            |k: int|
                                if 0 <= k < out@.len() {
                                    (out@[k].0, crate::object::entries_view_of(out@[k].1))
                                } else {
                                    (ObjectId { num: 0, gen: 0 }, Seq::empty())
                                },
                        );
                        assert(after =~= before.push(
                            (*id, crate::object::entries_view_of(out@.last().1)),
                        ));
                        assert(vsv.skip(i as int).skip(1) =~= vsv.skip(i as int + 1));
                    }
                },
                _ => {
                    return Err(MergeError::BadAnnotations);
                },
            },
            _ => {
                return Err(MergeError::BadAnnotations);
            },
        }
        i += 1;
    }
    assert(vsv.skip(i as int).len() == 0);
    Ok(out)
}

/// Rewrites every site-internal link annotation of the merged document, as
/// [`rewrite_spec`] gives it: anchors and addresses that resolve become
/// direct destinations, the rest are reported.  The two problem lists come
/// out in scan order: unresolved addresses, then unresolved anchors is the
/// callers'\'' reading; here they are returned as (addresses, anchors).  On
/// failure the trailer and id bound are untouched.
#[verifier::loop_isolation(false)]
pub fn rewrite_links(doc: &mut Document, base: &[u8], ords: &Vec<(Vec<u8>, usize)>) -> (r: Result<
    (Vec<Vec<u8>>, Vec<Vec<u8>>),
    MergeError,
>)
    ensures
        match r {
            Ok(p) => rewrite_spec(old(doc)@, base@, ords_view(*ords)) == Ok::<_, MergeError>(
                (final(doc)@, byte_lists_view(p.0), byte_lists_view(p.1)),
            ),
            Err(e) => rewrite_spec(old(doc)@, base@, ords_view(*ords)) == Err::<
                (DocumentV, Seq<Seq<u8>>, Seq<Seq<u8>>),
                _,
            >(e),
        },
        final(doc)@.trailer == old(doc)@.trailer,
        final(doc)@.max_id == old(doc)@.max_id,
{
    let ghost d0 = doc@;
    let ghost ov = ords_view(*ords);
    let page_ids = get_page_ids(doc);
    let ghost pidsv = page_ids@;

    // Every recorded ordinal must name a page; the original graph promises
    // this, arbitrary callers may not.
    let mut ci: usize = 0;
    while ci < ords.len()
        invariant
            ci <= ords.len(),
            forall|j: int| 0 <= j < ci ==> 0 <= #[trigger] ov[j].1 < pidsv.len(),
        decreases ords.len() - ci,
    {
        if ords[ci].1 >= page_ids.len() {
            assert(ov[ci as int].1 == ords@[ci as int].1 as int);
            assert(!ords_in_range(ov, pidsv.len() as int));
            return Err(MergeError::PageOrdinalOutOfRange);
        }
        ci += 1;
    }
    assert(ords_in_range(ov, pidsv.len() as int));

    // Snapshot the named destinations; this also demands a catalog.
    let dests: Vec<(Vec<u8>, Object)> = match get_named_dests(doc) {
        Ok(d) => d,
        Err(e) => {
            return Err(e);
        },
    };
    let ghost destsv = crate::object::entries_view_of(dests);
    let ghost catv = catalog_of(doc@).unwrap().1;

    // The read-only scan: stage rewrites, collect problems.
    let mut anchors_rw: Vec<(ObjectId, Object, bool)> = Vec::new();
    let mut urls_rw: Vec<(ObjectId, ObjectId)> = Vec::new();
    let mut problem_urls: Vec<Vec<u8>> = Vec::new();
    let mut problem_anchors: Vec<Vec<u8>> = Vec::new();
    proof {
        let acc = acc_view(anchors_rw, urls_rw, problem_urls, problem_anchors);
        assert(acc.anchors_rw =~= empty_rewrites().anchors_rw);
        assert(acc.urls_rw =~= empty_rewrites().urls_rw);
        assert(acc.problem_urls =~= empty_rewrites().problem_urls);
        assert(acc.problem_anchors =~= empty_rewrites().problem_anchors);
        assert(acc == empty_rewrites());
    }
    let mut p: usize = 0;
    while p < page_ids.len()
        invariant
            p <= page_ids.len(),
            doc@ == d0,
            pidsv == page_ids@,
            pidsv.len() == page_ids@.len(),
            pages_fold(d0, destsv, ov, pidsv, base@, 0, empty_rewrites()) == pages_fold(
                d0,
                destsv,
                ov,
                pidsv,
                base@,
                p as int,
                acc_view(anchors_rw, urls_rw, problem_urls, problem_anchors),
            ),
        decreases page_ids.len() - p,
    {
        let ghost accp = acc_view(anchors_rw, urls_rw, problem_urls, problem_anchors);
        let pid = page_ids[p];

        // Gather this page'\''s annotations.
        let mut annots: Vec<(ObjectId, Vec<(Vec<u8>, Object)>)> = Vec::new();
        let mut have_annots = false;
        match doc.get(pid) {
            Some(Object::Dictionary(pe)) => match crate::object::dict_get(
                pe,
                crate::names::key_annots().as_slice(),
            ) {
                Some(Object::Reference(rid)) => match doc.get(*rid) {
                    Some(Object::Array(vs)) => match collect_annots(doc, vs) {
                        Ok(list) => {
                            annots = list;
                            have_annots = true;
                        },
                        Err(e) => {
                            assert(page_annots(d0, pid) == Err::<
                                Seq<(ObjectId, Seq<(Seq<u8>, ObjectV)>)>,
                                _,
                            >(e));
                            return Err(e);
                        },
                    },
                    _ => {
                        assert(page_annots(d0, pid) == Err::<
                            Seq<(ObjectId, Seq<(Seq<u8>, ObjectV)>)>,
                            _,
                        >(MergeError::BadAnnotations));
                        return Err(MergeError::BadAnnotations);
                    },
                },
                Some(Object::Array(vs)) => match collect_annots(doc, vs) {
                    Ok(list) => {
                        annots = list;
                        have_annots = true;
                    },
                    Err(e) => {
                        assert(page_annots(d0, pid) == Err::<
                            Seq<(ObjectId, Seq<(Seq<u8>, ObjectV)>)>,
                            _,
                        >(e));
                        return Err(e);
                    },
                },
                _ => {},
            },
            _ => {},
        }
        let ghost annotsv = Seq::new(
            annots@.len(),
            |k: int|
                if 0 <= k < annots@.len() {
                    (annots@[k].0, crate::object::entries_view_of(annots@[k].1))
                } else {
                    (ObjectId { num: 0, gen: 0 }, Seq::empty())
                },
        );
        proof {
            if !have_annots {
                assert(annotsv =~= Seq::<(ObjectId, Seq<(Seq<u8>, ObjectV)>)>::empty());
            }
            assert(page_annots(d0, pid) == Ok::<_, MergeError>(annotsv));
            assert(annotsv.skip(0) =~= annotsv);
        }

        // Examine them in order.
        let mut ai: usize = 0;
        while ai < annots.len()
            invariant
                ai <= annots.len(),
                doc@ == d0,
                pidsv == page_ids@,
                p < pidsv.len(),
                annotsv.len() == annots@.len(),
                forall|k: int|
                    0 <= k < annots@.len() ==> annotsv[k] == (
                        annots@[k].0,
                        crate::object::entries_view_of(annots@[k].1),
                    ),
                ords_in_range(ov, pidsv.len() as int),
                destsv == crate::object::entries_view_of(dests),
                annots_fold(d0, destsv, ov, pidsv, base@, p as int, annotsv, accp) == annots_fold(
                    d0,
                    destsv,
                    ov,
                    pidsv,
                    base@,
                    p as int,
                    annotsv.skip(ai as int),
                    acc_view(anchors_rw, urls_rw, problem_urls, problem_anchors),
                ),
            decreases annots.len() - ai,
        {
            let ghost acca = acc_view(anchors_rw, urls_rw, problem_urls, problem_anchors);
            assert(annotsv.skip(ai as int)[0] == annotsv[ai as int]);
            let aid: ObjectId = annots[ai].0;
            let ae: &Vec<(Vec<u8>, Object)> = &annots[ai].1;
            let ghost aev = crate::object::entries_view_of(*ae);
            match get_deref(doc, ae, crate::names::key_subtype().as_slice()) {
                Some(Object::Name(st)) => {
                    if crate::object::bytes_eq(st.as_slice(), crate::names::key_link().as_slice())
                    {
                        match get_deref(doc, ae, crate::names::key_action().as_slice()) {
                            Some(Object::Dictionary(ad)) => {
                                match crate::object::dict_get(
                                    ad,
                                    crate::names::key_uri().as_slice(),
                                ) {
                                    Some(Object::Text(u)) => {
                                        if starts_with_exec(u.as_slice(), base) {
                                            let spos = crate::text::after_last_exec(
                                                u.as_slice(),
                                                47,
                                            );
                                            let seg = crate::text::bytes_from(u.as_slice(), spos);
                                            let hpos = crate::text::after_last_exec(
                                                seg.as_slice(),
                                                35,
                                            );
                                            if hpos > 0 {
                                                let anchor = crate::text::bytes_from(
                                                    seg.as_slice(),
                                                    hpos,
                                                );
                                                match crate::object::dict_get(
                                                    &dests,
                                                    anchor.as_slice(),
                                                ) {
                                                    Some(dv) => {
                                                        anchors_rw.push(
                                                            (
                                                                aid,
                                                                crate::object::clone_object(dv),
                                                                true,
                                                            ),
                                                        );
                                                    },
                                                    None => {
                                                        problem_anchors.push(
                                                            problem_bytes((p + 1) as u64, u.as_slice()),
                                                        );
                                                    },
                                                }
                                            } else {
                                                let full: Vec<u8> = if seg.len() == 0 {
                                                    crate::text::bytes_concat(
                                                        u.as_slice(),
                                                        crate::names::key_index_html().as_slice(),
                                                    )
                                                } else {
                                                    crate::object::clone_bytes(u)
                                                };
                                                match ord_lookup(ords, &full) {
                                                    Some(n) => {
                                                        proof {
                                                            lemma_ord_get_range(
                                                                ov,
                                                                full@,
                                                                pidsv.len() as int,
                                                            );
                                                        }
                                                        urls_rw.push((aid, page_ids[n]));
                                                    },
                                                    None => {
                                                        problem_urls.push(
                                                            problem_bytes(
                                                                (p + 1) as u64,
                                                                full.as_slice(),
                                                            ),
                                                        );
                                                    },
                                                }
                                            }
                                        }
                                    },
                                    _ => {
                                        assert(annot_step(
                                            d0, destsv, ov, pidsv, base@, p as int, aid, aev, acca,
                                        ) == Err::<RewriteAcc, _>(MergeError::MissingUri));
                                        return Err(MergeError::MissingUri);
                                    },
                                }
                            },
                            _ => {
                                match crate::object::dict_get(
                                    ae,
                                    crate::names::key_dest().as_slice(),
                                ) {
                                    Some(Object::Name(nm)) => {
                                        match crate::object::dict_get(&dests, nm.as_slice()) {
                                            Some(dv) => {
                                                anchors_rw.push(
                                                    (
                                                        aid,
                                                        crate::object::clone_object(dv),
                                                        false,
                                                    ),
                                                );
                                            },
                                            None => {
                                                problem_anchors.push(
                                                    problem_bytes((p + 1) as u64, nm.as_slice()),
                                                );
                                            },
                                        }
                                    },
                                    _ => {},
                                }
                            },
                        }
                    }
                },
                _ => {},
            }
            proof {
                let acc2 = acc_view(anchors_rw, urls_rw, problem_urls, problem_anchors);
                let stepped = annot_step(
                    d0, destsv, ov, pidsv, base@, p as int, aid, aev, acca,
                ).unwrap();
                assert(acc2.anchors_rw =~= stepped.anchors_rw);
                assert(acc2.urls_rw =~= stepped.urls_rw);
                assert(acc2.problem_urls =~= stepped.problem_urls);
                assert(acc2.problem_anchors =~= stepped.problem_anchors);
                assert(acc2 == stepped);
                assert(annotsv.skip(ai as int).skip(1) =~= annotsv.skip(ai as int + 1));
            }
            ai += 1;
        }
        assert(annotsv.skip(ai as int).len() == 0);
        proof {
            assert(pidsv.skip(p as int)[0] == pidsv[p as int]);
        }
        p += 1;
    }

    let ghost accfin = acc_view(anchors_rw, urls_rw, problem_urls, problem_anchors);
    proof {
        assert(pages_fold(d0, destsv, ov, pidsv, base@, page_ids@.len() as int, accfin) == Ok::<
            RewriteAcc,
            MergeError,
        >(accfin));
    }

    // Apply the staged anchor rewrites; a hit that came through an
    // external action takes that action with it.
    let ghost t0 = d0.objects;
    proof {
        assert(accfin.anchors_rw.skip(0) =~= accfin.anchors_rw);
    }
    let mut k: usize = 0;
    while k < anchors_rw.len()
        invariant
            k <= anchors_rw.len(),
            doc@.trailer == d0.trailer,
            doc@.max_id == d0.max_id,
            accfin == acc_view(anchors_rw, urls_rw, problem_urls, problem_anchors),
            accfin.anchors_rw.len() == anchors_rw@.len(),
            apply_anchors(t0, accfin.anchors_rw) == apply_anchors(
                doc@.objects,
                accfin.anchors_rw.skip(k as int),
            ),
        decreases anchors_rw.len() - k,
    {
        assert(accfin.anchors_rw.skip(k as int)[0] == accfin.anchors_rw[k as int]);
        let aid = anchors_rw[k].0;
        let found = doc.get_cloned(aid);
        match found {
            Some(Object::Dictionary(mut e)) => {
                if anchors_rw[k].2 {
                    crate::object::dict_remove(&mut e, crate::names::key_action().as_slice());
                }
                crate::object::dict_set(
                    &mut e,
                    crate::names::key_dest(),
                    crate::object::clone_object(&anchors_rw[k].1),
                );
                doc.set(aid, Object::Dictionary(e));
            },
            _ => {
                return Err(MergeError::BadAnnotations);
            },
        }
        assert(accfin.anchors_rw.skip(k as int).skip(1) =~= accfin.anchors_rw.skip(k as int + 1));
        k += 1;
    }
    assert(accfin.anchors_rw.skip(k as int).len() == 0);
    let ghost t1 = apply_anchors(t0, accfin.anchors_rw).unwrap();
    proof {
        assert(t1 == doc@.objects);
        assert(accfin.urls_rw.skip(0) =~= accfin.urls_rw);
    }

    // Apply the staged address rewrites: the external action goes, a direct
    // page destination with the whole-page fit mode takes its place.
    let mut m: usize = 0;
    while m < urls_rw.len()
        invariant
            m <= urls_rw.len(),
            doc@.trailer == d0.trailer,
            doc@.max_id == d0.max_id,
            accfin == acc_view(anchors_rw, urls_rw, problem_urls, problem_anchors),
            accfin.urls_rw.len() == urls_rw@.len(),
            apply_urls(t1, accfin.urls_rw) == apply_urls(
                doc@.objects,
                accfin.urls_rw.skip(m as int),
            ),
        decreases urls_rw.len() - m,
    {
        assert(accfin.urls_rw.skip(m as int)[0] == accfin.urls_rw[m as int]);
        let aid = urls_rw[m].0;
        let pid = urls_rw[m].1;
        let found = doc.get_cloned(aid);
        match found {
            Some(Object::Dictionary(mut e)) => {
                crate::object::dict_remove(&mut e, crate::names::key_action().as_slice());
                let mut arr: Vec<Object> = Vec::new();
                arr.push(Object::Reference(pid));
                let fit_name = crate::names::key_fit();
                arr.push(Object::Name(fit_name));
                let aobj = Object::Array(arr);
                proof {
                    assert(aobj@->Array_0.len() == 2);
                    assert(crate::object::obj_view(arr@[0]) == ObjectV::Reference(pid));
                    assert(crate::object::obj_view(arr@[1]) == ObjectV::Name(k_fit()));
                    assert(aobj@->Array_0 =~= seq![
                        ObjectV::Reference(pid),
                        ObjectV::Name(k_fit()),
                    ]);
                    assert(aobj@ == ObjectV::Array(
                        seq![ObjectV::Reference(pid), ObjectV::Name(k_fit())],
                    ));
                }
                crate::object::dict_set(&mut e, crate::names::key_dest(), aobj);
                doc.set(aid, Object::Dictionary(e));
            },
            _ => {
                return Err(MergeError::BadAnnotations);
            },
        }
        assert(accfin.urls_rw.skip(m as int).skip(1) =~= accfin.urls_rw.skip(m as int + 1));
        m += 1;
    }
    assert(accfin.urls_rw.skip(m as int).len() == 0);
    proof {
        let fin = rewrite_spec(d0, base@, ov).unwrap();
        assert(fin.0.objects == doc@.objects);
        assert(fin.0.trailer == doc@.trailer);
        assert(fin.0.max_id == doc@.max_id);
        assert(fin.0 == doc@);
        assert(fin.1 == byte_lists_view(problem_urls));
        assert(fin.2 == byte_lists_view(problem_anchors));
    }
    Ok((problem_urls, problem_anchors))
}

/// A link annotation whose address resolved to a page is never left
/// holding both its external action and a fallback: the staged rewrite
/// leaves it carrying exactly the direct whole-page destination, and no
/// action.
pub proof fn lemma_url_rewrite_exclusive(e: Seq<(Seq<u8>, ObjectV)>, pid: ObjectId)
    requires
        crate::object::keys_unique(e),
    ensures
        ({
            let target = ObjectV::Array(seq![ObjectV::Reference(pid), ObjectV::Name(k_fit())]);
            let e2 = v_set(v_remove(e, k_action()), k_dest(), target);
            &&& v_get(e2, k_dest()) == Some(target)
            &&& !v_has(e2, k_action())
        }),
{
    let target = ObjectV::Array(seq![ObjectV::Reference(pid), ObjectV::Name(k_fit())]);
    let d1 = v_remove(e, k_action());
    crate::object::lemma_v_remove_gone(e, k_action());
    assert(k_action().len() == 1 && k_dest().len() == 4);
    crate::object::lemma_v_get_set_same(d1, k_dest(), target);
    crate::object::lemma_v_get_set_other(d1, k_dest(), target, k_action());
}

/// A link annotation whose anchor resolved through its action's address is
/// never left holding both that action and a fallback: the staged rewrite
/// leaves it carrying exactly the resolved destination, and no action.
pub proof fn lemma_anchor_rewrite_exclusive(e: Seq<(Seq<u8>, ObjectV)>, d: ObjectV)
    requires
        crate::object::keys_unique(e),
    ensures
        ({
            let e2 = v_set(v_remove(e, k_action()), k_dest(), d);
            &&& v_get(e2, k_dest()) == Some(d)
            &&& !v_has(e2, k_action())
        }),
{
    let d1 = v_remove(e, k_action());
    crate::object::lemma_v_remove_gone(e, k_action());
    assert(k_action().len() == 1 && k_dest().len() == 4);
    crate::object::lemma_v_get_set_same(d1, k_dest(), d);
    crate::object::lemma_v_get_set_other(d1, k_dest(), d, k_action());
}

} // verus!
