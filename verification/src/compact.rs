//! The serializer's id compaction: the whole object graph is renumbered
//! into a dense sequential id space, every reference — in objects and in
//! the trailer — moving consistently.  A reference that resolves nowhere
//! becomes the null id 0.  Compacting an already-compact graph changes
//! nothing: no id is skipped or duplicated.

use vstd::prelude::*;

use crate::document::{t_at, t_get, t_has, table_view, Document, DocumentV};
use crate::links::catalog_of;
use crate::names::{k_dest, k_first, k_outlines, k_title};
use crate::object::{
    clone_bytes, clone_entries, clone_object, dict_get, dict_has, dict_set, entries_view_of,
    obj_view, v_get, v_has, v_set, Object, ObjectId, ObjectV,
};

verus! {

broadcast use vstd::std_specs::vec::group_vec_axioms, vstd::seq::group_seq_axioms;

/// An id under compaction: the 1-based position of its row, or the null id
/// for one that resolves nowhere.
pub open spec fn compact_map(t: Seq<(ObjectId, ObjectV)>, id: ObjectId) -> ObjectId {
    if t_has(t, id) {
        ObjectId { num: (t_at(t, id) + 1) as u64, gen: 0 }
    } else {
        ObjectId { num: 0, gen: 0 }
    }
}

/// An object under compaction: every reference id is mapped, everything
/// else is kept as it is.
pub open spec fn compact_obj(o: ObjectV, t: Seq<(ObjectId, ObjectV)>) -> ObjectV
    decreases o,
{
    match o {
        ObjectV::Array(v) => ObjectV::Array(
            Seq::new(
                v.len(),
                |i: int|
                    if 0 <= i < v.len() {
                        compact_obj(v[i], t)
                    } else {
                        ObjectV::Null
                    },
            ),
        ),
        ObjectV::Dictionary(d) => ObjectV::Dictionary(compact_entries(d, t)),
        ObjectV::Stream(d, data) => ObjectV::Stream(compact_entries(d, t), data),
        ObjectV::Reference(id) => ObjectV::Reference(compact_map(t, id)),
        _ => o,
    }
}

/// Dictionary entries under compaction.
pub open spec fn compact_entries(
    d: Seq<(Seq<u8>, ObjectV)>,
    t: Seq<(ObjectId, ObjectV)>,
) -> Seq<(Seq<u8>, ObjectV)>
    decreases d,
{
    Seq::new(
        d.len(),
        |i: int|
            if 0 <= i < d.len() {
                (d[i].0, compact_obj(d[i].1, t))
            } else {
                (Seq::empty(), ObjectV::Null)
            },
    )
}

/// The whole document under compaction: row `i` takes id `i + 1`, every
/// reference follows, the trailer follows, and the id bound becomes the
/// object count.
pub open spec fn compact_spec(doc: DocumentV) -> DocumentV {
    DocumentV {
        objects: Seq::new(
            doc.objects.len(),
            |i: int|
                if 0 <= i < doc.objects.len() {
                    (
                        ObjectId { num: (i + 1) as u64, gen: 0 },
                        compact_obj(doc.objects[i].1, doc.objects),
                    )
                } else {
                    (ObjectId { num: 0, gen: 0 }, ObjectV::Null)
                },
        ),
        trailer: compact_entries(doc.trailer, doc.objects),
        max_id: doc.objects.len() as u64,
    }
}

/// Looks an id's row position up, as [`compact_map`] feeds on it.
fn find_row(t: &Vec<(ObjectId, Object)>, id: ObjectId) -> (r: Option<usize>)
    ensures
        match r {
            Some(i) => t_has(table_view(*t), id) && i == t_at(table_view(*t), id) && i
                < usize::MAX,
            None => !t_has(table_view(*t), id),
        },
{
    let ghost tv = table_view(*t);
    let mut i: usize = 0;
    while i < t.len()
        invariant
            i <= t.len(),
            tv == table_view(*t),
            tv.len() == t@.len(),
            forall|j: int| 0 <= j < i ==> tv[j].0 != id,
        decreases t.len() - i,
    {
        if t[i].0 == id {
            proof {
                crate::document::lemma_table_first_match(tv, id, i as int);
            }
            return Some(i);
        }
        i += 1;
    }
    proof {
        crate::document::lemma_table_first_match(tv, id, t.len() as int);
    }
    None
}

/// An object under compaction, as [`compact_obj`] gives it: a fresh copy
/// with every reference id mapped.
#[verifier::loop_isolation(false)]
fn compact_object_exec(o: &Object, t: &Vec<(ObjectId, Object)>) -> (r: Object)
    ensures
        r@ == compact_obj(o@, table_view(*t)),
    decreases *o,
{
    match o {
        Object::Null => Object::Null,
        Object::Boolean(b) => Object::Boolean(*b),
        Object::Integer(i) => Object::Integer(*i),
        Object::Real(x) => Object::Real(*x),
        Object::Text(s) => Object::Text(clone_bytes(s)),
        Object::Name(s) => Object::Name(clone_bytes(s)),
        Object::Array(v) => {
            let mut out: Vec<Object> = Vec::new();
            let mut i: usize = 0;
            while i < v.len()
                invariant
                    i <= v.len(),
                    out@.len() == i,
                    forall|j: int|
                        0 <= j < i ==> obj_view(out@[j]) == compact_obj(
                            obj_view(v@[j]),
                            table_view(*t),
                        ),
                decreases v.len() - i,
            {
                out.push(compact_object_exec(&v[i], t));
                i += 1;
            }
            let r = Object::Array(out);
            assert(r@->Array_0 =~= compact_obj(o@, table_view(*t))->Array_0);
            assert(r@ =~= compact_obj(o@, table_view(*t)));
            r
        },
        Object::Dictionary(d) => {
            let r = Object::Dictionary(compact_entries_exec(d, t));
            assert(r@ =~= compact_obj(o@, table_view(*t)));
            r
        },
        Object::Stream(d, data) => {
            let r = Object::Stream(compact_entries_exec(d, t), clone_bytes(data));
            assert(r@ =~= compact_obj(o@, table_view(*t)));
            r
        },
        Object::Reference(id) => match find_row(t, *id) {
            Some(i) => Object::Reference(ObjectId { num: (i + 1) as u64, gen: 0 }),
            None => Object::Reference(ObjectId { num: 0, gen: 0 }),
        },
    }
}

/// Dictionary entries under compaction, as [`compact_entries`] gives them.
#[verifier::loop_isolation(false)]
fn compact_entries_exec(d: &Vec<(Vec<u8>, Object)>, t: &Vec<(ObjectId, Object)>) -> (r: Vec<
    (Vec<u8>, Object),
>)
    ensures
        entries_view_of(r) == compact_entries(entries_view_of(*d), table_view(*t)),
    decreases *d,
{
    let mut out: Vec<(Vec<u8>, Object)> = Vec::new();
    let mut i: usize = 0;
    while i < d.len()
        invariant
            i <= d.len(),
            out@.len() == i,
            forall|j: int|
                0 <= j < i ==> out@[j].0@ == d@[j].0@ && obj_view(out@[j].1) == compact_obj(
                    obj_view(d@[j].1),
                    table_view(*t),
                ),
        decreases d.len() - i,
    {
        let key = clone_bytes(&d[i].0);
        let val = compact_object_exec(&d[i].1, t);
        out.push((key, val));
        i += 1;
    }
    assert(entries_view_of(out) =~= compact_entries(entries_view_of(*d), table_view(*t)));
    out
}

/// Renumbers the whole graph into a dense sequential id space, as
/// [`compact_spec`] gives it.
#[verifier::loop_isolation(false)]
pub fn compact_ids(doc: &mut Document)
    ensures
        final(doc)@ == compact_spec(old(doc)@),
{
    let ghost d0 = doc@;
    let mut out: Vec<(ObjectId, Object)> = Vec::new();
    let mut i: usize = 0;
    while i < doc.objects.len()
        invariant
            i <= doc.objects.len(),
            doc@ == d0,
            d0.objects.len() == doc.objects@.len(),
            out@.len() == i,
            forall|j: int|
                0 <= j < i ==> out@[j].0 == (ObjectId { num: (j + 1) as u64, gen: 0 })
                    && obj_view(out@[j].1) == compact_obj(d0.objects[j].1, d0.objects),
        decreases doc.objects.len() - i,
    {
        let val = compact_object_exec(&doc.objects[i].1, &doc.objects);
        out.push((ObjectId { num: i as u64 + 1, gen: 0 }, val));
        i += 1;
    }
    let new_trailer = compact_entries_exec(&doc.trailer, &doc.objects);
    let new_max: u64 = doc.objects.len() as u64;
    doc.objects = out;
    doc.trailer = new_trailer;
    doc.max_id = new_max;
    proof {
        let fin = compact_spec(d0);
        assert(doc@.objects =~= fin.objects);
        assert(doc@.trailer == fin.trailer);
        assert(doc@.max_id == fin.max_id);
        assert(doc@ == fin);
    }
}

/// Every reference of a compacted object is clean: generation 0 and a
/// number no greater than the table's size.
pub open spec fn refs_clean(o: ObjectV, n: int) -> bool
    decreases o,
{
    match o {
        ObjectV::Reference(id) => id.gen == 0 && id.num <= n,
        ObjectV::Array(v) => forall|i: int| 0 <= i < v.len() ==> refs_clean(#[trigger] v[i], n),
        ObjectV::Dictionary(d) => forall|i: int|
            0 <= i < d.len() ==> refs_clean((#[trigger] d[i]).1, n),
        ObjectV::Stream(d, _) => forall|i: int|
            0 <= i < d.len() ==> refs_clean((#[trigger] d[i]).1, n),
        _ => true,
    }
}

/// Compaction leaves only clean references behind.
pub proof fn lemma_compact_obj_clean(o: ObjectV, t: Seq<(ObjectId, ObjectV)>)
    ensures
        refs_clean(compact_obj(o, t), t.len() as int),
    decreases o,
{
    match o {
        ObjectV::Array(v) => {
            assert forall|i: int| 0 <= i < v.len() implies refs_clean(
                compact_obj(#[trigger] v[i], t),
                t.len() as int,
            ) by {
                lemma_compact_obj_clean(v[i], t);
            }
            assert(refs_clean(compact_obj(o, t), t.len() as int));
        },
        ObjectV::Dictionary(d) => {
            assert forall|i: int| 0 <= i < d.len() implies refs_clean(
                compact_obj((#[trigger] d[i]).1, t),
                t.len() as int,
            ) by {
                lemma_compact_obj_clean(d[i].1, t);
            }
            assert forall|i: int| 0 <= i < compact_entries(d, t).len() implies refs_clean(
                (#[trigger] compact_entries(d, t)[i]).1,
                t.len() as int,
            ) by {
                assert(compact_entries(d, t)[i] == (d[i].0, compact_obj(d[i].1, t)));
            }
            assert(compact_obj(o, t) == ObjectV::Dictionary(compact_entries(d, t)));
            assert(refs_clean(ObjectV::Dictionary(compact_entries(d, t)), t.len() as int));
            assert(refs_clean(compact_obj(o, t), t.len() as int));
        },
        ObjectV::Stream(d, data) => {
            assert forall|i: int| 0 <= i < d.len() implies refs_clean(
                compact_obj((#[trigger] d[i]).1, t),
                t.len() as int,
            ) by {
                lemma_compact_obj_clean(d[i].1, t);
            }
            assert forall|i: int| 0 <= i < compact_entries(d, t).len() implies refs_clean(
                (#[trigger] compact_entries(d, t)[i]).1,
                t.len() as int,
            ) by {
                assert(compact_entries(d, t)[i] == (d[i].0, compact_obj(d[i].1, t)));
            }
            assert(compact_obj(o, t) == ObjectV::Stream(compact_entries(d, t), data));
            assert(refs_clean(ObjectV::Stream(compact_entries(d, t), data), t.len() as int));
            assert(refs_clean(compact_obj(o, t), t.len() as int));
        },
        ObjectV::Reference(id) => {
            if t_has(t, id) {
                crate::document::lemma_t_at_range(t, id);
            }
        },
        _ => {},
    }
}

/// In a compact table, a clean id is its own image: row `k - 1` carries id
/// `k`, and the null id resolves nowhere.
pub proof fn lemma_compact_table_map(ct: Seq<(ObjectId, ObjectV)>, id: ObjectId)
    requires
        ct.len() <= u64::MAX,
        forall|i: int|
            0 <= i < ct.len() ==> (#[trigger] ct[i].0) == (ObjectId {
                num: (i + 1) as u64,
                gen: 0,
            }),
        id.gen == 0,
        id.num <= ct.len(),
    ensures
        compact_map(ct, id) == id,
{
    if id.num == 0 {
        assert(forall|j: int| 0 <= j < ct.len() ==> (#[trigger] ct[j].0).num == j + 1);
        crate::document::lemma_table_first_match(ct, id, ct.len() as int);
    } else {
        assert(forall|j: int| 0 <= j < ct.len() ==> (#[trigger] ct[j].0).num == j + 1);
        crate::document::lemma_table_first_match(ct, id, id.num - 1);
    }
}

/// Compacting a clean object over a compact table changes nothing.
pub proof fn lemma_compact_obj_fixed(o: ObjectV, ct: Seq<(ObjectId, ObjectV)>)
    requires
        ct.len() <= u64::MAX,
        refs_clean(o, ct.len() as int),
        forall|i: int|
            0 <= i < ct.len() ==> (#[trigger] ct[i].0) == (ObjectId {
                num: (i + 1) as u64,
                gen: 0,
            }),
    ensures
        compact_obj(o, ct) == o,
    decreases o,
{
    match o {
        ObjectV::Array(v) => {
            assert forall|i: int| 0 <= i < v.len() implies compact_obj(#[trigger] v[i], ct)
                == v[i] by {
                assert(refs_clean(v[i], ct.len() as int));
                lemma_compact_obj_fixed(v[i], ct);
            }
            assert(compact_obj(o, ct)->Array_0 =~= v);
        },
        ObjectV::Dictionary(d) => {
            assert forall|i: int| 0 <= i < d.len() implies (#[trigger] compact_entries(d, ct)[i])
                == d[i] by {
                assert(refs_clean(d[i].1, ct.len() as int));
                lemma_compact_obj_fixed(d[i].1, ct);
                assert(compact_entries(d, ct)[i] == (d[i].0, compact_obj(d[i].1, ct)));
                assert(d[i] == (d[i].0, d[i].1));
            }
            assert(compact_obj(o, ct) == ObjectV::Dictionary(compact_entries(d, ct)));
            assert(compact_entries(d, ct) =~= d);
        },
        ObjectV::Stream(d, data) => {
            assert forall|i: int| 0 <= i < d.len() implies (#[trigger] compact_entries(d, ct)[i])
                == d[i] by {
                assert(refs_clean(d[i].1, ct.len() as int));
                lemma_compact_obj_fixed(d[i].1, ct);
                assert(compact_entries(d, ct)[i] == (d[i].0, compact_obj(d[i].1, ct)));
                assert(d[i] == (d[i].0, d[i].1));
            }
            assert(compact_obj(o, ct) == ObjectV::Stream(compact_entries(d, ct), data));
            assert(compact_entries(d, ct) =~= d);
        },
        ObjectV::Reference(id) => {
            lemma_compact_table_map(ct, id);
        },
        _ => {},
    }
}

/// Renumbering is idempotent: compacting an already-compacted graph is the
/// identity — no id in the final output is skipped or duplicated, and a
/// second pass moves nothing.
pub proof fn lemma_compaction_idempotent(doc: DocumentV)
    requires
        doc.objects.len() <= u64::MAX,
    ensures
        compact_spec(compact_spec(doc)) == compact_spec(doc),
{
    let c = compact_spec(doc);
    let cc = compact_spec(c);
    assert forall|j: int| 0 <= j < c.objects.len() implies (#[trigger] c.objects[j].0)
        == (ObjectId { num: (j + 1) as u64, gen: 0 }) by {}
    assert forall|i: int| 0 <= i < c.objects.len() implies #[trigger] cc.objects[i]
        == c.objects[i] by {
        lemma_compact_obj_clean(doc.objects[i].1, doc.objects);
        assert(c.objects[i] == (
            ObjectId { num: (i + 1) as u64, gen: 0 },
            compact_obj(doc.objects[i].1, doc.objects),
        ));
        lemma_compact_obj_fixed(c.objects[i].1, c.objects);
        assert(cc.objects[i] == (
            ObjectId { num: (i + 1) as u64, gen: 0 },
            compact_obj(c.objects[i].1, c.objects),
        ));
    }
    assert(cc.objects =~= c.objects);
    assert forall|i: int| 0 <= i < c.trailer.len() implies #[trigger] cc.trailer[i]
        == c.trailer[i] by {
        lemma_compact_obj_clean(doc.trailer[i].1, doc.objects);
        assert(c.trailer[i] == (doc.trailer[i].0, compact_obj(doc.trailer[i].1, doc.objects)));
        lemma_compact_obj_fixed(c.trailer[i].1, c.objects);
        assert(cc.trailer[i] == (c.trailer[i].0, compact_obj(c.trailer[i].1, c.objects)));
    }
    assert(cc.trailer =~= c.trailer);
}

/// The replacement jump target for a dangling bookmark: the destination of
/// the merged outline root's first top-level child, where that whole chain
/// of structure is present.
pub open spec fn first_child_dest(doc: DocumentV) -> Option<ObjectV> {
    match catalog_of(doc) {
        Some(cp) => match v_get(cp.1, k_outlines()) {
            Some(ObjectV::Reference(oid)) => match t_get(doc.objects, oid) {
                Some(ObjectV::Dictionary(oe)) => match v_get(oe, k_first()) {
                    Some(ObjectV::Reference(fid)) => match t_get(doc.objects, fid) {
                        Some(ObjectV::Dictionary(fe)) => match v_get(fe, k_dest()) {
                            Some(ObjectV::Array(a)) => Some(ObjectV::Array(a)),
                            _ => None,
                        },
                        _ => None,
                    },
                    _ => None,
                },
                _ => None,
            },
            _ => None,
        },
        _ => None,
    }
}

/// One row with its bookmark repointed where needed: a titled dictionary
/// whose destination array opens with a reference that resolves nowhere in
/// the table gets the replacement destination; every other row stays.
pub open spec fn repoint_row(
    row: (ObjectId, ObjectV),
    t: Seq<(ObjectId, ObjectV)>,
    repl: ObjectV,
) -> (ObjectId, ObjectV) {
    match row.1 {
        ObjectV::Dictionary(e) => if v_has(e, k_title()) {
            match v_get(e, k_dest()) {
                Some(ObjectV::Array(a)) => if a.len() > 0 && (a[0] matches ObjectV::Reference(pid)
                    && !t_has(t, pid)) {
                    (row.0, ObjectV::Dictionary(v_set(e, k_dest(), repl)))
                } else {
                    (row.0, row.1)
                },
                _ => (row.0, row.1),
            }
        } else {
            (row.0, row.1)
        },
        _ => (row.0, row.1),
    }
}

/// The document with every dangling bookmark repointed to the first
/// available top-level child's destination; without a usable replacement,
/// or without an outline, nothing moves.
pub open spec fn repoint_spec(doc: DocumentV) -> DocumentV {
    match first_child_dest(doc) {
        None => doc,
        Some(repl) => DocumentV {
            objects: Seq::new(
                doc.objects.len(),
                |i: int|
                    if 0 <= i < doc.objects.len() {
                        repoint_row(doc.objects[i], doc.objects, repl)
                    } else {
                        (ObjectId { num: 0, gen: 0 }, ObjectV::Null)
                    },
            ),
            ..doc
        },
    }
}

/// The replacement jump target, freshly copied, as [`first_child_dest`]
/// gives it.
fn find_first_child_dest(doc: &Document) -> (r: Option<Object>)
    ensures
        match r {
            Some(o) => first_child_dest(doc@) == Some(o@),
            None => first_child_dest(doc@) is None,
        },
{
    let cat = match crate::links::get_catalog(doc) {
        Some(p) => p.1,
        None => {
            return None;
        },
    };
    let oid = match dict_get(&cat, crate::names::key_outlines().as_slice()) {
        Some(Object::Reference(oid)) => *oid,
        _ => {
            return None;
        },
    };
    let fid = match doc.get(oid) {
        Some(Object::Dictionary(oe)) => match dict_get(oe, crate::names::key_first().as_slice()) {
            Some(Object::Reference(fid)) => *fid,
            _ => {
                return None;
            },
        },
        _ => {
            return None;
        },
    };
    match doc.get(fid) {
        Some(Object::Dictionary(fe)) => match dict_get(fe, crate::names::key_dest().as_slice()) {
            Some(a) => match a {
                Object::Array(_) => Some(clone_object(a)),
                _ => None,
            },
            _ => None,
        },
        _ => None,
    }
}

/// One object repointed, as [`repoint_row`] gives the row it forms with
/// its id.
fn repoint_one(row_id: ObjectId, o: &Object, t: &Vec<(ObjectId, Object)>, repl: &Object) -> (r:
    Object)
    ensures
        (row_id, obj_view(r)) == repoint_row((row_id, o@), table_view(*t), repl@),
{
    match o {
        Object::Dictionary(e) => {
            if !dict_has(e, crate::names::key_title().as_slice()) {
                return clone_object(o);
            }
            match dict_get(e, crate::names::key_dest().as_slice()) {
                Some(Object::Array(a)) => {
                    if a.len() == 0 {
                        return clone_object(o);
                    }
                    match &a[0] {
                        Object::Reference(pid) => match crate::import::table_get(t, *pid) {
                            Some(_) => {
                                return clone_object(o);
                            },
                            None => {
                                proof {
                                    let ev = entries_view_of(*e);
                                    let vd = v_get(ev, k_dest());
                                    assert(vd is Some);
                                    assert(vd.unwrap() is Array);
                                    let sv = vd.unwrap()->Array_0;
                                    assert(sv.len() == a@.len());
                                    assert(sv[0] == obj_view(a@[0]));
                                    assert(obj_view(a@[0]) == ObjectV::Reference(*pid));
                                    assert(!t_has(table_view(*t), *pid));
                                    assert(v_has(ev, k_title()));
                                    assert(o@ == ObjectV::Dictionary(ev));
                                }
                                let mut e2 = clone_entries(e);
                                dict_set(&mut e2, crate::names::key_dest(), clone_object(repl));
                                proof {
                                    let ev = entries_view_of(*e);
                                    assert(entries_view_of(e2) == v_set(ev, k_dest(), repl@));
                                    assert(repoint_row((row_id, o@), table_view(*t), repl@) == (
                                        row_id,
                                        ObjectV::Dictionary(v_set(ev, k_dest(), repl@)),
                                    ));
                                }
                                return Object::Dictionary(e2);
                            },
                        },
                        head => {
                            proof {
                                crate::object::lemma_obj_view_variant(*head);
                            }
                            return clone_object(o);
                        },
                    }
                },
                Some(other) => {
                    proof {
                        crate::object::lemma_obj_view_variant(*other);
                    }
                    return clone_object(o);
                },
                None => {
                    return clone_object(o);
                },
            }
        },
        _ => clone_object(o),
    }
}

/// Repoints every dangling bookmark, as [`repoint_spec`] gives it.
#[verifier::loop_isolation(false)]
pub fn repoint_dangling_bookmarks(doc: &mut Document)
    ensures
        final(doc)@ == repoint_spec(old(doc)@),
{
    let ghost d0 = doc@;
    let repl: Object = match find_first_child_dest(doc) {
        Some(o) => o,
        None => {
            return ;
        },
    };
    let ghost replv = repl@;
    let mut out: Vec<(ObjectId, Object)> = Vec::new();
    let mut i: usize = 0;
    while i < doc.objects.len()
        invariant
            i <= doc.objects.len(),
            doc@ == d0,
            d0.objects.len() == doc.objects@.len(),
            first_child_dest(d0) == Some(replv),
            replv == obj_view(repl),
            out@.len() == i,
            forall|j: int|
                0 <= j < i ==> (out@[j].0, obj_view(out@[j].1)) == repoint_row(
                    d0.objects[j],
                    d0.objects,
                    replv,
                ),
        decreases doc.objects.len() - i,
    {
        let row_id = doc.objects[i].0;
        let val = repoint_one(row_id, &doc.objects[i].1, &doc.objects, &repl);
        out.push((row_id, val));
        proof {
            assert(d0.objects[i as int] == (row_id, obj_view(doc.objects@[i as int].1)));
            assert((out@[i as int].0, obj_view(out@[i as int].1)) == repoint_row(
                d0.objects[i as int],
                d0.objects,
                replv,
            ));
        }
        i += 1;
    }
    doc.objects = out;
    proof {
        let fin = repoint_spec(d0);
        assert(doc@.objects =~= fin.objects);
        assert(doc@ == fin);
    }
}

} // verus!
