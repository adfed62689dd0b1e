//! The object importer: renumbers each source document's object ids into one
//! shared namespace and collects all objects, all page objects, and the
//! ordinal of each source's first page in final page order.
//!
//! Sources are processed in the given order with a next-free-id counter
//! seeded at 1.  A source's ids are shifted by a fixed offset so its lowest
//! object number lands on the counter, and the counter moves one past its
//! highest.  A reference to a number outside the source's own id range is
//! dangling in the source already; it is sent to the null id 0 and the final
//! compaction stage deals with it.

use vstd::prelude::*;

use crate::document::{t_get, t_has, table_view};
use crate::object::{clone_bytes, entries_view_of, obj_view, Object, ObjectId, ObjectV};
use crate::MergeError;

verus! {

broadcast use vstd::std_specs::vec::group_vec_axioms, vstd::seq::group_seq_axioms;

/// One source document as the importer takes it: the address it was rendered
/// from, its object table, and its page ids in the source's own page order.
pub struct SourceDoc {
    pub url: Vec<u8>,
    pub objects: Vec<(ObjectId, Object)>,
    pub pages: Vec<ObjectId>,
}

/// The mathematical value of a [`SourceDoc`].
pub struct SourceV {
    pub url: Seq<u8>,
    pub objects: Seq<(ObjectId, ObjectV)>,
    pub pages: Seq<ObjectId>,
}

impl View for SourceDoc {
    type V = SourceV;

    open spec fn view(&self) -> SourceV {
        SourceV { url: self.url@, objects: table_view(self.objects), pages: self.pages@ }
    }
}

/// The mathematical values of a list of sources.
pub open spec fn sources_view(ss: Vec<SourceDoc>) -> Seq<SourceV> {
    Seq::new(
        ss@.len(),
        |i: int|
            if 0 <= i < ss@.len() {
                ss@[i]@
            } else {
                SourceV { url: Seq::empty(), objects: Seq::empty(), pages: Seq::empty() }
            },
    )
}

/// An id under the importer's translation for one source: a number inside the
/// source's own id range `[lo, hi]` is shifted so `lo` lands on `base`; a
/// number outside it was dangling already and is sent to the null id.
pub open spec fn shift_id(id: ObjectId, lo: int, hi: int, base: int) -> ObjectId {
    if lo <= id.num <= hi {
        ObjectId { num: (id.num - lo + base) as u64, gen: id.gen }
    } else {
        ObjectId { num: 0, gen: 0 }
    }
}

/// An object under the importer's translation: every reference id is shifted,
/// everything else is kept as it is.
pub open spec fn shift_v(o: ObjectV, lo: int, hi: int, base: int) -> ObjectV
    decreases o,
{
    match o {
        ObjectV::Array(v) => ObjectV::Array(
            Seq::new(
                v.len(),
                |i: int|
                    if 0 <= i < v.len() {
                        shift_v(v[i], lo, hi, base)
                    } else {
                        ObjectV::Null
                    },
            ),
        ),
        ObjectV::Dictionary(d) => ObjectV::Dictionary(shift_entries(d, lo, hi, base)),
        ObjectV::Stream(d, data) => ObjectV::Stream(shift_entries(d, lo, hi, base), data),
        ObjectV::Reference(id) => ObjectV::Reference(shift_id(id, lo, hi, base)),
        _ => o,
    }
}

/// Dictionary entries under the importer's translation.
pub open spec fn shift_entries(d: Seq<(Seq<u8>, ObjectV)>, lo: int, hi: int, base: int) -> Seq<
    (Seq<u8>, ObjectV),
>
    decreases d,
{
    Seq::new(
        d.len(),
        |i: int|
            if 0 <= i < d.len() {
                (d[i].0, shift_v(d[i].1, lo, hi, base))
            } else {
                (Seq::empty(), ObjectV::Null)
            },
    )
}

/// The least object number among a table's rows; meaningful only when the
/// table is not empty.
pub open spec fn keys_lo(t: Seq<(ObjectId, ObjectV)>) -> int
    decreases t.len(),
{
    if t.len() == 0 {
        0
    } else if t.len() == 1 {
        t[0].0.num as int
    } else if t.last().0.num < keys_lo(t.drop_last()) {
        t.last().0.num as int
    } else {
        keys_lo(t.drop_last())
    }
}

/// The greatest object number among a table's rows; meaningful only when the
/// table is not empty.
pub open spec fn keys_hi(t: Seq<(ObjectId, ObjectV)>) -> int
    decreases t.len(),
{
    if t.len() == 0 {
        0
    } else if t.len() == 1 {
        t[0].0.num as int
    } else if t.last().0.num > keys_hi(t.drop_last()) {
        t.last().0.num as int
    } else {
        keys_hi(t.drop_last())
    }
}

/// Whether every page id of a source resolves in its own object table.
pub open spec fn pages_present(s: SourceV) -> bool {
    forall|i: int| 0 <= i < s.pages.len() ==> t_has(s.objects, s.pages[i])
}

/// A source's object rows under its translation, in table order.
pub open spec fn shifted_rows(t: Seq<(ObjectId, ObjectV)>, lo: int, hi: int, base: int) -> Seq<
    (ObjectId, ObjectV),
> {
    Seq::new(
        t.len(),
        |i: int|
            if 0 <= i < t.len() {
                (shift_id(t[i].0, lo, hi, base), shift_v(t[i].1, lo, hi, base))
            } else {
                (ObjectId { num: 0, gen: 0 }, ObjectV::Null)
            },
    )
}

/// A source's page rows under its translation, in the source's page order;
/// meaningful only when `pages_present(s)`.
pub open spec fn shifted_pages(s: SourceV, lo: int, hi: int, base: int) -> Seq<
    (ObjectId, ObjectV),
> {
    Seq::new(
        s.pages.len(),
        |i: int|
            match t_get(s.objects, if 0 <= i < s.pages.len() {
                s.pages[i]
            } else {
                ObjectId { num: 0, gen: 0 }
            }) {
                Some(o) if 0 <= i < s.pages.len() => (
                    shift_id(s.pages[i], lo, hi, base),
                    shift_v(o, lo, hi, base),
                ),
                _ => (ObjectId { num: 0, gen: 0 }, ObjectV::Null),
            },
    )
}

/// The importer's accumulated result: the unified object table, the page
/// sub-table in final page order, each source's first-page ordinal keyed by
/// its address, and the next free id.
pub struct PartsV {
    pub objects: Seq<(ObjectId, ObjectV)>,
    pub pages: Seq<(ObjectId, ObjectV)>,
    pub ordinals: Seq<(Seq<u8>, int)>,
    pub next_id: int,
}

/// The importer's starting state: nothing collected, ids start at 1.
pub open spec fn init_parts() -> PartsV {
    PartsV { objects: Seq::empty(), pages: Seq::empty(), ordinals: Seq::empty(), next_id: 1 }
}

/// One importer step: record the source's first-page ordinal, translate its
/// ids, append its objects and pages.  Fails when translation would leave the
/// id space, or a listed page object is missing.
pub open spec fn import_step(acc: PartsV, s: SourceV) -> Result<PartsV, MergeError> {
    let ordinals = acc.ordinals.push((s.url, acc.pages.len() as int));
    if s.objects.len() == 0 {
        if s.pages.len() == 0 {
            Ok(PartsV { ordinals, ..acc })
        } else {
            Err(MergeError::MissingPageObject)
        }
    } else {
        let lo = keys_lo(s.objects);
        let hi = keys_hi(s.objects);
        if hi - lo + acc.next_id >= u64::MAX {
            Err(MergeError::IdSpaceExhausted)
        } else if !pages_present(s) {
            Err(MergeError::MissingPageObject)
        } else {
            Ok(
                PartsV {
                    objects: acc.objects + shifted_rows(s.objects, lo, hi, acc.next_id),
                    pages: acc.pages + shifted_pages(s, lo, hi, acc.next_id),
                    ordinals,
                    next_id: acc.next_id + (hi - lo) + 1,
                },
            )
        }
    }
}

/// The importer over a list of sources, folded left to right.
pub open spec fn import_fold(ss: Seq<SourceV>, acc: PartsV) -> Result<PartsV, MergeError>
    decreases ss.len(),
{
    if ss.len() == 0 {
        Ok(acc)
    } else {
        match import_step(acc, ss[0]) {
            Ok(acc2) => import_fold(ss.skip(1), acc2),
            Err(e) => Err(e),
        }
    }
}

/// The importer's accumulated result, executable form.
pub struct ImportedParts {
    pub objects: Vec<(ObjectId, Object)>,
    pub pages: Vec<(ObjectId, Object)>,
    pub ordinals: Vec<(Vec<u8>, usize)>,
    pub next_id: u64,
}

impl View for ImportedParts {
    type V = PartsV;

    open spec fn view(&self) -> PartsV {
        PartsV {
            objects: table_view(self.objects),
            pages: table_view(self.pages),
            ordinals: Seq::new(
                self.ordinals@.len(),
                |i: int|
                    if 0 <= i < self.ordinals@.len() {
                        (self.ordinals@[i].0@, self.ordinals@[i].1 as int)
                    } else {
                        (Seq::empty(), 0int)
                    },
            ),
            next_id: self.next_id as int,
        }
    }
}

/// An id under the importer's translation for one source.
pub fn shift_id_exec(id: ObjectId, lo: u64, hi: u64, base: u64) -> (r: ObjectId)
    requires
        lo <= hi,
        hi - lo + base <= u64::MAX,
    ensures
        r == shift_id(id, lo as int, hi as int, base as int),
{
    if lo <= id.num && id.num <= hi {
        ObjectId { num: id.num - lo + base, gen: id.gen }
    } else {
        ObjectId { num: 0, gen: 0 }
    }
}

/// An object under the importer's translation for one source: a fresh copy
/// with every reference id shifted.
#[verifier::loop_isolation(false)]
pub fn shift_object(o: &Object, lo: u64, hi: u64, base: u64) -> (r: Object)
    requires
        lo <= hi,
        hi - lo + base <= u64::MAX,
    ensures
        r@ == shift_v(o@, lo as int, hi as int, base as int),
    decreases *o,
{
    match o {
        Object::Null => Object::Null,
        Object::Boolean(b) => Object::Boolean(*b),
        Object::Integer(i) => Object::Integer(*i),
        Object::Real(x) => Object::Real(*x),
        Object::Text(s) => Object::Text(clone_bytes(s)),
        Object::Name(s) => Object::Name(clone_bytes(s)),
        Object::Array(v) => {
            let mut out: Vec<Object> = Vec::new();
            let mut i: usize = 0;
            while i < v.len()
                invariant
                    i <= v.len(),
                    out@.len() == i,
                    forall|j: int|
                        0 <= j < i ==> obj_view(out@[j]) == shift_v(
                            obj_view(v@[j]),
                            lo as int,
                            hi as int,
                            base as int,
                        ),
                decreases v.len() - i,
            {
                out.push(shift_object(&v[i], lo, hi, base));
                i += 1;
            }
            let r = Object::Array(out);
            assert(r@->Array_0 =~= shift_v(o@, lo as int, hi as int, base as int)->Array_0);
            assert(r@ =~= shift_v(o@, lo as int, hi as int, base as int));
            r
        },
        Object::Dictionary(d) => {
            let r = Object::Dictionary(shift_dict_entries(d, lo, hi, base));
            assert(r@ =~= shift_v(o@, lo as int, hi as int, base as int));
            r
        },
        Object::Stream(d, data) => {
            let r = Object::Stream(shift_dict_entries(d, lo, hi, base), clone_bytes(data));
            assert(r@ =~= shift_v(o@, lo as int, hi as int, base as int));
            r
        },
        Object::Reference(id) => Object::Reference(shift_id_exec(*id, lo, hi, base)),
    }
}

/// Dictionary entries under the importer's translation: fresh copies with
/// every reference id in the values shifted.
#[verifier::loop_isolation(false)]
pub fn shift_dict_entries(d: &Vec<(Vec<u8>, Object)>, lo: u64, hi: u64, base: u64) -> (r: Vec<
    (Vec<u8>, Object),
>)
    requires
        lo <= hi,
        hi - lo + base <= u64::MAX,
    ensures
        entries_view_of(r) == shift_entries(entries_view_of(*d), lo as int, hi as int, base as int),
    decreases *d,
{
    let mut out: Vec<(Vec<u8>, Object)> = Vec::new();
    let mut i: usize = 0;
    while i < d.len()
        invariant
            i <= d.len(),
            out@.len() == i,
            forall|j: int|
                0 <= j < i ==> out@[j].0@ == d@[j].0@ && obj_view(out@[j].1) == shift_v(
                    obj_view(d@[j].1),
                    lo as int,
                    hi as int,
                    base as int,
                ),
        decreases d.len() - i,
    {
        let key = clone_bytes(&d[i].0);
        let val = shift_object(&d[i].1, lo, hi, base);
        out.push((key, val));
        i += 1;
    }
    assert(entries_view_of(out) =~= shift_entries(
        entries_view_of(*d),
        lo as int,
        hi as int,
        base as int,
    ));
    out
}

/// The least and greatest object numbers among a table's rows, or nothing
/// for an empty table.
pub fn key_range(t: &Vec<(ObjectId, Object)>) -> (r: Option<(u64, u64)>)
    ensures
        match r {
            Some(b) => t@.len() > 0 && b.0 == keys_lo(table_view(*t)) && b.1 == keys_hi(
                table_view(*t),
            ) && b.0 <= b.1,
            None => t@.len() == 0,
        },
{
    if t.len() == 0 {
        return None;
    }
    let ghost tv = table_view(*t);
    let mut lo: u64 = t[0].0.num;
    let mut hi: u64 = t[0].0.num;
    let mut i: usize = 1;
    assert(tv.take(1).len() == 1 && tv.take(1)[0] == tv[0]);
    while i < t.len()
        invariant
            1 <= i <= t.len(),
            tv == table_view(*t),
            tv.len() == t@.len(),
            lo == keys_lo(tv.take(i as int)),
            hi == keys_hi(tv.take(i as int)),
            lo <= hi,
        decreases t.len() - i,
    {
        assert(tv.take(i + 1).drop_last() =~= tv.take(i as int));
        assert(tv.take(i + 1).last() == tv[i as int]);
        let n = t[i].0.num;
        if n < lo {
            lo = n;
        }
        if n > hi {
            hi = n;
        }
        i += 1;
    }
    assert(tv.take(t@.len() as int) =~= tv);
    Some((lo, hi))
}

/// Looks an id up in an object table, returning the first match.
pub fn table_get<'a>(t: &'a Vec<(ObjectId, Object)>, id: ObjectId) -> (r: Option<&'a Object>)
    ensures
        match r {
            Some(o) => t_get(table_view(*t), id) == Some(o@),
            None => !t_has(table_view(*t), id),
        },
{
    let ghost tv = table_view(*t);
    let mut i: usize = 0;
    while i < t.len()
        invariant
            i <= t.len(),
            tv == table_view(*t),
            tv.len() == t@.len(),
            forall|j: int| 0 <= j < i ==> tv[j].0 != id,
        decreases t.len() - i,
    {
        if t[i].0 == id {
            proof {
                crate::document::lemma_table_first_match(tv, id, i as int);
            }
            return Some(&t[i].1);
        }
        i += 1;
    }
    proof {
        crate::document::lemma_table_first_match(tv, id, t.len() as int);
    }
    None
}

/// Imports a list of source documents, in order, into one id namespace.
///
/// On success the result is exactly the importer fold over the sources from
/// the starting state; the error is exactly the fold's error otherwise.
#[verifier::loop_isolation(false)]
pub fn import_documents(sources: &Vec<SourceDoc>) -> (r: Result<ImportedParts, MergeError>)
    ensures
        match r {
            Ok(p) => import_fold(sources_view(*sources), init_parts()) == Ok::<
                PartsV,
                MergeError,
            >(p@),
            Err(e) => import_fold(sources_view(*sources), init_parts()) == Err::<
                PartsV,
                MergeError,
            >(e),
        },
{
    let ghost sv = sources_view(*sources);
    let mut acc = ImportedParts {
        objects: Vec::new(),
        pages: Vec::new(),
        ordinals: Vec::new(),
        next_id: 1,
    };
    proof {
        assert(acc@.objects =~= init_parts().objects);
        assert(acc@.pages =~= init_parts().pages);
        assert(acc@.ordinals =~= init_parts().ordinals);
        assert(acc@ == init_parts());
        assert(sv.skip(0) =~= sv);
    }
    let mut i: usize = 0;
    while i < sources.len()
        invariant
            i <= sources.len(),
            sv == sources_view(*sources),
            sv.len() == sources@.len(),
            import_fold(sv, init_parts()) == import_fold(sv.skip(i as int), acc@),
            acc.next_id >= 1,
        decreases sources.len() - i,
    {
        let ghost acc0 = acc@;
        let s = &sources[i];
        assert(sv.skip(i as int)[0] == sv[i as int]);
        assert(sv[i as int] == s@);
        let ordinal: usize = acc.pages.len();
        let url = clone_bytes(&s.url);
        acc.ordinals.push((url, ordinal));
        proof {
            assert(acc@.ordinals =~= acc0.ordinals.push((s@.url, acc0.pages.len() as int)));
        }
        match key_range(&s.objects) {
            None => {
                if s.pages.len() > 0 {
                    assert(import_step(acc0, s@) == Err::<PartsV, MergeError>(
                        MergeError::MissingPageObject,
                    ));
                    return Err(MergeError::MissingPageObject);
                }
                proof {
                    let stepped = import_step(acc0, s@).unwrap();
                    assert(acc@.ordinals =~= stepped.ordinals);
                    assert(acc@.objects =~= stepped.objects);
                    assert(acc@.pages =~= stepped.pages);
                    assert(acc@ == stepped);
                    assert(sv.skip(i as int).skip(1) =~= sv.skip(i as int + 1));
                }
            },
            Some((lo, hi)) => {
                let ghost srcv = s@;
                if hi - lo >= u64::MAX - acc.next_id {
                    assert(import_step(acc0, srcv) == Err::<PartsV, MergeError>(
                        MergeError::IdSpaceExhausted,
                    ));
                    return Err(MergeError::IdSpaceExhausted);
                }
                let base = acc.next_id;
                proof {
                    let rows = shifted_rows(srcv.objects, lo as int, hi as int, base as int);
                    assert(acc@.objects =~= acc0.objects + rows.take(0));
                }
                let mut j: usize = 0;
                while j < s.objects.len()
                    invariant
                        j <= s.objects.len(),
                        lo <= hi,
                        hi - lo + base <= u64::MAX,
                        srcv == s@,
                        srcv.objects.len() == s.objects@.len(),
                        acc@.objects == acc0.objects + shifted_rows(
                            srcv.objects,
                            lo as int,
                            hi as int,
                            base as int,
                        ).take(j as int),
                        acc@.pages == acc0.pages,
                        acc@.ordinals == acc0.ordinals.push((srcv.url, acc0.pages.len() as int)),
                        acc@.next_id == base as int,
                    decreases s.objects.len() - j,
                {
                    let row_id = shift_id_exec(s.objects[j].0, lo, hi, base);
                    let row_obj = shift_object(&s.objects[j].1, lo, hi, base);
                    acc.objects.push((row_id, row_obj));
                    proof {
                        let rows = shifted_rows(srcv.objects, lo as int, hi as int, base as int);
                        assert(srcv.objects[j as int].0 == s.objects@[j as int].0);
                        assert(srcv.objects[j as int].1 == obj_view(s.objects@[j as int].1));
                        assert(rows[j as int] == (
                            shift_id(srcv.objects[j as int].0, lo as int, hi as int, base as int),
                            shift_v(srcv.objects[j as int].1, lo as int, hi as int, base as int),
                        ));
                        assert(acc@.objects.len() == acc0.objects.len() + j + 1);
                        assert(acc@.objects.last() == rows[j as int]);
                        assert(forall|m: int| 0 <= m < acc0.objects.len() + j
                            ==> acc@.objects[m] == (acc0.objects + rows.take(j as int))[m]);
                        assert(acc@.objects =~= acc0.objects + rows.take(j as int + 1));
                    }
                    j += 1;
                }
                proof {
                    let rows = shifted_rows(srcv.objects, lo as int, hi as int, base as int);
                    assert(rows.take(srcv.objects.len() as int) =~= rows);
                }
                proof {
                    let prows = shifted_pages(srcv, lo as int, hi as int, base as int);
                    assert(acc@.pages =~= acc0.pages + prows.take(0));
                }
                let mut k: usize = 0;
                while k < s.pages.len()
                    invariant
                        k <= s.pages.len(),
                        lo <= hi,
                        hi - lo + base <= u64::MAX,
                        srcv == s@,
                        srcv.pages.len() == s.pages@.len(),
                        srcv.objects == table_view(s.objects),
                        forall|m: int| 0 <= m < k ==> t_has(srcv.objects, srcv.pages[m]),
                        acc@.objects == acc0.objects + shifted_rows(
                            srcv.objects,
                            lo as int,
                            hi as int,
                            base as int,
                        ),
                        acc@.pages == acc0.pages + shifted_pages(
                            srcv,
                            lo as int,
                            hi as int,
                            base as int,
                        ).take(k as int),
                        acc@.ordinals == acc0.ordinals.push((srcv.url, acc0.pages.len() as int)),
                        acc@.next_id == base as int,
                    decreases s.pages.len() - k,
                {
                    let pid = s.pages[k];
                    match table_get(&s.objects, pid) {
                        None => {
                            assert(!pages_present(srcv));
                            assert(import_step(acc0, srcv) == Err::<PartsV, MergeError>(
                                MergeError::MissingPageObject,
                            ));
                            return Err(MergeError::MissingPageObject);
                        },
                        Some(po) => {
                            let row_id = shift_id_exec(pid, lo, hi, base);
                            let row_obj = shift_object(po, lo, hi, base);
                            acc.pages.push((row_id, row_obj));
                            proof {
                                let prows = shifted_pages(srcv, lo as int, hi as int, base as int);
                                assert(srcv.pages[k as int] == pid);
                                assert(t_get(srcv.objects, pid) == Some(po@));
                                assert(prows[k as int] == (
                                    shift_id(pid, lo as int, hi as int, base as int),
                                    shift_v(po@, lo as int, hi as int, base as int),
                                ));
                                assert(acc@.pages.len() == acc0.pages.len() + k + 1);
                                assert(acc@.pages.last() == prows[k as int]);
                                assert(forall|m: int| 0 <= m < acc0.pages.len() + k
                                    ==> acc@.pages[m] == (acc0.pages + prows.take(k as int))[m]);
                                assert(acc@.pages =~= acc0.pages + prows.take(k as int + 1));
                            }
                        },
                    }
                    k += 1;
                }
                let span: u64 = hi - lo;
                acc.next_id = base + span + 1;
                proof {
                    let prows = shifted_pages(srcv, lo as int, hi as int, base as int);
                    assert(prows.take(srcv.pages.len() as int) =~= prows);
                    let stepped = import_step(acc0, srcv).unwrap();
                    assert(acc@.objects == stepped.objects);
                    assert(acc@.pages == stepped.pages);
                    assert(acc@.ordinals == stepped.ordinals);
                    assert(acc@.next_id == stepped.next_id);
                    assert(acc@ == stepped);
                    assert(sv.skip(i as int).skip(1) =~= sv.skip(i as int + 1));
                }
            },
        }
        i += 1;
    }
    assert(sv.skip(i as int).len() == 0);
    Ok(acc)
}

/// The number of pages across a list of sources.
pub open spec fn pages_total(ss: Seq<SourceV>) -> int
    decreases ss.len(),
{
    if ss.len() == 0 {
        0
    } else {
        ss[0].pages.len() + pages_total(ss.skip(1))
    }
}

/// The merged page table holds exactly the sum of the sources' page counts,
/// in source order then original intra-source order, and each source's
/// recorded first-page ordinal is the number of pages imported before it.
pub proof fn lemma_import_page_order(ss: Seq<SourceV>, acc: PartsV, p: PartsV)
    requires
        import_fold(ss, acc) == Ok::<PartsV, MergeError>(p),
    ensures
        p.pages.len() == acc.pages.len() + pages_total(ss),
        p.ordinals.len() == acc.ordinals.len() + ss.len(),
        forall|i: int| 0 <= i < acc.ordinals.len() ==> #[trigger] p.ordinals[i] == acc.ordinals[i],
        forall|i: int|
            0 <= i < ss.len() ==> #[trigger] p.ordinals[acc.ordinals.len() + i] == (
                ss[i].url,
                acc.pages.len() + pages_total(ss.take(i)),
            ),
    decreases ss.len(),
{
    if ss.len() == 0 {
    } else {
        let acc2 = import_step(acc, ss[0]).unwrap();
        lemma_import_page_order(ss.skip(1), acc2, p);
        assert(acc2.pages.len() == acc.pages.len() + ss[0].pages.len());
        assert(acc2.ordinals == acc.ordinals.push((ss[0].url, acc.pages.len() as int)));
        assert(pages_total(ss) == ss[0].pages.len() + pages_total(ss.skip(1)));
        assert forall|i: int| 0 <= i < ss.len() implies #[trigger] p.ordinals[acc.ordinals.len()
            + i] == (ss[i].url, acc.pages.len() + pages_total(ss.take(i))) by {
            if i == 0 {
                assert(p.ordinals[acc.ordinals.len() as int] == acc2.ordinals[acc.ordinals.len() as int]);
                assert(pages_total(ss.take(0)) == 0);
            } else {
                assert(p.ordinals[acc2.ordinals.len() + (i - 1)] == (
                    ss.skip(1)[i - 1].url,
                    acc2.pages.len() + pages_total(ss.skip(1).take(i - 1)),
                ));
                assert(ss.skip(1)[i - 1] == ss[i]);
                assert(ss.take(i)[0] == ss[0]);
                assert(ss.take(i).skip(1) =~= ss.skip(1).take(i - 1));
                assert(pages_total(ss.take(i)) == ss[0].pages.len() + pages_total(
                    ss.skip(1).take(i - 1),
                ));
            }
        }
    }
}

} // verus!
