//! The outline merger: splices the per-source bookmark roots, in input
//! order, into one outline tree with correct sibling links, parent links and
//! an aggregate count.
//!
//! The first source's root becomes the accumulator.  For each later source,
//! the accumulator's last child and the new source's first child are linked
//! as siblings, every node on the new source's top-level sibling chain is
//! re-parented to the accumulator's root, and the accumulator's last child
//! and running count move forward.  A chain that does not terminate within
//! the object table is rejected rather than walked forever.

use vstd::prelude::*;

use crate::document::{t_get, t_set, Document};
use crate::names::{
    k_count, k_first, k_last, k_next, k_parent, key_count, key_first, key_last, key_next,
    key_parent, key_prev,
};
use crate::object::{entries_view_of, Object, ObjectId, ObjectV};
use crate::MergeError;

verus! {

broadcast use vstd::std_specs::vec::group_vec_axioms, vstd::seq::group_seq_axioms;

/// The table after re-parenting every node on a sibling chain: starting at
/// `cur` and following `Next` references, each node's `Parent` is set to
/// `parent`.  Fails on a node that is not a dictionary in the table, a `Next`
/// that is not a reference, or a chain longer than the fuel allows.
pub open spec fn set_parents(
    t: Seq<(ObjectId, ObjectV)>,
    cur: ObjectId,
    parent: ObjectId,
    fuel: nat,
) -> Result<Seq<(ObjectId, ObjectV)>, MergeError>
    decreases fuel,
{
    if fuel == 0 {
        Err(MergeError::OutlineCycle)
    } else {
        match t_get(t, cur) {
            Some(ObjectV::Dictionary(e)) => {
                let e2 = crate::object::v_set(e, k_parent(), ObjectV::Reference(parent));
                let t2 = t_set(t, cur, ObjectV::Dictionary(e2));
                match crate::object::v_get(e, k_next()) {
                    Option::None => Ok(t2),
                    Option::Some(ObjectV::Reference(nid)) => set_parents(
                        t2,
                        nid,
                        parent,
                        (fuel - 1) as nat,
                    ),
                    Option::Some(_) => Err(MergeError::BadOutline),
                }
            },
            _ => Err(MergeError::BadOutline),
        }
    }
}

/// The outline merger's accumulator: the table so far, the root kept from
/// the first source, that root's original entries, the current last
/// top-level child, and the running count.
pub struct OutlineAcc {
    pub t: Seq<(ObjectId, ObjectV)>,
    pub parent: ObjectId,
    pub parent_entries: Seq<(Seq<u8>, ObjectV)>,
    pub last: ObjectId,
    pub count: int,
}

/// The signed count declared by an outline root, or the failure reading it:
/// the field must be present as an integer, and counts are summed within the
/// machine's signed range.
pub open spec fn root_count(e: Seq<(Seq<u8>, ObjectV)>) -> Result<int, MergeError> {
    match crate::object::v_get(e, k_count()) {
        Some(ObjectV::Integer(c)) => Ok(c as int),
        _ => Err(MergeError::BadOutline),
    }
}

/// The first source's outline root taken as the accumulator.
pub open spec fn outline_first(
    t: Seq<(ObjectId, ObjectV)>,
    root: (ObjectId, Seq<(Seq<u8>, ObjectV)>),
) -> Result<OutlineAcc, MergeError> {
    match root_count(root.1) {
        Err(e) => Err(e),
        Ok(c) => match crate::object::v_get(root.1, k_last()) {
            Some(ObjectV::Reference(last)) => Ok(
                OutlineAcc { t, parent: root.0, parent_entries: root.1, last, count: c },
            ),
            _ => Err(MergeError::BadOutline),
        },
    }
}

/// A later source's outline root spliced onto the accumulator: the count is
/// added, the sibling links between the accumulator's last child and the new
/// first child are set, the new top-level chain is re-parented, and the last
/// child moves to the new source's last child.
pub open spec fn outline_next(
    acc: OutlineAcc,
    root: (ObjectId, Seq<(Seq<u8>, ObjectV)>),
    fuel: nat,
) -> Result<OutlineAcc, MergeError> {
    match root_count(root.1) {
        Err(e) => Err(e),
        Ok(c) => if !(i64::MIN <= acc.count + c <= i64::MAX) {
            Err(MergeError::CountOverflow)
        } else {
            match crate::object::v_get(root.1, k_first()) {
                Some(ObjectV::Reference(first_id)) => match t_get(acc.t, acc.last) {
                    Some(ObjectV::Dictionary(le)) => {
                        let t1 = t_set(
                            acc.t,
                            acc.last,
                            ObjectV::Dictionary(
                                crate::object::v_set(le, k_next(), ObjectV::Reference(first_id)),
                            ),
                        );
                        match t_get(t1, first_id) {
                            Some(ObjectV::Dictionary(fe)) => {
                                let t2 = t_set(
                                    t1,
                                    first_id,
                                    ObjectV::Dictionary(
                                        crate::object::v_set(
                                            fe,
                                            crate::names::k_prev(),
                                            ObjectV::Reference(acc.last),
                                        ),
                                    ),
                                );
                                match set_parents(t2, first_id, acc.parent, fuel) {
                                    Err(e) => Err(e),
                                    Ok(t3) => match crate::object::v_get(root.1, k_last()) {
                                        Some(ObjectV::Reference(new_last)) => Ok(
                                            OutlineAcc {
                                                t: t3,
                                                last: new_last,
                                                count: acc.count + c,
                                                ..acc
                                            },
                                        ),
                                        _ => Err(MergeError::BadOutline),
                                    },
                                }
                            },
                            _ => Err(MergeError::BadOutline),
                        }
                    },
                    _ => Err(MergeError::BadOutline),
                },
                _ => Err(MergeError::BadOutline),
            }
        },
    }
}

/// The outline merger folded over the second and later sources' roots.
pub open spec fn outline_fold(
    roots: Seq<(ObjectId, Seq<(Seq<u8>, ObjectV)>)>,
    acc: OutlineAcc,
    fuel: nat,
) -> Result<OutlineAcc, MergeError>
    decreases roots.len(),
{
    if roots.len() == 0 {
        Ok(acc)
    } else {
        match outline_next(acc, roots[0], fuel) {
            Ok(acc2) => outline_fold(roots.skip(1), acc2, fuel),
            Err(e) => Err(e),
        }
    }
}

/// The outline merger over a table and the sources' outline roots in input
/// order: at most one merged root comes out, or none when no source had an
/// outline.  On success the root's entries are written back with the summed
/// count and the final last child.
pub open spec fn merge_outlines_spec(
    t: Seq<(ObjectId, ObjectV)>,
    roots: Seq<(ObjectId, Seq<(Seq<u8>, ObjectV)>)>,
    fuel: nat,
) -> Result<(Seq<(ObjectId, ObjectV)>, Option<ObjectId>), MergeError> {
    if roots.len() == 0 {
        Ok((t, None))
    } else {
        match outline_first(t, roots[0]) {
            Err(e) => Err(e),
            Ok(acc0) => match outline_fold(roots.skip(1), acc0, fuel) {
                Err(e) => Err(e),
                Ok(acc) => {
                    let fin = crate::object::v_set(
                        crate::object::v_set(
                            acc.parent_entries,
                            k_count(),
                            ObjectV::Integer(acc.count as i64),
                        ),
                        k_last(),
                        ObjectV::Reference(acc.last),
                    );
                    Ok((t_set(acc.t, acc.parent, ObjectV::Dictionary(fin)), Some(acc.parent)))
                },
            },
        }
    }
}

/// The mathematical values of a list of collected outline roots.
pub open spec fn roots_view(roots: Vec<(ObjectId, Vec<(Vec<u8>, Object)>)>) -> Seq<
    (ObjectId, Seq<(Seq<u8>, ObjectV)>),
> {
    Seq::new(
        roots@.len(),
        |i: int|
            if 0 <= i < roots@.len() {
                (roots@[i].0, entries_view_of(roots@[i].1))
            } else {
                (ObjectId { num: 0, gen: 0 }, Seq::empty())
            },
    )
}

/// Re-parents every node on a sibling chain in the document, as
/// [`set_parents`] with fuel one past the table's size gives it.  On failure
/// the table may hold the successfully re-parented prefix; every failure
/// aborts the whole merge, so nothing reads it.
#[verifier::loop_isolation(false)]
fn set_parents_exec(doc: &mut Document, start: ObjectId, parent: ObjectId) -> (r: Result<
    (),
    MergeError,
>)
    ensures
        match r {
            Ok(_) => set_parents(
                old(doc)@.objects,
                start,
                parent,
                (old(doc)@.objects.len() + 1) as nat,
            ) == Ok::<_, MergeError>(final(doc)@.objects),
            Err(e) => set_parents(
                old(doc)@.objects,
                start,
                parent,
                (old(doc)@.objects.len() + 1) as nat,
            ) == Err::<Seq<(ObjectId, ObjectV)>, _>(e),
        },
        final(doc)@.objects.len() == old(doc)@.objects.len(),
        final(doc)@.trailer == old(doc)@.trailer,
        final(doc)@.max_id == old(doc)@.max_id,
{
    let ghost t0 = doc@.objects;
    let ghost full_fuel = (t0.len() + 1) as nat;
    let mut cur: ObjectId = start;
    let mut fuel: u128 = doc.objects.len() as u128 + 1;
    loop
        invariant
            fuel <= full_fuel,
            doc@.objects.len() == t0.len(),
            doc@.trailer == old(doc)@.trailer,
            doc@.max_id == old(doc)@.max_id,
            set_parents(t0, start, parent, full_fuel) == set_parents(
                doc@.objects,
                cur,
                parent,
                fuel as nat,
            ),
        decreases fuel,
    {
        if fuel == 0 {
            return Err(MergeError::OutlineCycle);
        }
        let ghost t_here = doc@.objects;
        let found = doc.get_cloned(cur);
        let mut e: Vec<(Vec<u8>, Object)> = match found {
            Some(Object::Dictionary(e)) => e,
            _ => {
                return Err(MergeError::BadOutline);
            },
        };
        let ghost ev = entries_view_of(e);
        let next: Option<ObjectId> = match crate::object::dict_get(&e, key_next().as_slice()) {
            Option::None => None,
            Option::Some(Object::Reference(nid)) => Some(*nid),
            Option::Some(_) => {
                return Err(MergeError::BadOutline);
            },
        };
        crate::object::dict_set(&mut e, key_parent(), Object::Reference(parent));
        doc.set(cur, Object::Dictionary(e));
        proof {
            assert(doc@.objects == t_set(
                t_here,
                cur,
                ObjectV::Dictionary(
                    crate::object::v_set(ev, k_parent(), ObjectV::Reference(parent)),
                ),
            ));
            crate::document::lemma_t_at_range(t_here, cur);
            assert(doc@.objects.len() == t_here.len());
        }
        match next {
            None => {
                return Ok(());
            },
            Some(nid) => {
                cur = nid;
                fuel = fuel - 1;
            },
        }
    }
}

/// Merges the sources' outline roots, in input order, into the document:
/// at most one merged root id comes out, or none when no source had an
/// outline.  The result and every failure are exactly those of
/// [`merge_outlines_spec`] with fuel one past the table's size; on failure
/// the table may hold a partially spliced state, which the aborted merge
/// never reads.
#[verifier::loop_isolation(false)]
pub fn merge_outlines(doc: &mut Document, roots: &Vec<(ObjectId, Vec<(Vec<u8>, Object)>)>) -> (r:
    Result<Option<ObjectId>, MergeError>)
    ensures
        match r {
            Ok(opt) => merge_outlines_spec(
                old(doc)@.objects,
                roots_view(*roots),
                (old(doc)@.objects.len() + 1) as nat,
            ) == Ok::<_, MergeError>((final(doc)@.objects, opt)),
            Err(e) => merge_outlines_spec(
                old(doc)@.objects,
                roots_view(*roots),
                (old(doc)@.objects.len() + 1) as nat,
            ) == Err::<(Seq<(ObjectId, ObjectV)>, Option<ObjectId>), _>(e),
        },
        final(doc)@.trailer == old(doc)@.trailer,
        final(doc)@.max_id == old(doc)@.max_id,
{
    let ghost t0 = doc@.objects;
    let ghost rv = roots_view(*roots);
    let ghost full_fuel = (t0.len() + 1) as nat;
    if roots.len() == 0 {
        return Ok(None);
    }
    assert(rv[0] == (roots@[0].0, entries_view_of(roots@[0].1)));

    // The first root becomes the accumulator.
    let parent: ObjectId = roots[0].0;
    let parent_entries: Vec<(Vec<u8>, Object)> = crate::object::clone_entries(&roots[0].1);
    let mut count: i64 = match crate::object::dict_get(&parent_entries, key_count().as_slice()) {
        Some(Object::Integer(c)) => *c,
        _ => {
            return Err(MergeError::BadOutline);
        },
    };
    let mut last: ObjectId = match crate::object::dict_get(&parent_entries, key_last().as_slice()) {
        Some(Object::Reference(id)) => *id,
        _ => {
            return Err(MergeError::BadOutline);
        },
    };
    let ghost acc0 = outline_first(t0, rv[0]).unwrap();
    proof {
        assert(outline_first(t0, rv[0]) == Ok::<OutlineAcc, MergeError>(acc0));
        assert(rv.skip(1).skip(0) =~= rv.skip(1));
    }

    let mut i: usize = 1;
    while i < roots.len()
        invariant
            1 <= i <= roots.len(),
            doc@.objects.len() == t0.len(),
            doc@.trailer == old(doc)@.trailer,
            doc@.max_id == old(doc)@.max_id,
            outline_fold(rv.skip(1), acc0, full_fuel) == outline_fold(
                rv.skip(i as int),
                OutlineAcc {
                    t: doc@.objects,
                    parent,
                    parent_entries: entries_view_of(parent_entries),
                    last,
                    count: count as int,
                },
                full_fuel,
            ),
        decreases roots.len() - i,
    {
        let ghost acc_here = OutlineAcc {
            t: doc@.objects,
            parent,
            parent_entries: entries_view_of(parent_entries),
            last,
            count: count as int,
        };
        assert(rv.skip(i as int)[0] == rv[i as int]);
        assert(rv[i as int] == (roots@[i as int].0, entries_view_of(roots@[i as int].1)));
        let e = &roots[i].1;
        let c: i64 = match crate::object::dict_get(e, key_count().as_slice()) {
            Some(Object::Integer(c)) => *c,
            _ => {
                return Err(MergeError::BadOutline);
            },
        };
        let summed: i64 = match count.checked_add(c) {
            Some(s) => s,
            None => {
                return Err(MergeError::CountOverflow);
            },
        };
        let first_id: ObjectId = match crate::object::dict_get(e, key_first().as_slice()) {
            Some(Object::Reference(id)) => *id,
            _ => {
                return Err(MergeError::BadOutline);
            },
        };
        let mut le: Vec<(Vec<u8>, Object)> = match doc.get_cloned(last) {
            Some(Object::Dictionary(le)) => le,
            _ => {
                return Err(MergeError::BadOutline);
            },
        };
        let ghost le_orig = entries_view_of(le);
        proof {
            assert(t_get(acc_here.t, acc_here.last) == Some(ObjectV::Dictionary(le_orig)));
        }
        crate::object::dict_set(&mut le, key_next(), Object::Reference(first_id));
        doc.set(last, Object::Dictionary(le));
        let ghost t1x = doc@.objects;
        proof {
            assert(t1x == t_set(
                acc_here.t,
                acc_here.last,
                ObjectV::Dictionary(
                    crate::object::v_set(le_orig, k_next(), ObjectV::Reference(first_id)),
                ),
            ));
            crate::document::lemma_t_at_range(acc_here.t, acc_here.last);
            assert(t1x.len() == t0.len());
        }
        let mut fe: Vec<(Vec<u8>, Object)> = match doc.get_cloned(first_id) {
            Some(Object::Dictionary(fe)) => fe,
            _ => {
                return Err(MergeError::BadOutline);
            },
        };
        let ghost fe_orig = entries_view_of(fe);
        crate::object::dict_set(&mut fe, key_prev(), Object::Reference(last));
        doc.set(first_id, Object::Dictionary(fe));
        let ghost t2x = doc@.objects;
        proof {
            assert(t2x == t_set(
                t1x,
                first_id,
                ObjectV::Dictionary(
                    crate::object::v_set(fe_orig, crate::names::k_prev(), ObjectV::Reference(
                        acc_here.last,
                    )),
                ),
            ));
            crate::document::lemma_t_at_range(t1x, first_id);
            assert(t2x.len() == t0.len());
        }
        match set_parents_exec(doc, first_id, parent) {
            Ok(_) => {},
            Err(err) => {
                proof {
                    assert(set_parents(t2x, first_id, parent, full_fuel)
                        == Err::<Seq<(ObjectId, ObjectV)>, _>(err));
                    assert(outline_next(acc_here, rv[i as int], full_fuel)
                        == Err::<OutlineAcc, MergeError>(err));
                }
                return Err(err);
            },
        }
        proof {
            assert(set_parents(t2x, first_id, parent, full_fuel) == Ok::<_, MergeError>(
                doc@.objects,
            ));
        }
        let new_last: ObjectId = match crate::object::dict_get(e, key_last().as_slice()) {
            Some(Object::Reference(id)) => *id,
            _ => {
                return Err(MergeError::BadOutline);
            },
        };
        last = new_last;
        count = summed;
        proof {
            let stepped = OutlineAcc {
                t: doc@.objects,
                last: new_last,
                count: acc_here.count + c,
                ..acc_here
            };
            assert(outline_next(acc_here, rv[i as int], full_fuel) == Ok::<OutlineAcc, MergeError>(
                stepped,
            ));
            assert(rv.skip(i as int).skip(1) =~= rv.skip(i as int + 1));
        }
        i += 1;
    }
    assert(rv.skip(i as int).len() == 0);

    // Write the accumulated count and final last child back into the root.
    let mut fin: Vec<(Vec<u8>, Object)> = parent_entries;
    crate::object::dict_set(&mut fin, key_count(), Object::Integer(count));
    crate::object::dict_set(&mut fin, key_last(), Object::Reference(last));
    doc.set(parent, Object::Dictionary(fin));
    Ok(Some(parent))
}

/// The sum of the counts the outline roots declare; a root whose count
/// does not read contributes nothing, and never arises on a successful
/// merge.
pub open spec fn counts_total(roots: Seq<(ObjectId, Seq<(Seq<u8>, ObjectV)>)>) -> int
    decreases roots.len(),
{
    if roots.len() == 0 {
        0
    } else {
        (match root_count(roots[0].1) {
            Ok(c) => c,
            Err(_) => 0,
        }) + counts_total(roots.skip(1))
    }
}

/// The splice fold accumulates exactly the declared counts, and never
/// leaves the machine's signed range; the kept root and its entries ride
/// through unchanged.
proof fn lemma_outline_fold_count(
    roots: Seq<(ObjectId, Seq<(Seq<u8>, ObjectV)>)>,
    acc: OutlineAcc,
    fuel: nat,
    fin: OutlineAcc,
)
    requires
        outline_fold(roots, acc, fuel) == Ok::<OutlineAcc, MergeError>(fin),
        i64::MIN <= acc.count <= i64::MAX,
    ensures
        fin.count == acc.count + counts_total(roots),
        i64::MIN <= fin.count <= i64::MAX,
        fin.parent == acc.parent,
        fin.parent_entries == acc.parent_entries,
    decreases roots.len(),
{
    if roots.len() == 0 {
    } else {
        let acc2 = outline_next(acc, roots[0], fuel).unwrap();
        lemma_outline_fold_count(roots.skip(1), acc2, fuel, fin);
    }
}

/// The merged outline root's declared count equals the sum of the sources'
/// root counts.
pub proof fn lemma_merged_outline_count(
    t: Seq<(ObjectId, ObjectV)>,
    roots: Seq<(ObjectId, Seq<(Seq<u8>, ObjectV)>)>,
    fuel: nat,
    t2: Seq<(ObjectId, ObjectV)>,
    rid: ObjectId,
)
    requires
        merge_outlines_spec(t, roots, fuel) == Ok::<
            (Seq<(ObjectId, ObjectV)>, Option<ObjectId>),
            MergeError,
        >((t2, Some(rid))),
    ensures
        i64::MIN <= counts_total(roots) <= i64::MAX,
        t_get(t2, rid) matches Some(ObjectV::Dictionary(fin)) && crate::object::v_get(
            fin,
            k_count(),
        ) == Some(ObjectV::Integer(counts_total(roots) as i64)),
{
    let acc0 = outline_first(t, roots[0]).unwrap();
    let acc = outline_fold(roots.skip(1), acc0, fuel).unwrap();
    lemma_outline_fold_count(roots.skip(1), acc0, fuel, acc);
    assert(acc0.count == (match root_count(roots[0].1) {
        Ok(c) => c,
        Err(_) => 0,
    }));
    assert(acc.count == counts_total(roots));
    let fe = crate::object::v_set(
        crate::object::v_set(acc.parent_entries, k_count(), ObjectV::Integer(acc.count as i64)),
        k_last(),
        ObjectV::Reference(acc.last),
    );
    crate::document::lemma_t_get_set_same(acc.t, acc.parent, ObjectV::Dictionary(fe));
    assert(k_count().len() == 5 && k_last().len() == 4);
    crate::object::lemma_v_get_set_same(
        acc.parent_entries,
        k_count(),
        ObjectV::Integer(acc.count as i64),
    );
    crate::object::lemma_v_get_set_other(
        crate::object::v_set(acc.parent_entries, k_count(), ObjectV::Integer(acc.count as i64)),
        k_last(),
        ObjectV::Reference(acc.last),
        k_count(),
    );
}

} // verus!
