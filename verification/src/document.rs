//! The document: an id-indexed object table plus a trailer record, the shared
//! graph every merge stage works on.
//!
//! The table is an ordered list of `(id, object)` rows; every id occurs at
//! most once in the pipeline's use, and lookup takes the first match, so the
//! table behaves as a map whose iteration order is the insertion order.  All
//! ordering guarantees downstream (page order, problem-report order) rest on
//! that determinism.

use vstd::prelude::*;

use crate::object::{clone_object, Object, ObjectId, ObjectV};

verus! {

broadcast use vstd::std_specs::vec::group_vec_axioms, vstd::seq::group_seq_axioms;

/// The mathematical value of an object table.
pub open spec fn table_view(t: Vec<(ObjectId, Object)>) -> Seq<(ObjectId, ObjectV)> {
    Seq::new(
        t@.len(),
        |i: int|
            if 0 <= i < t@.len() {
                (t@[i].0, crate::object::obj_view(t@[i].1))
            } else {
                (ObjectId { num: 0, gen: 0 }, ObjectV::Null)
            },
    )
}

/// A table value: first-match lookup under an id.
pub open spec fn t_get(t: Seq<(ObjectId, ObjectV)>, id: ObjectId) -> Option<ObjectV>
    decreases t.len(),
{
    if t.len() == 0 {
        None
    } else if t[0].0 == id {
        Some(t[0].1)
    } else {
        t_get(t.skip(1), id)
    }
}

/// Whether a table holds a row under an id.
pub open spec fn t_has(t: Seq<(ObjectId, ObjectV)>, id: ObjectId) -> bool {
    t_get(t, id) is Some
}

/// The position of the first row under an id; meaningful only when
/// `t_has(t, id)`.
pub open spec fn t_at(t: Seq<(ObjectId, ObjectV)>, id: ObjectId) -> int
    decreases t.len(),
{
    if t.len() == 0 {
        0
    } else if t[0].0 == id {
        0
    } else {
        1 + t_at(t.skip(1), id)
    }
}

/// A table after setting an id: the first matching row is rewritten in place,
/// or, with no match, a new row is appended.
pub open spec fn t_set(t: Seq<(ObjectId, ObjectV)>, id: ObjectId, val: ObjectV) -> Seq<
    (ObjectId, ObjectV),
> {
    if t_has(t, id) {
        t.update(t_at(t, id), (id, val))
    } else {
        t.push((id, val))
    }
}

/// A table after removing an id: the first matching row is taken out, or,
/// with no match, the table is unchanged.
pub open spec fn t_remove(t: Seq<(ObjectId, ObjectV)>, id: ObjectId) -> Seq<(ObjectId, ObjectV)> {
    if t_has(t, id) {
        t.remove(t_at(t, id))
    } else {
        t
    }
}

/// First-match lookup in a table: if no row before position `i` matches and
/// `i` either matches or is the end, then position `i` decides the lookup.
pub proof fn lemma_table_first_match(t: Seq<(ObjectId, ObjectV)>, id: ObjectId, i: int)
    requires
        0 <= i <= t.len(),
        forall|j: int| 0 <= j < i ==> t[j].0 != id,
        i < t.len() ==> t[i].0 == id,
    ensures
        i < t.len() ==> t_has(t, id) && t_at(t, id) == i && t_get(t, id) == Some(t[i].1),
        i == t.len() ==> !t_has(t, id),
    decreases t.len(),
{
    if t.len() == 0 {
    } else if t[0].0 == id {
    } else {
        assert(forall|j: int| 0 <= j < i - 1 ==> t.skip(1)[j] == t[j + 1]);
        lemma_table_first_match(t.skip(1), id, i - 1);
    }
}

/// A held id's first row is inside the table, carries the id, and decides
/// the lookup.
pub proof fn lemma_t_at_range(t: Seq<(ObjectId, ObjectV)>, id: ObjectId)
    requires
        t_has(t, id),
    ensures
        0 <= t_at(t, id) < t.len(),
        t[t_at(t, id)].0 == id,
        t_get(t, id) == Some(t[t_at(t, id)].1),
    decreases t.len(),
{
    if t.len() == 0 {
    } else if t[0].0 == id {
    } else {
        lemma_t_at_range(t.skip(1), id);
    }
}

/// Setting an id stores its object: looking the same id up finds it.
pub proof fn lemma_t_get_set_same(t: Seq<(ObjectId, ObjectV)>, id: ObjectId, val: ObjectV)
    ensures
        t_get(t_set(t, id, val), id) == Some(val),
    decreases t.len(),
{
    if t.len() == 0 {
        assert(t.push((id, val))[0] == (id, val));
    } else if t[0].0 == id {
        assert(t.update(0, (id, val))[0] == (id, val));
    } else {
        lemma_t_get_set_same(t.skip(1), id, val);
        if t_has(t, id) {
            lemma_t_at_range(t, id);
        }
        assert(t_set(t, id, val)[0] == t[0]);
        assert(t_set(t, id, val).skip(1) =~= t_set(t.skip(1), id, val));
    }
}

/// Setting one id leaves every other id's lookup alone.
pub proof fn lemma_t_get_set_other(
    t: Seq<(ObjectId, ObjectV)>,
    id: ObjectId,
    val: ObjectV,
    other: ObjectId,
)
    requires
        id != other,
    ensures
        t_get(t_set(t, id, val), other) == t_get(t, other),
    decreases t.len(),
{
    if t.len() == 0 {
        let u = t.push((id, val));
        assert(t_set(t, id, val) == u);
        assert(u[0] == (id, val));
        assert(u.skip(1) =~= Seq::<(ObjectId, ObjectV)>::empty());
        assert(t_get(u.skip(1), other) is None);
        assert(t_get(u, other) is None);
    } else if t[0].0 == id {
        assert(t_has(t, id));
        assert(t_at(t, id) == 0);
        let u = t.update(0, (id, val));
        assert(t_set(t, id, val) == u);
        assert(u[0] == (id, val));
        assert(u.skip(1) =~= t.skip(1));
        assert(t_get(u, other) == t_get(t.skip(1), other));
        assert(t_get(t, other) == t_get(t.skip(1), other));
    } else {
        lemma_t_get_set_other(t.skip(1), id, val, other);
        if t_has(t, id) {
            lemma_t_at_range(t, id);
        }
        let u = t_set(t, id, val);
        assert(u[0] == t[0]);
        assert(u.skip(1) =~= t_set(t.skip(1), id, val));
        if t[0].0 == other {
            assert(t_get(u, other) == Some(u[0].1));
            assert(t_get(t, other) == Some(t[0].1));
        } else {
            assert(t_get(u, other) == t_get(u.skip(1), other));
            assert(t_get(t, other) == t_get(t.skip(1), other));
        }
    }
}

/// An object table together with its trailer record and running maximum id.
pub struct Document {
    pub objects: Vec<(ObjectId, Object)>,
    pub trailer: Vec<(Vec<u8>, Object)>,
    pub max_id: u64,
}

/// The mathematical value of a [`Document`].
pub struct DocumentV {
    pub objects: Seq<(ObjectId, ObjectV)>,
    pub trailer: Seq<(Seq<u8>, ObjectV)>,
    pub max_id: u64,
}

impl View for Document {
    type V = DocumentV;

    open spec fn view(&self) -> DocumentV {
        DocumentV {
            objects: table_view(self.objects),
            trailer: crate::object::entries_view_of(self.trailer),
            max_id: self.max_id,
        }
    }
}

impl Document {
    /// An empty document: no objects, an empty trailer, no ids used yet.
    pub fn new() -> (d: Document)
        ensures
            d@.objects.len() == 0,
            d@.trailer.len() == 0,
            d@.max_id == 0,
    {
        let d = Document { objects: Vec::new(), trailer: Vec::new(), max_id: 0 };
        proof {
            assert(d@.objects =~= Seq::<(ObjectId, ObjectV)>::empty());
            assert(d@.trailer =~= Seq::<(Seq<u8>, ObjectV)>::empty());
        }
        d
    }

    /// Looks an id up in the table, returning the first match.
    pub fn get(&self, id: ObjectId) -> (r: Option<&Object>)
        ensures
            match r {
                Some(o) => t_get(self@.objects, id) == Some(o@),
                None => !t_has(self@.objects, id),
            },
    {
        let ghost tv = self@.objects;
        let mut i: usize = 0;
        while i < self.objects.len()
            invariant
                i <= self.objects.len(),
                tv == self@.objects,
                tv.len() == self.objects@.len(),
                forall|j: int| 0 <= j < i ==> tv[j].0 != id,
            decreases self.objects.len() - i,
        {
            if self.objects[i].0 == id {
                proof {
                    lemma_table_first_match(tv, id, i as int);
                }
                return Some(&self.objects[i].1);
            }
            i += 1;
        }
        proof {
            lemma_table_first_match(tv, id, self.objects.len() as int);
        }
        None
    }

    /// Whether the table holds an id.
    pub fn has(&self, id: ObjectId) -> (r: bool)
        ensures
            r == t_has(self@.objects, id),
    {
        self.get(id).is_some()
    }

    /// Sets an id in the table: rewrites the first matching row, or appends a
    /// new one.  The trailer and maximum id stay as they were.
    pub fn set(&mut self, id: ObjectId, val: Object)
        ensures
            final(self)@.objects == t_set(old(self)@.objects, id, val@),
            final(self)@.trailer == old(self)@.trailer,
            final(self)@.max_id == old(self)@.max_id,
    {
        let ghost tv = self@.objects;
        let mut i: usize = 0;
        while i < self.objects.len()
            invariant
                i <= self.objects.len(),
                *self == *old(self),
                tv == self@.objects,
                tv.len() == self.objects@.len(),
                forall|j: int| 0 <= j < i ==> tv[j].0 != id,
            decreases self.objects.len() - i,
        {
            if self.objects[i].0 == id {
                proof {
                    lemma_table_first_match(tv, id, i as int);
                }
                let ghost vv = val@;
                self.objects.set(i, (id, val));
                assert(self@.objects =~= t_set(tv, id, vv));
                return ;
            }
            i += 1;
        }
        proof {
            lemma_table_first_match(tv, id, self.objects.len() as int);
        }
        let ghost vv = val@;
        self.objects.push((id, val));
        assert(self@.objects =~= t_set(tv, id, vv));
    }

    /// Removes an id from the table: takes the first matching row out, or
    /// leaves the table unchanged.  The trailer and maximum id stay.
    pub fn remove(&mut self, id: ObjectId)
        ensures
            final(self)@.objects == t_remove(old(self)@.objects, id),
            final(self)@.trailer == old(self)@.trailer,
            final(self)@.max_id == old(self)@.max_id,
    {
        let ghost tv = self@.objects;
        let mut i: usize = 0;
        while i < self.objects.len()
            invariant
                i <= self.objects.len(),
                *self == *old(self),
                tv == self@.objects,
                tv.len() == self.objects@.len(),
                forall|j: int| 0 <= j < i ==> tv[j].0 != id,
            decreases self.objects.len() - i,
        {
            if self.objects[i].0 == id {
                proof {
                    lemma_table_first_match(tv, id, i as int);
                }
                self.objects.remove(i);
                assert(self@.objects =~= t_remove(tv, id));
                return ;
            }
            i += 1;
        }
        proof {
            lemma_table_first_match(tv, id, self.objects.len() as int);
        }
        assert(self@.objects =~= t_remove(tv, id));
    }

    /// A fresh copy of the object stored under an id, if any.
    pub fn get_cloned(&self, id: ObjectId) -> (r: Option<Object>)
        ensures
            match r {
                Some(o) => t_get(self@.objects, id) == Some(o@),
                None => !t_has(self@.objects, id),
            },
    {
        match self.get(id) {
            Some(o) => Some(clone_object(o)),
            None => None,
        }
    }
}

} // verus!
