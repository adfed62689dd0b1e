//! The object model: typed values of the document graph, their mathematical
//! views, and the dictionary operations the merge engine performs on them.
//!
//! A dictionary is kept as an ordered entry list.  Lookup returns the first
//! entry with a matching key, update rewrites that entry in place, and insert
//! appends; starting from distinct keys these are exactly map operations, and
//! the entry order — which the serialized output preserves — stays put.

use vstd::prelude::*;

verus! {

broadcast use vstd::std_specs::vec::group_vec_axioms, vstd::seq::group_seq_axioms;

/// Identity of one object in a document graph: an object number together with
/// a generation number.  Unique within one source document, but not across
/// sources; the importer translates them into one shared namespace.
#[derive(PartialEq, Eq, Structural, Clone, Copy, Debug)]
pub struct ObjectId {
    pub num: u64,
    pub gen: u16,
}

/// A typed value in the document graph.
///
/// `Real` carries the raw 32-bit encoding of a fractional number from the
/// source file; the merge engine never interprets it, only passes it through.
#[derive(Debug)]
pub enum Object {
    Null,
    Boolean(bool),
    Integer(i64),
    Real(u32),
    Text(Vec<u8>),
    Name(Vec<u8>),
    Array(Vec<Object>),
    Dictionary(Vec<(Vec<u8>, Object)>),
    Stream(Vec<(Vec<u8>, Object)>, Vec<u8>),
    Reference(ObjectId),
}

/// The mathematical value of an [`Object`]: the same shape over `Seq` and
/// `int`, the form the contracts speak of.
#[verifier::ext_equal]
pub enum ObjectV {
    Null,
    Boolean(bool),
    Integer(i64),
    Real(u32),
    Text(Seq<u8>),
    Name(Seq<u8>),
    Array(Seq<ObjectV>),
    Dictionary(Seq<(Seq<u8>, ObjectV)>),
    Stream(Seq<(Seq<u8>, ObjectV)>, Seq<u8>),
    Reference(ObjectId),
}

/// The mathematical value of a dictionary entry list, as part of the value of
/// the object holding it.
pub open spec fn entries_view_of(entries: Vec<(Vec<u8>, Object)>) -> Seq<(Seq<u8>, ObjectV)>
    decreases entries,
{
    Seq::new(
        entries@.len(),
        |i: int|
            if 0 <= i < entries@.len() {
                (entries@[i].0@, obj_view(entries@[i].1))
            } else {
                (Seq::empty(), ObjectV::Null)
            },
    )
}

/// The mathematical value of an object.
pub open spec fn obj_view(o: Object) -> ObjectV
    decreases o,
{
    match o {
        Object::Null => ObjectV::Null,
        Object::Boolean(b) => ObjectV::Boolean(b),
        Object::Integer(i) => ObjectV::Integer(i),
        Object::Real(r) => ObjectV::Real(r),
        Object::Text(s) => ObjectV::Text(s@),
        Object::Name(s) => ObjectV::Name(s@),
        Object::Array(v) => ObjectV::Array(
            Seq::new(
                v@.len(),
                |i: int|
                    if 0 <= i < v@.len() {
                        obj_view(v@[i])
                    } else {
                        ObjectV::Null
                    },
            ),
        ),
        Object::Dictionary(d) => ObjectV::Dictionary(entries_view_of(d)),
        Object::Stream(d, data) => ObjectV::Stream(entries_view_of(d), data@),
        Object::Reference(id) => ObjectV::Reference(id),
    }
}

impl View for Object {
    type V = ObjectV;

    open spec fn view(&self) -> ObjectV {
        obj_view(*self)
    }
}

/// A dictionary value: first-match lookup under a key.
pub open spec fn v_get(d: Seq<(Seq<u8>, ObjectV)>, key: Seq<u8>) -> Option<ObjectV>
    decreases d.len(),
{
    if d.len() == 0 {
        None
    } else if d[0].0 == key {
        Some(d[0].1)
    } else {
        v_get(d.skip(1), key)
    }
}

/// Whether a dictionary holds an entry under a key.
pub open spec fn v_has(d: Seq<(Seq<u8>, ObjectV)>, key: Seq<u8>) -> bool {
    v_get(d, key) is Some
}

/// The position of the first entry under a key; meaningful only when
/// `v_has(d, key)`.
pub open spec fn v_key_at(d: Seq<(Seq<u8>, ObjectV)>, key: Seq<u8>) -> int
    decreases d.len(),
{
    if d.len() == 0 {
        0
    } else if d[0].0 == key {
        0
    } else {
        1 + v_key_at(d.skip(1), key)
    }
}

/// A dictionary after setting a key: the first matching entry is rewritten in
/// place, or, with no match, a new entry is appended.
pub open spec fn v_set(d: Seq<(Seq<u8>, ObjectV)>, key: Seq<u8>, val: ObjectV) -> Seq<
    (Seq<u8>, ObjectV),
> {
    if v_has(d, key) {
        d.update(v_key_at(d, key), (key, val))
    } else {
        d.push((key, val))
    }
}

/// A dictionary after removing a key: the first matching entry is taken out,
/// or, with no match, the dictionary is unchanged.
pub open spec fn v_remove(d: Seq<(Seq<u8>, ObjectV)>, key: Seq<u8>) -> Seq<(Seq<u8>, ObjectV)> {
    if v_has(d, key) {
        d.remove(v_key_at(d, key))
    } else {
        d
    }
}

/// First-match lookup: if no entry before position `i` matches and `i` either
/// matches or is the end, then position `i` decides the lookup.
pub proof fn lemma_first_match(d: Seq<(Seq<u8>, ObjectV)>, key: Seq<u8>, i: int)
    requires
        0 <= i <= d.len(),
        forall|j: int| 0 <= j < i ==> d[j].0 != key,
        i < d.len() ==> d[i].0 == key,
    ensures
        i < d.len() ==> v_has(d, key) && v_key_at(d, key) == i && v_get(d, key) == Some(d[i].1),
        i == d.len() ==> !v_has(d, key),
    decreases d.len(),
{
    if d.len() == 0 {
    } else if d[0].0 == key {
    } else {
        assert(d.skip(1).len() == d.len() - 1);
        assert(forall|j: int| 0 <= j < i - 1 ==> d.skip(1)[j] == d[j + 1]);
        lemma_first_match(d.skip(1), key, i - 1);
    }
}

/// Whether two byte strings hold the same bytes.
pub fn bytes_eq(a: &[u8], b: &[u8]) -> (r: bool)
    ensures
        r == (a@ == b@),
{
    if a.len() != b.len() {
        assert(a@ != b@);
        return false;
    }
    let mut i: usize = 0;
    while i < a.len()
        invariant
            i <= a.len(),
            a.len() == b.len(),
            forall|j: int| 0 <= j < i ==> a@[j] == b@[j],
        decreases a.len() - i,
    {
        if a[i] != b[i] {
            assert(a@ != b@);
            return false;
        }
        i += 1;
    }
    assert(a@ =~= b@);
    true
}

/// A fresh copy of a byte string.
pub fn clone_bytes(v: &Vec<u8>) -> (r: Vec<u8>)
    ensures
        r@ == v@,
{
    let mut r: Vec<u8> = Vec::new();
    let mut i: usize = 0;
    while i < v.len()
        invariant
            i <= v.len(),
            r@ =~= v@.take(i as int),
        decreases v.len() - i,
    {
        r.push(v[i]);
        i += 1;
    }
    assert(r@ =~= v@);
    r
}

/// Looks a key up in a dictionary entry list, returning the first match.
pub fn dict_get<'a>(entries: &'a Vec<(Vec<u8>, Object)>, key: &[u8]) -> (r: Option<&'a Object>)
    ensures
        match r {
            Some(o) => v_get(entries_view_of(*entries), key@) == Some(o@),
            None => !v_has(entries_view_of(*entries), key@),
        },
{
    let ghost dv = entries_view_of(*entries);
    let mut i: usize = 0;
    while i < entries.len()
        invariant
            i <= entries.len(),
            dv == entries_view_of(*entries),
            dv.len() == entries@.len(),
            forall|j: int| 0 <= j < i ==> dv[j].0 != key@,
        decreases entries.len() - i,
    {
        if bytes_eq(entries[i].0.as_slice(), key) {
            proof {
                lemma_first_match(dv, key@, i as int);
            }
            return Some(&entries[i].1);
        }
        i += 1;
    }
    proof {
        lemma_first_match(dv, key@, entries.len() as int);
    }
    None
}

/// Whether a dictionary entry list holds a key.
pub fn dict_has(entries: &Vec<(Vec<u8>, Object)>, key: &[u8]) -> (r: bool)
    ensures
        r == v_has(entries_view_of(*entries), key@),
{
    dict_get(entries, key).is_some()
}

/// Sets a key in a dictionary entry list: rewrites the first matching entry,
/// or appends a new one.
pub fn dict_set(entries: &mut Vec<(Vec<u8>, Object)>, key: Vec<u8>, val: Object)
    ensures
        entries_view_of(*final(entries)) == v_set(entries_view_of(*old(entries)), key@, val@),
{
    let ghost dv = entries_view_of(*old(entries));
    let mut i: usize = 0;
    while i < entries.len()
        invariant
            i <= entries.len(),
            *entries == *old(entries),
            dv == entries_view_of(*entries),
            dv.len() == entries@.len(),
            forall|j: int| 0 <= j < i ==> dv[j].0 != key@,
        decreases entries.len() - i,
    {
        if bytes_eq(entries[i].0.as_slice(), key.as_slice()) {
            proof {
                lemma_first_match(dv, key@, i as int);
            }
            let ghost kv = key@;
            let ghost vv = val@;
            entries.set(i, (key, val));
            assert(entries_view_of(*entries) =~= v_set(dv, kv, vv));
            return ;
        }
        i += 1;
    }
    proof {
        lemma_first_match(dv, key@, entries.len() as int);
    }
    let ghost kv = key@;
    let ghost vv = val@;
    entries.push((key, val));
    assert(entries_view_of(*entries) =~= v_set(dv, kv, vv));
}

/// Removes a key from a dictionary entry list: takes the first matching entry
/// out, or leaves the list unchanged.
pub fn dict_remove(entries: &mut Vec<(Vec<u8>, Object)>, key: &[u8])
    ensures
        entries_view_of(*final(entries)) == v_remove(entries_view_of(*old(entries)), key@),
{
    let ghost dv = entries_view_of(*old(entries));
    let mut i: usize = 0;
    while i < entries.len()
        invariant
            i <= entries.len(),
            *entries == *old(entries),
            dv == entries_view_of(*entries),
            dv.len() == entries@.len(),
            forall|j: int| 0 <= j < i ==> dv[j].0 != key@,
        decreases entries.len() - i,
    {
        if bytes_eq(entries[i].0.as_slice(), key) {
            proof {
                lemma_first_match(dv, key@, i as int);
            }
            entries.remove(i);
            assert(entries_view_of(*entries) =~= v_remove(dv, key@));
            return ;
        }
        i += 1;
    }
    proof {
        lemma_first_match(dv, key@, entries.len() as int);
    }
    assert(entries_view_of(*entries) =~= v_remove(dv, key@));
}

/// The declared type of an object: the name under the `Type` key of a
/// dictionary or stream, if any.
pub open spec fn v_declared_type(o: ObjectV) -> Option<Seq<u8>> {
    match o {
        ObjectV::Dictionary(d) => match v_get(d, crate::names::k_type()) {
            Some(ObjectV::Name(n)) => Some(n),
            _ => None,
        },
        ObjectV::Stream(d, _) => match v_get(d, crate::names::k_type()) {
            Some(ObjectV::Name(n)) => Some(n),
            _ => None,
        },
        _ => None,
    }
}

/// The declared type of an object, as [`v_declared_type`] gives it.
pub fn declared_type<'a>(o: &'a Object) -> (r: Option<&'a Vec<u8>>)
    ensures
        match r {
            Some(n) => v_declared_type(o@) == Some(n@),
            None => v_declared_type(o@) is None,
        },
{
    let entries = match o {
        Object::Dictionary(d) => d,
        Object::Stream(d, _) => d,
        _ => { return None; },
    };
    let key = crate::names::key_type();
    match dict_get(entries, key.as_slice()) {
        Some(Object::Name(n)) => Some(n),
        _ => None,
    }
}

/// A fresh copy of an object, holding the same mathematical value.
#[verifier::loop_isolation(false)]
pub fn clone_object(o: &Object) -> (r: Object)
    ensures
        r@ == o@,
    decreases *o,
{
    match o {
        Object::Null => Object::Null,
        Object::Boolean(b) => Object::Boolean(*b),
        Object::Integer(i) => Object::Integer(*i),
        Object::Real(x) => Object::Real(*x),
        Object::Text(s) => Object::Text(clone_bytes(s)),
        Object::Name(s) => Object::Name(clone_bytes(s)),
        Object::Array(v) => {
            let mut out: Vec<Object> = Vec::new();
            let mut i: usize = 0;
            while i < v.len()
                invariant
                    i <= v.len(),
                    out@.len() == i,
                    forall|j: int| 0 <= j < i ==> obj_view(out@[j]) == obj_view(v@[j]),
                decreases v.len() - i,
            {
                out.push(clone_object(&v[i]));
                i += 1;
            }
            let r = Object::Array(out);
            assert(obj_view(*o) is Array);
            assert(obj_view(r) is Array);
            assert(obj_view(r)->Array_0 =~= obj_view(*o)->Array_0);
            assert(r@ =~= o@);
            r
        },
        Object::Dictionary(d) => {
            let r = Object::Dictionary(clone_entries(d));
            assert(r@ =~= o@);
            r
        },
        Object::Stream(d, data) => {
            let r = Object::Stream(clone_entries(d), clone_bytes(data));
            assert(r@ =~= o@);
            r
        },
        Object::Reference(id) => Object::Reference(*id),
    }
}

/// A fresh copy of a dictionary entry list, holding the same value.
pub fn clone_entries(d: &Vec<(Vec<u8>, Object)>) -> (r: Vec<(Vec<u8>, Object)>)
    ensures
        entries_view_of(r) == entries_view_of(*d),
    decreases *d,
{
    let mut out: Vec<(Vec<u8>, Object)> = Vec::new();
    let mut i: usize = 0;
    while i < d.len()
        invariant
            i <= d.len(),
            out@.len() == i,
            forall|j: int|
                0 <= j < i ==> out@[j].0@ == d@[j].0@ && obj_view(out@[j].1) == obj_view(d@[j].1),
        decreases d.len() - i,
    {
        let key = clone_bytes(&d[i].0);
        let val = clone_object(&d[i].1);
        out.push((key, val));
        i += 1;
    }
    assert(entries_view_of(out) =~= entries_view_of(*d));
    out
}

/// The mathematical value of an object has the object's own variant.
pub proof fn lemma_obj_view_variant(x: Object)
    ensures
        (obj_view(x) is Null) == (x is Null),
        (obj_view(x) is Boolean) == (x is Boolean),
        (obj_view(x) is Integer) == (x is Integer),
        (obj_view(x) is Real) == (x is Real),
        (obj_view(x) is Text) == (x is Text),
        (obj_view(x) is Name) == (x is Name),
        (obj_view(x) is Array) == (x is Array),
        (obj_view(x) is Dictionary) == (x is Dictionary),
        (obj_view(x) is Stream) == (x is Stream),
        (obj_view(x) is Reference) == (x is Reference),
{
    match x {
        Object::Null => {},
        Object::Boolean(_) => {},
        Object::Integer(_) => {},
        Object::Real(_) => {},
        Object::Text(_) => {},
        Object::Name(_) => {},
        Object::Array(_) => {},
        Object::Dictionary(_) => {},
        Object::Stream(_, _) => {},
        Object::Reference(_) => {},
    }
}

/// A held key's first entry is inside the list, carries the key, and
/// decides the lookup.
pub proof fn lemma_v_at_range(d: Seq<(Seq<u8>, ObjectV)>, key: Seq<u8>)
    requires
        v_has(d, key),
    ensures
        0 <= v_key_at(d, key) < d.len(),
        d[v_key_at(d, key)].0 == key,
        v_get(d, key) == Some(d[v_key_at(d, key)].1),
    decreases d.len(),
{
    if d.len() == 0 {
    } else if d[0].0 == key {
    } else {
        lemma_v_at_range(d.skip(1), key);
    }
}

/// Setting a key stores its value: looking the same key up finds it.
pub proof fn lemma_v_get_set_same(d: Seq<(Seq<u8>, ObjectV)>, key: Seq<u8>, val: ObjectV)
    ensures
        v_get(v_set(d, key, val), key) == Some(val),
    decreases d.len(),
{
    if d.len() == 0 {
        assert(d.push((key, val))[0] == (key, val));
    } else if d[0].0 == key {
        assert(d.update(0, (key, val))[0] == (key, val));
    } else {
        lemma_v_get_set_same(d.skip(1), key, val);
        if v_has(d, key) {
            lemma_v_at_range(d, key);
            assert(v_set(d, key, val)[0] == d[0]);
            assert(v_set(d, key, val).skip(1) =~= v_set(d.skip(1), key, val));
        } else {
            assert(v_set(d, key, val)[0] == d[0]);
            assert(v_set(d, key, val).skip(1) =~= v_set(d.skip(1), key, val));
        }
    }
}

/// Setting one key leaves every other key's lookup alone.
pub proof fn lemma_v_get_set_other(
    d: Seq<(Seq<u8>, ObjectV)>,
    key: Seq<u8>,
    val: ObjectV,
    other: Seq<u8>,
)
    requires
        key != other,
    ensures
        v_get(v_set(d, key, val), other) == v_get(d, other),
    decreases d.len(),
{
    if d.len() == 0 {
        let u = d.push((key, val));
        assert(v_set(d, key, val) == u);
        assert(u[0] == (key, val));
        assert(u.skip(1) =~= Seq::<(Seq<u8>, ObjectV)>::empty());
        assert(v_get(u.skip(1), other) is None);
        assert(v_get(u, other) is None);
    } else if d[0].0 == key {
        assert(v_has(d, key));
        assert(v_key_at(d, key) == 0);
        let u = d.update(0, (key, val));
        assert(v_set(d, key, val) == u);
        assert(u[0] == (key, val));
        assert(u.skip(1) =~= d.skip(1));
        assert(v_get(u, other) == v_get(d.skip(1), other));
        assert(v_get(d, other) == v_get(d.skip(1), other));
    } else {
        lemma_v_get_set_other(d.skip(1), key, val, other);
        if v_has(d, key) {
            lemma_v_at_range(d, key);
        }
        let u = v_set(d, key, val);
        assert(u[0] == d[0]);
        assert(u.skip(1) =~= v_set(d.skip(1), key, val));
        if d[0].0 == other {
            assert(v_get(u, other) == Some(u[0].1));
            assert(v_get(d, other) == Some(d[0].1));
        } else {
            assert(v_get(u, other) == v_get(u.skip(1), other));
            assert(v_get(d, other) == v_get(d.skip(1), other));
        }
    }
}

/// Whether every key of a dictionary occurs once.
pub open spec fn keys_unique(d: Seq<(Seq<u8>, ObjectV)>) -> bool {
    forall|i: int, j: int| 0 <= i < j < d.len() ==> (#[trigger] d[i]).0 != (#[trigger] d[j]).0
}

/// Removing a key from a dictionary of distinct keys leaves no entry under
/// it behind.
pub proof fn lemma_v_remove_gone(d: Seq<(Seq<u8>, ObjectV)>, key: Seq<u8>)
    requires
        keys_unique(d),
    ensures
        !v_has(v_remove(d, key), key),
    decreases d.len(),
{
    if d.len() == 0 {
    } else if d[0].0 == key {
        assert(d.remove(0) =~= d.skip(1));
        assert forall|i: int| 0 <= i < d.skip(1).len() implies (#[trigger] d.skip(1)[i]).0
            != key by {
            assert(d.skip(1)[i] == d[i + 1]);
        }
        lemma_no_key(d.skip(1), key);
    } else {
        assert(forall|i: int, j: int|
            0 <= i < j < d.skip(1).len() ==> (#[trigger] d.skip(1)[i]).0 != (#[trigger] d.skip(
                1,
            )[j]).0);
        lemma_v_remove_gone(d.skip(1), key);
        if v_has(d, key) {
            lemma_v_at_range(d, key);
            assert(v_remove(d, key)[0] == d[0]);
            assert(v_remove(d, key).skip(1) =~= v_remove(d.skip(1), key));
        }
    }
}

/// A dictionary none of whose entries carries a key does not hold it.
pub proof fn lemma_no_key(d: Seq<(Seq<u8>, ObjectV)>, key: Seq<u8>)
    requires
        forall|i: int| 0 <= i < d.len() ==> (#[trigger] d[i]).0 != key,
    ensures
        !v_has(d, key),
    decreases d.len(),
{
    if d.len() > 0 {
        assert(forall|i: int| 0 <= i < d.skip(1).len() ==> (#[trigger] d.skip(1)[i]).0 != key);
        lemma_no_key(d.skip(1), key);
    }
}

} // verus!
