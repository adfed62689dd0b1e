//! The page-number renderer: when a numbering style is configured, every
//! page is stamped with its 1-based number at the configured offset.
//!
//! One shared font object is registered once; each page binds it at the
//! lowest free local font slot of its own resources — local, because a
//! source page may already use the first slot for body text.  The stamp is
//! a short text-drawing sequence whose transformation flips the text
//! vertically, the rendering collaborator's coordinate system being
//! inverted relative to the final output, and translates it by the offset
//! at 300 device units per inch.  It is appended as a further content
//! stream, leaving the page's existing content untouched.

use vstd::prelude::*;

use crate::config::PageNumber;
use crate::document::{t_get, t_set, Document, DocumentV};
use crate::names::{
    k_base_font, k_contents, k_font, k_op_bt, k_op_et, k_op_rg, k_op_slash_f, k_op_tf,
    k_op_tj_prefix, k_op_tj_suffix, k_op_tm_prefix, k_op_tm_suffix, k_resources, k_slot_prefix,
    k_sp, k_subtype, k_type, k_type1,
};
use crate::object::{entries_view_of, v_get, v_has, v_set, Object, ObjectId, ObjectV};
use crate::text::{coord_rep, dec_rep, frac_rep, int_rep};
use crate::MergeError;

verus! {

broadcast use vstd::std_specs::vec::group_vec_axioms, vstd::seq::group_seq_axioms;

/// The name of a local font slot: the slot prefix and the slot's number.
pub open spec fn slot_name(n: nat) -> Seq<u8> {
    k_slot_prefix() + dec_rep(n)
}

/// The lowest free local font slot at or after `n`, found within the fuel;
/// a font table of size `k` always frees a slot among the first `k + 1`.
pub open spec fn find_slot(fonts: Seq<(Seq<u8>, ObjectV)>, n: nat, fuel: nat) -> nat
    decreases fuel,
{
    if fuel == 0 {
        n
    } else if !v_has(fonts, slot_name(n)) {
        n
    } else {
        find_slot(fonts, n + 1, (fuel - 1) as nat)
    }
}

/// The shared font object: a built-in, non-embedded font under the
/// configured name.
pub open spec fn font_dict(font: Seq<u8>) -> Seq<(Seq<u8>, ObjectV)> {
    seq![
        (k_type(), ObjectV::Name(k_font())),
        (k_subtype(), ObjectV::Name(k_type1())),
        (k_base_font(), ObjectV::Name(font)),
    ]
}

/// One page's stamp: begin text, fill color, font and size at the page's
/// slot, the vertical flip and offset translation, the page-number text,
/// end text.
pub open spec fn content_ops(style: PageNumber, slot: nat, n1: nat) -> Seq<u8> {
    k_op_bt() + frac_rep(style.color.r) + k_sp() + frac_rep(style.color.g) + k_sp() + frac_rep(
        style.color.b,
    ) + k_op_rg() + k_op_slash_f() + dec_rep(slot) + k_sp() + int_rep(style.size as int) + k_op_tf()
        + k_op_tm_prefix() + coord_rep(style.x as int) + k_sp() + coord_rep(style.y as int)
        + k_op_tm_suffix() + k_op_tj_prefix() + dec_rep(n1) + k_op_tj_suffix() + k_op_et()
}

/// One page stamped: the shared font bound at the page's lowest free local
/// slot, and the stamp appended as one further content stream under a
/// fresh id.
pub open spec fn stamp_page(
    t: Seq<(ObjectId, ObjectV)>,
    style: PageNumber,
    font_id: ObjectId,
    sid: ObjectId,
    pid: ObjectId,
    n1: nat,
) -> Result<Seq<(ObjectId, ObjectV)>, MergeError> {
    match t_get(t, pid) {
        Some(ObjectV::Dictionary(pe)) => {
            let slotres = match v_get(pe, k_resources()) {
                Some(ObjectV::Dictionary(res)) => match v_get(res, k_font()) {
                    Some(ObjectV::Dictionary(fonts)) => {
                        let slot = find_slot(fonts, 1, (fonts.len() + 1) as nat);
                        Ok(
                            (
                                v_set(
                                    pe,
                                    k_resources(),
                                    ObjectV::Dictionary(
                                        v_set(
                                            res,
                                            k_font(),
                                            ObjectV::Dictionary(
                                                v_set(
                                                    fonts,
                                                    slot_name(slot),
                                                    ObjectV::Reference(font_id),
                                                ),
                                            ),
                                        ),
                                    ),
                                ),
                                slot,
                            ),
                        )
                    },
                    Some(_) => Err(MergeError::BadResources),
                    None => Ok((pe, 1 as nat)),
                },
                Some(_) => Err(MergeError::BadResources),
                None => Ok((pe, 1 as nat)),
            };
            match slotres {
                Err(e) => Err(e),
                Ok(ps) => {
                    let ops = content_ops(style, ps.1, n1);
                    let newc = match v_get(ps.0, k_contents()) {
                        Some(ObjectV::Reference(cid)) => Ok(
                            ObjectV::Array(
                                seq![ObjectV::Reference(cid), ObjectV::Reference(sid)],
                            ),
                        ),
                        Some(ObjectV::Array(vs)) => Ok(
                            ObjectV::Array(vs.push(ObjectV::Reference(sid))),
                        ),
                        None => Ok(ObjectV::Reference(sid)),
                        Some(_) => Err(MergeError::BadPage),
                    };
                    match newc {
                        Err(e) => Err(e),
                        Ok(c) => Ok(
                            t_set(
                                t_set(t, sid, ObjectV::Stream(Seq::empty(), ops)),
                                pid,
                                ObjectV::Dictionary(v_set(ps.0, k_contents(), c)),
                            ),
                        ),
                    }
                },
            }
        },
        _ => Err(MergeError::BadPage),
    }
}

/// The stamp folded over the pages from a position on, 1-based numbers and
/// fresh stream ids advancing together.
pub open spec fn stamp_fold(
    t: Seq<(ObjectId, ObjectV)>,
    style: PageNumber,
    font_id: ObjectId,
    base_sid: int,
    page_ids: Seq<ObjectId>,
    i: int,
) -> Result<Seq<(ObjectId, ObjectV)>, MergeError>
    decreases page_ids.len() - i,
{
    if i < 0 || i >= page_ids.len() {
        Ok(t)
    } else {
        match stamp_page(
            t,
            style,
            font_id,
            ObjectId { num: (base_sid + i) as u64, gen: 0 },
            page_ids[i],
            (i + 1) as nat,
        ) {
            Ok(t2) => stamp_fold(t2, style, font_id, base_sid, page_ids, i + 1),
            Err(e) => Err(e),
        }
    }
}

/// The page-number renderer over a document: the shared font object takes
/// the next free id, every page is stamped in page order, and the id bound
/// moves past the font and the per-page streams.
pub open spec fn number_spec(doc: DocumentV, style: PageNumber) -> Result<DocumentV, MergeError> {
    let pids = crate::links::page_ids_of(doc);
    if doc.max_id + 1 + pids.len() > u64::MAX {
        Err(MergeError::IdSpaceExhausted)
    } else {
        let font_id = ObjectId { num: (doc.max_id + 1) as u64, gen: 0 };
        let t0 = t_set(doc.objects, font_id, ObjectV::Dictionary(font_dict(style.font@)));
        match stamp_fold(t0, style, font_id, doc.max_id + 2, pids, 0) {
            Err(e) => Err(e),
            Ok(t) => Ok(
                DocumentV {
                    objects: t,
                    trailer: doc.trailer,
                    max_id: (doc.max_id + 1 + pids.len()) as u64,
                },
            ),
        }
    }
}

/// The name of a local font slot, as [`slot_name`] gives it.
fn slot_name_bytes(n: u128) -> (r: Vec<u8>)
    ensures
        r@ == slot_name(n as nat),
{
    let p = crate::names::key_slot_prefix();
    let d = crate::text::dec_bytes_wide(n);
    let r = crate::text::bytes_concat(p.as_slice(), d.as_slice());
    assert(r@ =~= slot_name(n as nat));
    r
}

/// One page's stamp, as [`content_ops`] gives it.
fn content_ops_bytes(style: &PageNumber, slot: u128, n1: u64) -> (r: Vec<u8>)
    ensures
        r@ == content_ops(*style, slot as nat, n1 as nat),
{
    let mut r = crate::names::key_op_bt();
    let cr = crate::text::frac_bytes(style.color.r);
    let cg = crate::text::frac_bytes(style.color.g);
    let cb = crate::text::frac_bytes(style.color.b);
    let sp = crate::names::key_sp();
    r = crate::text::bytes_concat(r.as_slice(), cr.as_slice());
    r = crate::text::bytes_concat(r.as_slice(), sp.as_slice());
    r = crate::text::bytes_concat(r.as_slice(), cg.as_slice());
    r = crate::text::bytes_concat(r.as_slice(), sp.as_slice());
    r = crate::text::bytes_concat(r.as_slice(), cb.as_slice());
    let rg = crate::names::key_op_rg();
    r = crate::text::bytes_concat(r.as_slice(), rg.as_slice());
    let sf = crate::names::key_op_slash_f();
    r = crate::text::bytes_concat(r.as_slice(), sf.as_slice());
    let sd = crate::text::dec_bytes_wide(slot);
    r = crate::text::bytes_concat(r.as_slice(), sd.as_slice());
    r = crate::text::bytes_concat(r.as_slice(), sp.as_slice());
    let sz = crate::text::int_bytes(style.size as i64);
    r = crate::text::bytes_concat(r.as_slice(), sz.as_slice());
    let tf = crate::names::key_op_tf();
    r = crate::text::bytes_concat(r.as_slice(), tf.as_slice());
    let tmp = crate::names::key_op_tm_prefix();
    r = crate::text::bytes_concat(r.as_slice(), tmp.as_slice());
    let cx = crate::text::coord_bytes(style.x);
    r = crate::text::bytes_concat(r.as_slice(), cx.as_slice());
    r = crate::text::bytes_concat(r.as_slice(), sp.as_slice());
    let cy = crate::text::coord_bytes(style.y);
    r = crate::text::bytes_concat(r.as_slice(), cy.as_slice());
    let tms = crate::names::key_op_tm_suffix();
    r = crate::text::bytes_concat(r.as_slice(), tms.as_slice());
    let tjp = crate::names::key_op_tj_prefix();
    r = crate::text::bytes_concat(r.as_slice(), tjp.as_slice());
    let nd = crate::text::dec_bytes(n1);
    r = crate::text::bytes_concat(r.as_slice(), nd.as_slice());
    let tjs = crate::names::key_op_tj_suffix();
    r = crate::text::bytes_concat(r.as_slice(), tjs.as_slice());
    let et = crate::names::key_op_et();
    r = crate::text::bytes_concat(r.as_slice(), et.as_slice());
    assert(r@ =~= content_ops(*style, slot as nat, n1 as nat));
    r
}

/// Stamps every page with its 1-based number in the configured style, as
/// [`number_spec`] gives it; on failure the trailer is untouched and the
/// merge aborts.
#[verifier::loop_isolation(false)]
#[verifier::rlimit(100)]
pub fn add_page_numbers(doc: &mut Document, style: &PageNumber) -> (r: Result<(), MergeError>)
    ensures
        match r {
            Ok(_) => number_spec(old(doc)@, *style) == Ok::<DocumentV, MergeError>(final(doc)@),
            Err(e) => number_spec(old(doc)@, *style) == Err::<DocumentV, MergeError>(e),
        },
        final(doc)@.trailer == old(doc)@.trailer,
{
    let ghost d0 = doc@;
    let page_ids = crate::links::get_page_ids(doc);
    let len64: u64 = page_ids.len() as u64;
    if len64 >= u64::MAX - doc.max_id {
        return Err(MergeError::IdSpaceExhausted);
    }
    let font_num: u64 = doc.max_id + 1;
    let font_id = ObjectId { num: font_num, gen: 0 };
    let mut fe: Vec<(Vec<u8>, Object)> = Vec::new();
    fe.push((crate::names::key_type(), Object::Name(crate::names::key_font())));
    fe.push((crate::names::key_subtype(), Object::Name(crate::names::key_type1())));
    fe.push((crate::names::key_base_font(), Object::Name(crate::object::clone_bytes(&style.font))));
    proof {
        assert(entries_view_of(fe) =~= font_dict(style.font@));
    }
    doc.set(font_id, Object::Dictionary(fe));
    let ghost t0 = t_set(d0.objects, font_id, ObjectV::Dictionary(font_dict(style.font@)));
    proof {
        assert(doc@.objects == t0);
    }
    let mut i: usize = 0;
    while i < page_ids.len()
        invariant
            i <= page_ids.len(),
            doc@.trailer == d0.trailer,
            doc@.max_id == d0.max_id,
            page_ids@ == crate::links::page_ids_of(d0),
            font_num == d0.max_id + 1,
            d0.max_id + 1 + page_ids@.len() <= u64::MAX,
            stamp_fold(t0, *style, font_id, d0.max_id + 2, page_ids@, 0) == stamp_fold(
                doc@.objects,
                *style,
                font_id,
                d0.max_id + 2,
                page_ids@,
                i as int,
            ),
        decreases page_ids.len() - i,
    {
        let ghost t_here = doc@.objects;
        let pid = page_ids[i];
        let sid = ObjectId { num: font_num + 1 + i as u64, gen: 0 };
        let mut pe: Vec<(Vec<u8>, Object)> = match doc.get_cloned(pid) {
            Some(Object::Dictionary(pe)) => pe,
            _ => {
                return Err(MergeError::BadPage);
            },
        };
        let ghost pev = entries_view_of(pe);
        // Bind the shared font at the lowest free local slot.
        let mut slot: u128 = 1;
        let mut have_fonts = false;
        let mut res: Vec<(Vec<u8>, Object)> = Vec::new();
        let mut fonts: Vec<(Vec<u8>, Object)> = Vec::new();
        match crate::object::dict_get(&pe, crate::names::key_resources().as_slice()) {
            Some(Object::Dictionary(r0)) => {
                match crate::object::dict_get(r0, crate::names::key_font().as_slice()) {
                    Some(Object::Dictionary(f0)) => {
                        res = crate::object::clone_entries(r0);
                        fonts = crate::object::clone_entries(f0);
                        have_fonts = true;
                    },
                    Some(_) => {
                        return Err(MergeError::BadResources);
                    },
                    None => {},
                }
            },
            Some(_) => {
                return Err(MergeError::BadResources);
            },
            None => {},
        }
        let ghost resv = entries_view_of(res);
        let ghost fontsv = entries_view_of(fonts);
        if have_fonts {
            let mut fuel: u128 = fonts.len() as u128 + 1;
            let ghost full_fuel = fuel as nat;
            proof {
                assert(find_slot(fontsv, 1, full_fuel) == find_slot(
                    fontsv,
                    slot as nat,
                    fuel as nat,
                ));
            }
            loop
                invariant
                    fuel <= full_fuel,
                    slot >= 1,
                    slot <= 1 + (full_fuel - fuel),
                    fontsv == entries_view_of(fonts),
                    find_slot(fontsv, 1, full_fuel) == find_slot(fontsv, slot as nat, fuel as nat),
                decreases fuel,
            {
                if fuel == 0 {
                    break ;
                }
                let nm = slot_name_bytes(slot);
                if !crate::object::dict_has(&fonts, nm.as_slice()) {
                    break ;
                }
                slot = slot + 1;
                fuel = fuel - 1;
            }
            proof {
                assert(find_slot(fontsv, 1, full_fuel) == slot as nat);
            }
            let nm2 = slot_name_bytes(slot);
            crate::object::dict_set(&mut fonts, nm2, Object::Reference(font_id));
            crate::object::dict_set(
                &mut res,
                crate::names::key_font(),
                Object::Dictionary(fonts),
            );
            crate::object::dict_set(
                &mut pe,
                crate::names::key_resources(),
                Object::Dictionary(res),
            );
        }
        // Append the stamp as one further content stream.
        let n1: u64 = i as u64 + 1;
        let ops = content_ops_bytes(style, slot, n1);
        let newc: Object = match crate::object::dict_get(
            &pe,
            crate::names::key_contents().as_slice(),
        ) {
            Some(Object::Reference(cid)) => {
                let mut arr: Vec<Object> = Vec::new();
                arr.push(Object::Reference(*cid));
                arr.push(Object::Reference(sid));
                let a = Object::Array(arr);
                proof {
                    assert(arr@.len() == 2);
                    assert(crate::object::obj_view(arr@[0]) == ObjectV::Reference(*cid));
                    assert(crate::object::obj_view(arr@[1]) == ObjectV::Reference(sid));
                    assert(a@->Array_0 =~= seq![
                        ObjectV::Reference(*cid),
                        ObjectV::Reference(sid),
                    ]);
                }
                a
            },
            Some(Object::Array(vs)) => {
                let mut arr: Vec<Object> = Vec::new();
                let mut q: usize = 0;
                while q < vs.len()
                    invariant
                        q <= vs.len(),
                        arr@.len() == q,
                        forall|j: int|
                            0 <= j < q ==> crate::object::obj_view(arr@[j])
                                == crate::object::obj_view(vs@[j]),
                    decreases vs.len() - q,
                {
                    arr.push(crate::object::clone_object(&vs[q]));
                    q += 1;
                }
                arr.push(Object::Reference(sid));
                let a = Object::Array(arr);
                proof {
                    let old_view = crate::object::obj_view(Object::Array(*vs))->Array_0;
                    assert(arr@.len() == vs@.len() + 1);
                    assert(forall|j: int|
                        0 <= j < vs@.len() ==> crate::object::obj_view(#[trigger] arr@[j])
                            == old_view[j]);
                    assert(crate::object::obj_view(arr@[vs@.len() as int])
                        == ObjectV::Reference(sid));
                    assert(a@->Array_0 =~= old_view.push(ObjectV::Reference(sid)));
                }
                a
            },
            None => Object::Reference(sid),
            Some(_) => {
                return Err(MergeError::BadPage);
            },
        };
        crate::object::dict_set(&mut pe, crate::names::key_contents(), newc);
        let st_entries: Vec<(Vec<u8>, Object)> = Vec::new();
        proof {
            assert(entries_view_of(st_entries) =~= Seq::<(Seq<u8>, ObjectV)>::empty());
        }
        let st = Object::Stream(st_entries, ops);
        doc.set(sid, st);
        doc.set(pid, Object::Dictionary(pe));
        proof {
            let stepped = stamp_page(
                t_here,
                *style,
                font_id,
                sid,
                pid,
                (i + 1) as nat,
            ).unwrap();
            assert(doc@.objects == stepped);
        }
        i += 1;
    }
    doc.max_id = doc.max_id + 1 + len64;
    proof {
        let fin = number_spec(d0, *style).unwrap();
        assert(doc@.objects == fin.objects);
        assert(doc@.trailer == fin.trailer);
        assert(doc@.max_id == fin.max_id);
        assert(doc@ == fin);
    }
    Ok(())
}

/// Every stamped page gains exactly one appended text block and one new
/// font binding.  For a page whose resources hold a font table, a
/// successful stamp leaves, under the fresh stream id, one content stream
/// reading exactly the begin-text/color/font/flip/"Page N"/end-text block
/// for the page's 1-based number; binds the shared font at the page's
/// lowest free local slot — the slot the block's font operation names; and
/// appends the new stream to the page's contents, leaving what was there
/// before in place and every other page field untouched.
pub proof fn lemma_stamp_one_page(
    t: Seq<(ObjectId, ObjectV)>,
    style: PageNumber,
    font_id: ObjectId,
    sid: ObjectId,
    pid: ObjectId,
    n1: nat,
    t2: Seq<(ObjectId, ObjectV)>,
    pe: Seq<(Seq<u8>, ObjectV)>,
    res: Seq<(Seq<u8>, ObjectV)>,
    fonts: Seq<(Seq<u8>, ObjectV)>,
)
    requires
        sid != pid,
        t_get(t, pid) == Some(ObjectV::Dictionary(pe)),
        v_get(pe, k_resources()) == Some(ObjectV::Dictionary(res)),
        v_get(res, k_font()) == Some(ObjectV::Dictionary(fonts)),
        stamp_page(t, style, font_id, sid, pid, n1) == Ok::<Seq<(ObjectId, ObjectV)>, MergeError>(
            t2,
        ),
    ensures
        ({
            let slot = find_slot(fonts, 1, (fonts.len() + 1) as nat);
            &&& t_get(t2, sid) == Some(
                ObjectV::Stream(Seq::empty(), content_ops(style, slot, n1)),
            )
            &&& t_get(t2, pid) matches Some(ObjectV::Dictionary(pe2)) && {
                &&& v_get(pe2, k_resources()) matches Some(ObjectV::Dictionary(res2)) && v_get(
                    res2,
                    k_font(),
                ) == Some(
                    ObjectV::Dictionary(
                        v_set(fonts, slot_name(slot), ObjectV::Reference(font_id)),
                    ),
                )
                &&& match v_get(pe, k_contents()) {
                    Some(ObjectV::Reference(cid)) => v_get(pe2, k_contents()) == Some(
                        ObjectV::Array(
                            seq![ObjectV::Reference(cid), ObjectV::Reference(sid)],
                        ),
                    ),
                    Some(ObjectV::Array(vs)) => v_get(pe2, k_contents()) == Some(
                        ObjectV::Array(vs.push(ObjectV::Reference(sid))),
                    ),
                    None => v_get(pe2, k_contents()) == Some(ObjectV::Reference(sid)),
                    Some(_) => false,
                }
                &&& forall|k: Seq<u8>|
                    k != k_resources() && k != k_contents() ==> #[trigger] v_get(pe2, k) == v_get(
                        pe,
                        k,
                    )
            }
        }),
{
    let slot = find_slot(fonts, 1, (fonts.len() + 1) as nat);
    let fonts2 = v_set(fonts, slot_name(slot), ObjectV::Reference(font_id));
    let res2 = v_set(res, k_font(), ObjectV::Dictionary(fonts2));
    let pe_r = v_set(pe, k_resources(), ObjectV::Dictionary(res2));
    assert(k_resources().len() == 9 && k_contents().len() == 8 && k_font().len() == 4);
    crate::object::lemma_v_get_set_other(pe, k_resources(), ObjectV::Dictionary(res2), k_contents());
    assert(v_get(pe_r, k_contents()) == v_get(pe, k_contents()));
    let c = match v_get(pe_r, k_contents()) {
        Some(ObjectV::Reference(cid)) => ObjectV::Array(
            seq![ObjectV::Reference(cid), ObjectV::Reference(sid)],
        ),
        Some(ObjectV::Array(vs)) => ObjectV::Array(vs.push(ObjectV::Reference(sid))),
        _ => ObjectV::Reference(sid),
    };
    let pe2 = v_set(pe_r, k_contents(), c);
    let ops = content_ops(style, slot, n1);
    assert(t2 == t_set(t_set(t, sid, ObjectV::Stream(Seq::empty(), ops)), pid, ObjectV::Dictionary(
        pe2,
    )));
    crate::document::lemma_t_get_set_same(t, sid, ObjectV::Stream(Seq::empty(), ops));
    crate::document::lemma_t_get_set_other(
        t_set(t, sid, ObjectV::Stream(Seq::empty(), ops)),
        pid,
        ObjectV::Dictionary(pe2),
        sid,
    );
    crate::document::lemma_t_get_set_same(
        t_set(t, sid, ObjectV::Stream(Seq::empty(), ops)),
        pid,
        ObjectV::Dictionary(pe2),
    );
    crate::object::lemma_v_get_set_same(pe_r, k_contents(), c);
    crate::object::lemma_v_get_set_other(pe_r, k_contents(), c, k_resources());
    crate::object::lemma_v_get_set_same(pe, k_resources(), ObjectV::Dictionary(res2));
    crate::object::lemma_v_get_set_same(res, k_font(), ObjectV::Dictionary(fonts2));
    assert forall|k: Seq<u8>| k != k_resources() && k != k_contents() implies #[trigger] v_get(
        pe2,
        k,
    ) == v_get(pe, k) by {
        crate::object::lemma_v_get_set_other(pe_r, k_contents(), c, k);
        crate::object::lemma_v_get_set_other(pe, k_resources(), ObjectV::Dictionary(res2), k);
    }
}

} // verus!
