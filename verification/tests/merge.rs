//! End-to-end exercises of the merge engine on documents built in memory:
//! outline splicing, link rewriting, page numbering, compaction, and the
//! error paths.

use vitepress_pdf_export::document::Document;
use vitepress_pdf_export::import::{import_documents, ImportedParts, SourceDoc};
use vitepress_pdf_export::links::{get_named_dests, get_page_ids, rewrite_links};
use vitepress_pdf_export::object::{Object, ObjectId};
use vitepress_pdf_export::structure::build_document;
use vitepress_pdf_export::MergeError;

fn id(num: u64) -> ObjectId {
    ObjectId { num, gen: 0 }
}

fn refer(num: u64) -> Object {
    Object::Reference(id(num))
}

fn name(s: &str) -> Object {
    Object::Name(s.as_bytes().to_vec())
}

fn text(s: &str) -> Object {
    Object::Text(s.as_bytes().to_vec())
}

fn dict(entries: Vec<(&str, Object)>) -> Object {
    Object::Dictionary(
        entries
            .into_iter()
            .map(|(k, v)| (k.as_bytes().to_vec(), v))
            .collect(),
    )
}

fn entries_of(o: &Object) -> &Vec<(Vec<u8>, Object)> {
    match o {
        Object::Dictionary(e) => e,
        _ => panic!("expected a dictionary"),
    }
}

fn get<'a>(e: &'a [(Vec<u8>, Object)], key: &str) -> Option<&'a Object> {
    e.iter().find(|(k, _)| k == key.as_bytes()).map(|(_, v)| v)
}

fn get_ref(e: &[(Vec<u8>, Object)], key: &str) -> ObjectId {
    match get(e, key).expect("missing key") {
        Object::Reference(r) => *r,
        other => panic!("expected a reference, got {other:?}"),
    }
}

fn lookup<'a>(doc: &'a Document, oid: ObjectId) -> &'a Object {
    doc.objects
        .iter()
        .find(|(i, _)| *i == oid)
        .map(|(_, o)| o)
        .expect("missing object")
}

/// One single-page source whose page carries a link annotation pointing at
/// the given address.
fn source_with_link(url: &str, target: &str) -> SourceDoc {
    let objects = vec![
        (id(2), dict(vec![("Type", name("Font")), ("Subtype", name("Type1")), ("BaseFont", name("Courier"))])),
        (id(3), dict(vec![("Font", dict(vec![("F1", refer(2))]))])),
        (
            id(4),
            Object::Stream(
                Vec::new(),
                b"BT\n/F1 48 Tf\n100 600 Td\n(Hello World!) Tj\nET".to_vec(),
            ),
        ),
        (id(5), dict(vec![("Type", name("Action")), ("S", name("URI")), ("URI", text(target))])),
        (
            id(6),
            dict(vec![
                ("Type", name("Annot")),
                ("Subtype", name("Link")),
                ("Rect", Object::Array(vec![Object::Integer(0), Object::Integer(0), Object::Integer(595), Object::Integer(842)])),
                ("F", Object::Integer(4)),
                ("A", refer(5)),
            ]),
        ),
        (
            id(7),
            dict(vec![
                ("Type", name("Page")),
                ("Parent", refer(1)),
                ("Contents", refer(4)),
                ("Resources", refer(3)),
                ("Annots", Object::Array(vec![refer(6)])),
            ]),
        ),
        (
            id(1),
            dict(vec![
                ("Type", name("Pages")),
                ("Kids", Object::Array(vec![refer(7)])),
                ("Count", Object::Integer(1)),
            ]),
        ),
        (id(8), dict(vec![("Type", name("Catalog")), ("Pages", refer(1))])),
    ];
    SourceDoc {
        url: url.as_bytes().to_vec(),
        objects,
        pages: vec![id(7)],
    }
}

/// One single-page source with a three-node outline: a root child holding
/// two children of its own, declared count 3.
fn source_with_outline(url: &str) -> SourceDoc {
    let objects = vec![
        (
            id(10),
            dict(vec![
                ("Type", name("Outlines")),
                ("First", refer(11)),
                ("Last", refer(11)),
                ("Count", Object::Integer(3)),
            ]),
        ),
        (
            id(11),
            dict(vec![
                ("Title", text("Node 1")),
                ("Parent", refer(10)),
                ("First", refer(12)),
                ("Last", refer(13)),
                ("Count", Object::Integer(2)),
            ]),
        ),
        (
            id(12),
            dict(vec![
                ("Title", text("Node 2")),
                ("Parent", refer(11)),
                ("Next", refer(13)),
                ("Count", Object::Integer(1)),
            ]),
        ),
        (
            id(13),
            dict(vec![
                ("Title", text("Node 3")),
                ("Parent", refer(11)),
                ("Prev", refer(12)),
                ("Count", Object::Integer(1)),
            ]),
        ),
        (
            id(7),
            dict(vec![("Type", name("Page")), ("Parent", refer(1)), ("Resources", dict(vec![]))]),
        ),
        (
            id(1),
            dict(vec![
                ("Type", name("Pages")),
                ("Kids", Object::Array(vec![refer(7)])),
                ("Count", Object::Integer(1)),
            ]),
        ),
        (
            id(8),
            dict(vec![("Type", name("Catalog")), ("Pages", refer(1)), ("Outlines", refer(10))]),
        ),
    ];
    SourceDoc {
        url: url.as_bytes().to_vec(),
        objects,
        pages: vec![id(7)],
    }
}

fn import_and_build(sources: Vec<SourceDoc>) -> (ImportedParts, Document) {
    let parts = import_documents(&sources).expect("import");
    let doc = build_document(&parts).expect("build");
    (parts, doc)
}

#[test]
fn test_merge_toc() {
    let sources = vec![
        source_with_outline("http://example.com/1.html"),
        source_with_outline("http://example.com/2.html"),
        source_with_outline("http://example.com/3.html"),
    ];
    let (_, doc) = import_and_build(sources);

    // The catalog points at one merged outline root.
    let cat = lookup(&doc, get_ref(&doc.trailer, "Root"));
    let outlines_id = get_ref(entries_of(cat), "Outlines");
    let root = entries_of(lookup(&doc, outlines_id));

    // Counts are summed, not recomputed.
    match get(root, "Count") {
        Some(Object::Integer(9)) => {}
        other => panic!("merged count: {other:?}"),
    }

    // The three sources' top-level children form one unbroken sibling
    // chain under the merged root, in source order, children intact.
    let first = get_ref(root, "First");
    let last = get_ref(root, "Last");
    let mut cur = first;
    let mut tops = Vec::new();
    loop {
        let e = entries_of(lookup(&doc, cur));
        assert_eq!(get_ref(e, "Parent"), outlines_id);
        match get(e, "Title") {
            Some(Object::Text(t)) => assert_eq!(t, b"Node 1"),
            other => panic!("title: {other:?}"),
        }
        // Each keeps its own two children.
        let c_first = get_ref(e, "First");
        let c_last = get_ref(e, "Last");
        let c2 = entries_of(lookup(&doc, c_first));
        let c3 = entries_of(lookup(&doc, c_last));
        assert_eq!(get_ref(c2, "Next"), c_last);
        assert_eq!(get_ref(c3, "Prev"), c_first);
        assert_eq!(get_ref(c2, "Parent"), cur);
        assert_eq!(get_ref(c3, "Parent"), cur);
        tops.push(cur);
        match get(e, "Next") {
            Some(Object::Reference(n)) => {
                let back = entries_of(lookup(&doc, *n));
                assert_eq!(get_ref(back, "Prev"), cur);
                cur = *n;
            }
            None => break,
            other => panic!("next: {other:?}"),
        }
    }
    assert_eq!(tops.len(), 3);
    assert_eq!(*tops.last().unwrap(), last);
}

// Rewriting addresses to direct destinations: three sources each link to
// the next, the third to an address outside the set; two links become
// jumps, one is reported against its page.
#[test]
fn test_rewrite_urls() {
    let sources = vec![
        source_with_link("http://example.com/1.html", "http://example.com/2.html"),
        source_with_link("http://example.com/2.html", "http://example.com/3.html"),
        source_with_link("http://example.com/3.html", "http://example.com/4.html"),
    ];
    let (parts, mut doc) = import_and_build(sources);

    let (problem_urls, problem_anchors) =
        rewrite_links(&mut doc, b"http://example.com", &parts.ordinals).expect("rewrite");

    assert_eq!(
        problem_urls,
        vec![b"Page No. 3: http://example.com/4.html".to_vec()]
    );
    assert!(problem_anchors.is_empty());

    let page_ids = get_page_ids(&doc);
    assert_eq!(page_ids.len(), 3);
    for (page_num, pid) in page_ids.iter().enumerate() {
        // Only the first two pages are remapped.
        if page_num == page_ids.len() - 1 {
            break;
        }
        let page = entries_of(lookup(&doc, *pid));
        let annots = match get(page, "Annots") {
            Some(Object::Array(a)) => a,
            other => panic!("annots: {other:?}"),
        };
        assert_eq!(annots.len(), 1);
        let aid = match &annots[0] {
            Object::Reference(r) => *r,
            other => panic!("annot ref: {other:?}"),
        };
        let annot = entries_of(lookup(&doc, aid));
        // The external action is gone; a direct whole-page jump stands.
        assert!(get(annot, "A").is_none());
        let dest = match get(annot, "Dest") {
            Some(Object::Array(a)) => a,
            other => panic!("dest: {other:?}"),
        };
        let target = match &dest[0] {
            Object::Reference(r) => *r,
            other => panic!("dest target: {other:?}"),
        };
        assert_eq!(target, page_ids[page_num + 1]);
        match &dest[1] {
            Object::Name(n) => assert_eq!(n, b"Fit"),
            other => panic!("fit mode: {other:?}"),
        }
    }
}

// The third source's link names an anchor; it resolves through the named
// destinations of the catalog, and an unknown anchor is reported.
#[test]
fn anchors_resolve_and_miss() {
    let mut a = source_with_link("http://example.com/1.html", "http://example.com/2.html#go");
    // The first catalog carries the destination table for the whole set.
    let dests = dict(vec![("go", Object::Array(vec![refer(7), name("Fit")]))]);
    a.objects.push((id(9), dests));
    let cat_obj = a
        .objects
        .iter_mut()
        .find(|(i, _)| *i == id(8))
        .map(|(_, o)| o)
        .unwrap();
    if let Object::Dictionary(cat) = cat_obj {
        cat.push((b"Dests".to_vec(), refer(9)));
    }
    let b = source_with_link("http://example.com/2.html", "http://example.com/1.html#missing");
    let (parts, mut doc) = import_and_build(vec![a, b]);
    let (problem_urls, problem_anchors) =
        rewrite_links(&mut doc, b"http://example.com", &parts.ordinals).expect("rewrite");
    assert!(problem_urls.is_empty());
    assert_eq!(
        problem_anchors,
        vec![b"Page No. 2: http://example.com/1.html#missing".to_vec()]
    );

    // The resolved anchor's annotation got the named destination's value.
    let page_ids = get_page_ids(&doc);
    let page = entries_of(lookup(&doc, page_ids[0]));
    let annots = match get(page, "Annots") {
        Some(Object::Array(a)) => a,
        other => panic!("annots: {other:?}"),
    };
    let aid = match &annots[0] {
        Object::Reference(r) => *r,
        other => panic!("annot ref: {other:?}"),
    };
    let annot = entries_of(lookup(&doc, aid));
    // A hit reached through the action's address drops that action.
    assert!(get(annot, "A").is_none());
    match get(annot, "Dest") {
        Some(Object::Array(d)) => match &d[0] {
            Object::Reference(r) => assert_eq!(*r, id(7)),
            other => panic!("anchor target: {other:?}"),
        },
        other => panic!("anchor dest: {other:?}"),
    }
}

#[test]
fn named_dests_empty_when_absent() {
    let (_, doc) = import_and_build(vec![source_with_link(
        "http://example.com/1.html",
        "http://elsewhere.example/x.html",
    )]);
    let dests = get_named_dests(&doc).expect("catalog is present");
    assert!(dests.is_empty());
}

#[test]
fn merged_page_count_and_order() {
    let sources = vec![
        source_with_link("http://example.com/1.html", "http://example.com/2.html"),
        source_with_outline("http://example.com/2.html"),
        source_with_link("http://example.com/3.html", "http://example.com/1.html"),
    ];
    let (parts, doc) = import_and_build(sources);
    // One ordinal per source, each the number of pages before it.
    let ords: Vec<usize> = parts.ordinals.iter().map(|(_, n)| *n).collect();
    assert_eq!(ords, vec![0, 1, 2]);
    // The root's kid list holds every page, in order.
    let page_ids = get_page_ids(&doc);
    assert_eq!(page_ids.len(), 3);
    let cat = lookup(&doc, get_ref(&doc.trailer, "Root"));
    let pages_root = entries_of(lookup(&doc, get_ref(entries_of(cat), "Pages")));
    match get(pages_root, "Count") {
        Some(Object::Integer(3)) => {}
        other => panic!("count: {other:?}"),
    }
    for pid in &page_ids {
        let page = entries_of(lookup(&doc, *pid));
        assert_eq!(get_ref(page, "Parent"), get_ref(entries_of(cat), "Pages"));
    }
}

#[test]
fn no_pages_is_fatal() {
    let s = SourceDoc {
        url: b"http://example.com/1.html".to_vec(),
        objects: vec![(id(1), dict(vec![("Type", name("Catalog"))]))],
        pages: vec![],
    };
    let parts = import_documents(&vec![s]).expect("import");
    assert_eq!(build_document(&parts).err(), Some(MergeError::NoPages));
}

#[test]
fn no_catalog_is_fatal() {
    let s = SourceDoc {
        url: b"http://example.com/1.html".to_vec(),
        objects: vec![(
            id(1),
            dict(vec![
                ("Type", name("Pages")),
                ("Kids", Object::Array(vec![])),
                ("Count", Object::Integer(0)),
            ]),
        )],
        pages: vec![],
    };
    let parts = import_documents(&vec![s]).expect("import");
    assert_eq!(build_document(&parts).err(), Some(MergeError::NoCatalog));
}

#[test]
fn missing_page_object_is_fatal() {
    let s = SourceDoc {
        url: b"http://example.com/1.html".to_vec(),
        objects: vec![(id(1), dict(vec![("Type", name("Catalog"))]))],
        pages: vec![id(7)],
    };
    assert_eq!(
        import_documents(&vec![s]).err(),
        Some(MergeError::MissingPageObject)
    );
}

#[test]
fn outline_root_without_count_is_fatal() {
    let mut s = source_with_outline("http://example.com/1.html");
    for (oid, o) in &mut s.objects {
        if *oid == id(10) {
            if let Object::Dictionary(e) = o {
                e.retain(|(k, _)| k != b"Count");
            }
        }
    }
    let parts = import_documents(&vec![s]).expect("import");
    assert_eq!(build_document(&parts).err(), Some(MergeError::BadOutline));
}

#[test]
fn ordinal_out_of_range_is_reported() {
    let (_, mut doc) = import_and_build(vec![source_with_link(
        "http://example.com/1.html",
        "http://example.com/2.html",
    )]);
    let bad = vec![(b"http://example.com/1.html".to_vec(), 5usize)];
    assert_eq!(
        rewrite_links(&mut doc, b"http://example.com", &bad).err(),
        Some(MergeError::PageOrdinalOutOfRange)
    );
}
