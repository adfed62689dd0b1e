//! The page-number overlay, the id compaction, the style checks, and the
//! whole pipeline in one call.

use vitepress_pdf_export::compact::compact_ids;
use vitepress_pdf_export::config::{Color, PageNumber};
use vitepress_pdf_export::default_cache_path;
use vitepress_pdf_export::document::Document;
use vitepress_pdf_export::import::{import_documents, SourceDoc};
use vitepress_pdf_export::links::get_page_ids;
use vitepress_pdf_export::numbering::add_page_numbers;
use vitepress_pdf_export::object::{Object, ObjectId};
use vitepress_pdf_export::pipeline::merge_documents;
use vitepress_pdf_export::structure::build_document;
use vitepress_pdf_export::MergeError;

fn id(num: u64) -> ObjectId {
    ObjectId { num, gen: 0 }
}

fn refer(num: u64) -> Object {
    Object::Reference(id(num))
}

fn name(s: &str) -> Object {
    Object::Name(s.as_bytes().to_vec())
}

fn text(s: &str) -> Object {
    Object::Text(s.as_bytes().to_vec())
}

fn dict(entries: Vec<(&str, Object)>) -> Object {
    Object::Dictionary(
        entries
            .into_iter()
            .map(|(k, v)| (k.as_bytes().to_vec(), v))
            .collect(),
    )
}

fn entries_of(o: &Object) -> &Vec<(Vec<u8>, Object)> {
    match o {
        Object::Dictionary(e) => e,
        _ => panic!("expected a dictionary"),
    }
}

fn get<'a>(e: &'a [(Vec<u8>, Object)], key: &str) -> Option<&'a Object> {
    e.iter().find(|(k, _)| k == key.as_bytes()).map(|(_, v)| v)
}

fn lookup<'a>(doc: &'a Document, oid: ObjectId) -> &'a Object {
    doc.objects
        .iter()
        .find(|(i, _)| *i == oid)
        .map(|(_, o)| o)
        .expect("missing object")
}

/// One single-page source whose page carries direct resources with one
/// bound font slot, a content stream, and a link to the given address.
fn stampable_source(url: &str, target: &str) -> SourceDoc {
    let objects = vec![
        (id(2), dict(vec![("Type", name("Font")), ("Subtype", name("Type1")), ("BaseFont", name("Courier"))])),
        (id(4), Object::Stream(Vec::new(), b"BT\n/F1 48 Tf\n(Hi) Tj\nET".to_vec())),
        (id(5), dict(vec![("Type", name("Action")), ("S", name("URI")), ("URI", text(target))])),
        (
            id(6),
            dict(vec![("Type", name("Annot")), ("Subtype", name("Link")), ("A", refer(5))]),
        ),
        (
            id(7),
            dict(vec![
                ("Type", name("Page")),
                ("Parent", refer(1)),
                ("Contents", refer(4)),
                ("Resources", dict(vec![("Font", dict(vec![("F1", refer(2))]))])),
                ("Annots", Object::Array(vec![refer(6)])),
            ]),
        ),
        (
            id(1),
            dict(vec![
                ("Type", name("Pages")),
                ("Kids", Object::Array(vec![refer(7)])),
                ("Count", Object::Integer(1)),
            ]),
        ),
        (id(8), dict(vec![("Type", name("Catalog")), ("Pages", refer(1))])),
    ];
    SourceDoc {
        url: url.as_bytes().to_vec(),
        objects,
        pages: vec![id(7)],
    }
}

fn helvetica_style() -> PageNumber {
    PageNumber {
        color: Color { r: 0, g: 0, b: 0 },
        font: b"Helvetica".to_vec(),
        size: 12,
        x: 1000,
        y: 1000,
    }
}

// A configured style stamps every page once: the shared font lands at the
// lowest free local slot, and exactly one text block citing the page's
// 1-based number is appended as a further content stream.
#[test]
fn page_number_stamp() {
    let sources = vec![
        stampable_source("http://example.com/1.html", "http://x.example/a"),
        stampable_source("http://example.com/2.html", "http://x.example/b"),
    ];
    let parts = import_documents(&sources).expect("import");
    let mut doc = build_document(&parts).expect("build");
    add_page_numbers(&mut doc, &helvetica_style()).expect("stamp");

    let page_ids = get_page_ids(&doc);
    assert_eq!(page_ids.len(), 2);
    // build leaves max at 16, so the shared font takes 17 and the two new
    // streams 18 and 19.
    let font = entries_of(lookup(&doc, id(17)));
    match get(font, "BaseFont") {
        Some(Object::Name(n)) => assert_eq!(n, b"Helvetica"),
        other => panic!("font: {other:?}"),
    }
    for (i, pid) in page_ids.iter().enumerate() {
        let page = entries_of(lookup(&doc, *pid));
        // The first slot is taken by the source's own font; the shared
        // font binds at the next one.
        let res = entries_of(get(page, "Resources").unwrap());
        let fonts = entries_of(get(res, "Font").unwrap());
        assert!(get(fonts, "F1").is_some());
        match get(fonts, "F2") {
            Some(Object::Reference(r)) => assert_eq!(*r, id(17)),
            other => panic!("slot: {other:?}"),
        }
        // Contents became a pair: the original stream, then the stamp.
        let contents = match get(page, "Contents") {
            Some(Object::Array(a)) => a,
            other => panic!("contents: {other:?}"),
        };
        assert_eq!(contents.len(), 2);
        let sid = match &contents[1] {
            Object::Reference(r) => *r,
            other => panic!("stamp ref: {other:?}"),
        };
        assert_eq!(sid, id(18 + i as u64));
        match lookup(&doc, sid) {
            Object::Stream(_, data) => {
                let want = format!(
                    "BT\n0.000 0.000 0.000 rg\n/F2 12 Tf\n1 0 0 -1 300.0 300.0 Tm\n(Page {}) Tj\nET",
                    i + 1
                );
                assert_eq!(data, want.as_bytes());
            }
            other => panic!("stamp: {other:?}"),
        }
    }
}

#[test]
fn indirect_resources_are_refused() {
    let mut s = stampable_source("http://example.com/1.html", "http://x.example/a");
    for (oid, o) in &mut s.objects {
        if *oid == id(7) {
            if let Object::Dictionary(e) = o {
                for (k, v) in e.iter_mut() {
                    if k == b"Resources" {
                        *v = refer(3);
                    }
                }
            }
        }
    }
    s.objects.push((id(3), dict(vec![("Font", dict(vec![]))])));
    let parts = import_documents(&vec![s]).expect("import");
    let mut doc = build_document(&parts).expect("build");
    assert_eq!(
        add_page_numbers(&mut doc, &helvetica_style()).err(),
        Some(MergeError::BadResources)
    );
}

// Re-running the id compaction on an already-compacted graph moves
// nothing: no id is skipped or duplicated.
#[test]
fn compaction_is_idempotent() {
    let sources = vec![
        stampable_source("http://example.com/1.html", "http://example.com/2.html"),
        stampable_source("http://example.com/2.html", "http://example.com/1.html"),
    ];
    let parts = import_documents(&sources).expect("import");
    let mut doc = build_document(&parts).expect("build");
    compact_ids(&mut doc);
    for (i, (oid, _)) in doc.objects.iter().enumerate() {
        assert_eq!(*oid, id(i as u64 + 1));
    }
    let once = format!("{:?}", (&doc.objects, &doc.trailer, doc.max_id));
    compact_ids(&mut doc);
    let twice = format!("{:?}", (&doc.objects, &doc.trailer, doc.max_id));
    assert_eq!(once, twice);
}

// The whole pipeline in one call: rewritten links, stamped pages, a dense
// id space, and the problem report in scan order.
#[test]
fn whole_pipeline() {
    let sources = vec![
        stampable_source("http://example.com/1.html", "http://example.com/2.html"),
        stampable_source("http://example.com/2.html", "http://example.com/9.html"),
    ];
    let style = Some(helvetica_style());
    let (doc, problem_urls, problem_anchors) =
        merge_documents(&sources, b"http://example.com", &style).expect("merge");
    assert_eq!(
        problem_urls,
        vec![b"Page No. 2: http://example.com/9.html".to_vec()]
    );
    assert!(problem_anchors.is_empty());
    // Dense ids from 1 up, none skipped.
    for (i, (oid, _)) in doc.objects.iter().enumerate() {
        assert_eq!(*oid, id(i as u64 + 1));
    }
    assert_eq!(doc.max_id as usize, doc.objects.len());
    // The first page's link became a direct jump at the second page.
    let page_ids = get_page_ids(&doc);
    assert_eq!(page_ids.len(), 2);
    let page = entries_of(lookup(&doc, page_ids[0]));
    let annots = match get(page, "Annots") {
        Some(Object::Array(a)) => a,
        other => panic!("annots: {other:?}"),
    };
    let aid = match &annots[0] {
        Object::Reference(r) => *r,
        other => panic!("annot: {other:?}"),
    };
    let annot = entries_of(lookup(&doc, aid));
    assert!(get(annot, "A").is_none());
    match get(annot, "Dest") {
        Some(Object::Array(d)) => match &d[0] {
            Object::Reference(r) => assert_eq!(*r, page_ids[1]),
            other => panic!("target: {other:?}"),
        },
        other => panic!("dest: {other:?}"),
    }
}

#[test]
fn style_checks() {
    assert!(helvetica_style().valid().is_ok());
    let mut bad_color = helvetica_style();
    bad_color.color = Color { r: 1001, g: 0, b: 0 };
    assert_eq!(bad_color.valid().err(), Some(MergeError::InvalidColor));
    let mut bad_font = helvetica_style();
    bad_font.font = b"Comic Sans".to_vec();
    assert_eq!(bad_font.valid().err(), Some(MergeError::InvalidFont));
    let mut dingbats = helvetica_style();
    dingbats.font = b"ZapfDingbats".to_vec();
    assert!(dingbats.valid().is_ok());
}

// The front end validates its inputs at startup; the part of that
// validation the library owns is the numbering style's well-formedness,
// which a canonical configuration passes.
#[test]
fn verify_cli() {
    let style = helvetica_style();
    assert!(style.valid().is_ok());
    assert!(style.color.valid().is_ok());
}

#[test]
fn cache_path_default() {
    assert_eq!(default_cache_path(), "/tmp");
}
