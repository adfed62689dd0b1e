//! One input per fatal failure: every error the merge can report is
//! reachable, and comes from the stage that owns it.

use vitepress_pdf_export::import::{import_documents, SourceDoc};
use vitepress_pdf_export::links::rewrite_links;
use vitepress_pdf_export::numbering::add_page_numbers;
use vitepress_pdf_export::object::{Object, ObjectId};
use vitepress_pdf_export::structure::build_document;
use vitepress_pdf_export::config::{Color, PageNumber};
use vitepress_pdf_export::MergeError;

fn id(num: u64) -> ObjectId {
    ObjectId { num, gen: 0 }
}

fn refer(num: u64) -> Object {
    Object::Reference(id(num))
}

fn name(s: &str) -> Object {
    Object::Name(s.as_bytes().to_vec())
}

fn text(s: &str) -> Object {
    Object::Text(s.as_bytes().to_vec())
}

fn dict(entries: Vec<(&str, Object)>) -> Object {
    Object::Dictionary(
        entries
            .into_iter()
            .map(|(k, v)| (k.as_bytes().to_vec(), v))
            .collect(),
    )
}

/// A minimal one-page skeleton: page, page tree, catalog.
fn skeleton(url: &str, extra: Vec<(ObjectId, Object)>, page_extra: Vec<(&str, Object)>) -> SourceDoc {
    let mut page = vec![("Type", name("Page")), ("Parent", refer(1))];
    page.extend(page_extra);
    let mut objects = vec![
        (id(7), dict(page)),
        (
            id(1),
            dict(vec![
                ("Type", name("Pages")),
                ("Kids", Object::Array(vec![refer(7)])),
                ("Count", Object::Integer(1)),
            ]),
        ),
        (id(8), dict(vec![("Type", name("Catalog")), ("Pages", refer(1))])),
    ];
    objects.extend(extra);
    SourceDoc {
        url: url.as_bytes().to_vec(),
        objects,
        pages: vec![id(7)],
    }
}

#[test]
fn id_space_exhausted() {
    let near_top = SourceDoc {
        url: b"http://example.com/1.html".to_vec(),
        objects: vec![(id(1), Object::Null), (id(u64::MAX - 2), Object::Null)],
        pages: vec![],
    };
    let small = |u: &str| SourceDoc {
        url: u.as_bytes().to_vec(),
        objects: vec![(id(1), Object::Null)],
        pages: vec![],
    };
    let sources = vec![
        near_top,
        small("http://example.com/2.html"),
        small("http://example.com/3.html"),
    ];
    assert_eq!(
        import_documents(&sources).err(),
        Some(MergeError::IdSpaceExhausted)
    );
}

fn outline_with_count(url: &str, count: i64) -> SourceDoc {
    skeleton(
        url,
        vec![
            (
                id(10),
                dict(vec![
                    ("Type", name("Outlines")),
                    ("First", refer(11)),
                    ("Last", refer(11)),
                    ("Count", Object::Integer(count)),
                ]),
            ),
            (
                id(11),
                dict(vec![("Title", text("Only")), ("Parent", refer(10)), ("Count", Object::Integer(1))]),
            ),
        ],
        vec![],
    )
}

#[test]
fn count_overflow() {
    let sources = vec![
        outline_with_count("http://example.com/1.html", i64::MAX),
        outline_with_count("http://example.com/2.html", i64::MAX),
    ];
    let parts = import_documents(&sources).expect("import");
    assert_eq!(build_document(&parts).err(), Some(MergeError::CountOverflow));
}

#[test]
fn outline_cycle() {
    // The second source's top-level chain loops on itself, so the
    // re-parenting walk never reaches an end.
    let a = outline_with_count("http://example.com/1.html", 1);
    let b = skeleton(
        "http://example.com/2.html",
        vec![
            (
                id(10),
                dict(vec![
                    ("Type", name("Outlines")),
                    ("First", refer(11)),
                    ("Last", refer(11)),
                    ("Count", Object::Integer(1)),
                ]),
            ),
            (
                id(11),
                dict(vec![("Title", text("Loop")), ("Parent", refer(10)), ("Next", refer(11))]),
            ),
        ],
        vec![],
    );
    let parts = import_documents(&vec![a, b]).expect("import");
    assert_eq!(build_document(&parts).err(), Some(MergeError::OutlineCycle));
}

#[test]
fn action_without_target() {
    let s = skeleton(
        "http://example.com/1.html",
        vec![
            (id(5), dict(vec![("Type", name("Action")), ("S", name("GoBack"))])),
            (
                id(6),
                dict(vec![("Type", name("Annot")), ("Subtype", name("Link")), ("A", refer(5))]),
            ),
        ],
        vec![("Annots", Object::Array(vec![refer(6)]))],
    );
    let parts = import_documents(&vec![s]).expect("import");
    let mut doc = build_document(&parts).expect("build");
    assert_eq!(
        rewrite_links(&mut doc, b"http://example.com", &parts.ordinals).err(),
        Some(MergeError::MissingUri)
    );
}

#[test]
fn malformed_annotation_list() {
    let s = skeleton(
        "http://example.com/1.html",
        vec![],
        vec![("Annots", Object::Array(vec![Object::Integer(3)]))],
    );
    let parts = import_documents(&vec![s]).expect("import");
    let mut doc = build_document(&parts).expect("build");
    assert_eq!(
        rewrite_links(&mut doc, b"http://example.com", &parts.ordinals).err(),
        Some(MergeError::BadAnnotations)
    );
}

#[test]
fn unresolvable_destination_table() {
    let mut s = skeleton("http://example.com/1.html", vec![], vec![]);
    for (oid, o) in &mut s.objects {
        if *oid == id(8) {
            if let Object::Dictionary(e) = o {
                e.push((b"Dests".to_vec(), refer(99)));
            }
        }
    }
    let parts = import_documents(&vec![s]).expect("import");
    assert_eq!(
        build_document(&parts).err(),
        Some(MergeError::BadDestinations)
    );
}

#[test]
fn unusable_page_content() {
    let s = skeleton(
        "http://example.com/1.html",
        vec![],
        vec![("Contents", Object::Integer(4))],
    );
    let parts = import_documents(&vec![s]).expect("import");
    let mut doc = build_document(&parts).expect("build");
    let style = PageNumber {
        color: Color { r: 0, g: 0, b: 0 },
        font: b"Helvetica".to_vec(),
        size: 12,
        x: 1000,
        y: 1000,
    };
    assert_eq!(
        add_page_numbers(&mut doc, &style).err(),
        Some(MergeError::BadPage)
    );
}
