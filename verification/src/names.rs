//! Byte constants for the dictionary keys, type names and text fragments
//! that the merge engine reads and writes.

use vstd::prelude::*;

verus! {

/// The bytes of `"Type"`.
pub open spec fn k_type() -> Seq<u8> {
    seq![84u8, 121u8, 112u8, 101u8]
}

/// The bytes of `"Type"`, as a fresh vector.
pub fn key_type() -> (k: Vec<u8>)
    ensures
        k@ == k_type(),
{
    let k: Vec<u8> = vec![84u8, 121u8, 112u8, 101u8];
    assert(k@ =~= k_type());
    k
}

/// The bytes of `"Pages"`.
pub open spec fn k_pages() -> Seq<u8> {
    seq![80u8, 97u8, 103u8, 101u8, 115u8]
}

/// The bytes of `"Pages"`, as a fresh vector.
pub fn key_pages() -> (k: Vec<u8>)
    ensures
        k@ == k_pages(),
{
    let k: Vec<u8> = vec![80u8, 97u8, 103u8, 101u8, 115u8];
    assert(k@ =~= k_pages());
    k
}

/// The bytes of `"Page"`.
pub open spec fn k_page() -> Seq<u8> {
    seq![80u8, 97u8, 103u8, 101u8]
}

/// The bytes of `"Page"`, as a fresh vector.
pub fn key_page() -> (k: Vec<u8>)
    ensures
        k@ == k_page(),
{
    let k: Vec<u8> = vec![80u8, 97u8, 103u8, 101u8];
    assert(k@ =~= k_page());
    k
}

/// The bytes of `"Catalog"`.
pub open spec fn k_catalog() -> Seq<u8> {
    seq![67u8, 97u8, 116u8, 97u8, 108u8, 111u8, 103u8]
}

/// The bytes of `"Catalog"`, as a fresh vector.
pub fn key_catalog() -> (k: Vec<u8>)
    ensures
        k@ == k_catalog(),
{
    let k: Vec<u8> = vec![67u8, 97u8, 116u8, 97u8, 108u8, 111u8, 103u8];
    assert(k@ =~= k_catalog());
    k
}

/// The bytes of `"Outlines"`.
pub open spec fn k_outlines() -> Seq<u8> {
    seq![79u8, 117u8, 116u8, 108u8, 105u8, 110u8, 101u8, 115u8]
}

/// The bytes of `"Outlines"`, as a fresh vector.
pub fn key_outlines() -> (k: Vec<u8>)
    ensures
        k@ == k_outlines(),
{
    let k: Vec<u8> = vec![79u8, 117u8, 116u8, 108u8, 105u8, 110u8, 101u8, 115u8];
    assert(k@ =~= k_outlines());
    k
}

/// The bytes of `"Dests"`.
pub open spec fn k_dests() -> Seq<u8> {
    seq![68u8, 101u8, 115u8, 116u8, 115u8]
}

/// The bytes of `"Dests"`, as a fresh vector.
pub fn key_dests() -> (k: Vec<u8>)
    ensures
        k@ == k_dests(),
{
    let k: Vec<u8> = vec![68u8, 101u8, 115u8, 116u8, 115u8];
    assert(k@ =~= k_dests());
    k
}

/// The bytes of `"Names"`.
pub open spec fn k_names() -> Seq<u8> {
    seq![78u8, 97u8, 109u8, 101u8, 115u8]
}

/// The bytes of `"Names"`, as a fresh vector.
pub fn key_names() -> (k: Vec<u8>)
    ensures
        k@ == k_names(),
{
    let k: Vec<u8> = vec![78u8, 97u8, 109u8, 101u8, 115u8];
    assert(k@ =~= k_names());
    k
}

/// The bytes of `"Kids"`.
pub open spec fn k_kids() -> Seq<u8> {
    seq![75u8, 105u8, 100u8, 115u8]
}

/// The bytes of `"Kids"`, as a fresh vector.
pub fn key_kids() -> (k: Vec<u8>)
    ensures
        k@ == k_kids(),
{
    let k: Vec<u8> = vec![75u8, 105u8, 100u8, 115u8];
    assert(k@ =~= k_kids());
    k
}

/// The bytes of `"Count"`.
pub open spec fn k_count() -> Seq<u8> {
    seq![67u8, 111u8, 117u8, 110u8, 116u8]
}

/// The bytes of `"Count"`, as a fresh vector.
pub fn key_count() -> (k: Vec<u8>)
    ensures
        k@ == k_count(),
{
    let k: Vec<u8> = vec![67u8, 111u8, 117u8, 110u8, 116u8];
    assert(k@ =~= k_count());
    k
}

/// The bytes of `"Parent"`.
pub open spec fn k_parent() -> Seq<u8> {
    seq![80u8, 97u8, 114u8, 101u8, 110u8, 116u8]
}

/// The bytes of `"Parent"`, as a fresh vector.
pub fn key_parent() -> (k: Vec<u8>)
    ensures
        k@ == k_parent(),
{
    let k: Vec<u8> = vec![80u8, 97u8, 114u8, 101u8, 110u8, 116u8];
    assert(k@ =~= k_parent());
    k
}

/// The bytes of `"First"`.
pub open spec fn k_first() -> Seq<u8> {
    seq![70u8, 105u8, 114u8, 115u8, 116u8]
}

/// The bytes of `"First"`, as a fresh vector.
pub fn key_first() -> (k: Vec<u8>)
    ensures
        k@ == k_first(),
{
    let k: Vec<u8> = vec![70u8, 105u8, 114u8, 115u8, 116u8];
    assert(k@ =~= k_first());
    k
}

/// The bytes of `"Last"`.
pub open spec fn k_last() -> Seq<u8> {
    seq![76u8, 97u8, 115u8, 116u8]
}

/// The bytes of `"Last"`, as a fresh vector.
pub fn key_last() -> (k: Vec<u8>)
    ensures
        k@ == k_last(),
{
    let k: Vec<u8> = vec![76u8, 97u8, 115u8, 116u8];
    assert(k@ =~= k_last());
    k
}

/// The bytes of `"Next"`.
pub open spec fn k_next() -> Seq<u8> {
    seq![78u8, 101u8, 120u8, 116u8]
}

/// The bytes of `"Next"`, as a fresh vector.
pub fn key_next() -> (k: Vec<u8>)
    ensures
        k@ == k_next(),
{
    let k: Vec<u8> = vec![78u8, 101u8, 120u8, 116u8];
    assert(k@ =~= k_next());
    k
}

/// The bytes of `"Prev"`.
pub open spec fn k_prev() -> Seq<u8> {
    seq![80u8, 114u8, 101u8, 118u8]
}

/// The bytes of `"Prev"`, as a fresh vector.
pub fn key_prev() -> (k: Vec<u8>)
    ensures
        k@ == k_prev(),
{
    let k: Vec<u8> = vec![80u8, 114u8, 101u8, 118u8];
    assert(k@ =~= k_prev());
    k
}

/// The bytes of `"Annots"`.
pub open spec fn k_annots() -> Seq<u8> {
    seq![65u8, 110u8, 110u8, 111u8, 116u8, 115u8]
}

/// The bytes of `"Annots"`, as a fresh vector.
pub fn key_annots() -> (k: Vec<u8>)
    ensures
        k@ == k_annots(),
{
    let k: Vec<u8> = vec![65u8, 110u8, 110u8, 111u8, 116u8, 115u8];
    assert(k@ =~= k_annots());
    k
}

/// The bytes of `"Subtype"`.
pub open spec fn k_subtype() -> Seq<u8> {
    seq![83u8, 117u8, 98u8, 116u8, 121u8, 112u8, 101u8]
}

/// The bytes of `"Subtype"`, as a fresh vector.
pub fn key_subtype() -> (k: Vec<u8>)
    ensures
        k@ == k_subtype(),
{
    let k: Vec<u8> = vec![83u8, 117u8, 98u8, 116u8, 121u8, 112u8, 101u8];
    assert(k@ =~= k_subtype());
    k
}

/// The bytes of `"Link"`.
pub open spec fn k_link() -> Seq<u8> {
    seq![76u8, 105u8, 110u8, 107u8]
}

/// The bytes of `"Link"`, as a fresh vector.
pub fn key_link() -> (k: Vec<u8>)
    ensures
        k@ == k_link(),
{
    let k: Vec<u8> = vec![76u8, 105u8, 110u8, 107u8];
    assert(k@ =~= k_link());
    k
}

/// The bytes of `"A"`.
pub open spec fn k_action() -> Seq<u8> {
    seq![65u8]
}

/// The bytes of `"A"`, as a fresh vector.
pub fn key_action() -> (k: Vec<u8>)
    ensures
        k@ == k_action(),
{
    let k: Vec<u8> = vec![65u8];
    assert(k@ =~= k_action());
    k
}

/// The bytes of `"URI"`.
pub open spec fn k_uri() -> Seq<u8> {
    seq![85u8, 82u8, 73u8]
}

/// The bytes of `"URI"`, as a fresh vector.
pub fn key_uri() -> (k: Vec<u8>)
    ensures
        k@ == k_uri(),
{
    let k: Vec<u8> = vec![85u8, 82u8, 73u8];
    assert(k@ =~= k_uri());
    k
}

/// The bytes of `"Dest"`.
pub open spec fn k_dest() -> Seq<u8> {
    seq![68u8, 101u8, 115u8, 116u8]
}

/// The bytes of `"Dest"`, as a fresh vector.
pub fn key_dest() -> (k: Vec<u8>)
    ensures
        k@ == k_dest(),
{
    let k: Vec<u8> = vec![68u8, 101u8, 115u8, 116u8];
    assert(k@ =~= k_dest());
    k
}

/// The bytes of `"Title"`.
pub open spec fn k_title() -> Seq<u8> {
    seq![84u8, 105u8, 116u8, 108u8, 101u8]
}

/// The bytes of `"Title"`, as a fresh vector.
pub fn key_title() -> (k: Vec<u8>)
    ensures
        k@ == k_title(),
{
    let k: Vec<u8> = vec![84u8, 105u8, 116u8, 108u8, 101u8];
    assert(k@ =~= k_title());
    k
}

/// The bytes of `"Root"`.
pub open spec fn k_root() -> Seq<u8> {
    seq![82u8, 111u8, 111u8, 116u8]
}

/// The bytes of `"Root"`, as a fresh vector.
pub fn key_root() -> (k: Vec<u8>)
    ensures
        k@ == k_root(),
{
    let k: Vec<u8> = vec![82u8, 111u8, 111u8, 116u8];
    assert(k@ =~= k_root());
    k
}

/// The bytes of `"Font"`.
pub open spec fn k_font() -> Seq<u8> {
    seq![70u8, 111u8, 110u8, 116u8]
}

/// The bytes of `"Font"`, as a fresh vector.
pub fn key_font() -> (k: Vec<u8>)
    ensures
        k@ == k_font(),
{
    let k: Vec<u8> = vec![70u8, 111u8, 110u8, 116u8];
    assert(k@ =~= k_font());
    k
}

/// The bytes of `"Resources"`.
pub open spec fn k_resources() -> Seq<u8> {
    seq![82u8, 101u8, 115u8, 111u8, 117u8, 114u8, 99u8, 101u8, 115u8]
}

/// The bytes of `"Resources"`, as a fresh vector.
pub fn key_resources() -> (k: Vec<u8>)
    ensures
        k@ == k_resources(),
{
    let k: Vec<u8> = vec![82u8, 101u8, 115u8, 111u8, 117u8, 114u8, 99u8, 101u8, 115u8];
    assert(k@ =~= k_resources());
    k
}

/// The bytes of `"Fit"`.
pub open spec fn k_fit() -> Seq<u8> {
    seq![70u8, 105u8, 116u8]
}

/// The bytes of `"Fit"`, as a fresh vector.
pub fn key_fit() -> (k: Vec<u8>)
    ensures
        k@ == k_fit(),
{
    let k: Vec<u8> = vec![70u8, 105u8, 116u8];
    assert(k@ =~= k_fit());
    k
}

/// The bytes of `"BaseFont"`.
pub open spec fn k_base_font() -> Seq<u8> {
    seq![66u8, 97u8, 115u8, 101u8, 70u8, 111u8, 110u8, 116u8]
}

/// The bytes of `"BaseFont"`, as a fresh vector.
pub fn key_base_font() -> (k: Vec<u8>)
    ensures
        k@ == k_base_font(),
{
    let k: Vec<u8> = vec![66u8, 97u8, 115u8, 101u8, 70u8, 111u8, 110u8, 116u8];
    assert(k@ =~= k_base_font());
    k
}

/// The bytes of `"Contents"`.
pub open spec fn k_contents() -> Seq<u8> {
    seq![67u8, 111u8, 110u8, 116u8, 101u8, 110u8, 116u8, 115u8]
}

/// The bytes of `"Contents"`, as a fresh vector.
pub fn key_contents() -> (k: Vec<u8>)
    ensures
        k@ == k_contents(),
{
    let k: Vec<u8> = vec![67u8, 111u8, 110u8, 116u8, 101u8, 110u8, 116u8, 115u8];
    assert(k@ =~= k_contents());
    k
}

/// The bytes of `"Type1"`.
pub open spec fn k_type1() -> Seq<u8> {
    seq![84u8, 121u8, 112u8, 101u8, 49u8]
}

/// The bytes of `"Type1"`, as a fresh vector.
pub fn key_type1() -> (k: Vec<u8>)
    ensures
        k@ == k_type1(),
{
    let k: Vec<u8> = vec![84u8, 121u8, 112u8, 101u8, 49u8];
    assert(k@ =~= k_type1());
    k
}

/// The bytes of `"index.html"`.
pub open spec fn k_index_html() -> Seq<u8> {
    seq![105u8, 110u8, 100u8, 101u8, 120u8, 46u8, 104u8, 116u8, 109u8, 108u8]
}

/// The bytes of `"index.html"`, as a fresh vector.
pub fn key_index_html() -> (k: Vec<u8>)
    ensures
        k@ == k_index_html(),
{
    let k: Vec<u8> = vec![105u8, 110u8, 100u8, 101u8, 120u8, 46u8, 104u8, 116u8, 109u8, 108u8];
    assert(k@ =~= k_index_html());
    k
}

/// The bytes of `"Page No. "`.
pub open spec fn k_page_no_prefix() -> Seq<u8> {
    seq![80u8, 97u8, 103u8, 101u8, 32u8, 78u8, 111u8, 46u8, 32u8]
}

/// The bytes of `"Page No. "`, as a fresh vector.
pub fn key_page_no_prefix() -> (k: Vec<u8>)
    ensures
        k@ == k_page_no_prefix(),
{
    let k: Vec<u8> = vec![80u8, 97u8, 103u8, 101u8, 32u8, 78u8, 111u8, 46u8, 32u8];
    assert(k@ =~= k_page_no_prefix());
    k
}

/// The bytes of `": "`.
pub open spec fn k_colon_space() -> Seq<u8> {
    seq![58u8, 32u8]
}

/// The bytes of `": "`, as a fresh vector.
pub fn key_colon_space() -> (k: Vec<u8>)
    ensures
        k@ == k_colon_space(),
{
    let k: Vec<u8> = vec![58u8, 32u8];
    assert(k@ =~= k_colon_space());
    k
}

/// The bytes of `"F"`.
pub open spec fn k_slot_prefix() -> Seq<u8> {
    seq![70u8]
}

/// The bytes of `"F"`, as a fresh vector.
pub fn key_slot_prefix() -> (k: Vec<u8>)
    ensures
        k@ == k_slot_prefix(),
{
    let k: Vec<u8> = vec![70u8];
    assert(k@ =~= k_slot_prefix());
    k
}

/// The bytes of `"Times-Roman"`.
pub open spec fn k_std_font_times_roman() -> Seq<u8> {
    seq![84u8, 105u8, 109u8, 101u8, 115u8, 45u8, 82u8, 111u8, 109u8, 97u8, 110u8]
}

/// The bytes of `"Times-Roman"`, as a fresh vector.
pub fn key_std_font_times_roman() -> (k: Vec<u8>)
    ensures
        k@ == k_std_font_times_roman(),
{
    let k: Vec<u8> = vec![84u8, 105u8, 109u8, 101u8, 115u8, 45u8, 82u8, 111u8, 109u8, 97u8, 110u8];
    assert(k@ =~= k_std_font_times_roman());
    k
}

/// The bytes of `"Times-Bold"`.
pub open spec fn k_std_font_times_bold() -> Seq<u8> {
    seq![84u8, 105u8, 109u8, 101u8, 115u8, 45u8, 66u8, 111u8, 108u8, 100u8]
}

/// The bytes of `"Times-Bold"`, as a fresh vector.
pub fn key_std_font_times_bold() -> (k: Vec<u8>)
    ensures
        k@ == k_std_font_times_bold(),
{
    let k: Vec<u8> = vec![84u8, 105u8, 109u8, 101u8, 115u8, 45u8, 66u8, 111u8, 108u8, 100u8];
    assert(k@ =~= k_std_font_times_bold());
    k
}

/// The bytes of `"Times-Italic"`.
pub open spec fn k_std_font_times_italic() -> Seq<u8> {
    seq![84u8, 105u8, 109u8, 101u8, 115u8, 45u8, 73u8, 116u8, 97u8, 108u8, 105u8, 99u8]
}

/// The bytes of `"Times-Italic"`, as a fresh vector.
pub fn key_std_font_times_italic() -> (k: Vec<u8>)
    ensures
        k@ == k_std_font_times_italic(),
{
    let k: Vec<u8> = vec![84u8, 105u8, 109u8, 101u8, 115u8, 45u8, 73u8, 116u8, 97u8, 108u8, 105u8, 99u8];
    assert(k@ =~= k_std_font_times_italic());
    k
}

/// The bytes of `"Times-BoldItalic"`.
pub open spec fn k_std_font_times_bolditalic() -> Seq<u8> {
    seq![84u8, 105u8, 109u8, 101u8, 115u8, 45u8, 66u8, 111u8, 108u8, 100u8, 73u8, 116u8, 97u8, 108u8, 105u8, 99u8]
}

/// The bytes of `"Times-BoldItalic"`, as a fresh vector.
pub fn key_std_font_times_bolditalic() -> (k: Vec<u8>)
    ensures
        k@ == k_std_font_times_bolditalic(),
{
    let k: Vec<u8> = vec![84u8, 105u8, 109u8, 101u8, 115u8, 45u8, 66u8, 111u8, 108u8, 100u8, 73u8, 116u8, 97u8, 108u8, 105u8, 99u8];
    assert(k@ =~= k_std_font_times_bolditalic());
    k
}

/// The bytes of `"Helvetica"`.
pub open spec fn k_std_font_helvetica() -> Seq<u8> {
    seq![72u8, 101u8, 108u8, 118u8, 101u8, 116u8, 105u8, 99u8, 97u8]
}

/// The bytes of `"Helvetica"`, as a fresh vector.
pub fn key_std_font_helvetica() -> (k: Vec<u8>)
    ensures
        k@ == k_std_font_helvetica(),
{
    let k: Vec<u8> = vec![72u8, 101u8, 108u8, 118u8, 101u8, 116u8, 105u8, 99u8, 97u8];
    assert(k@ =~= k_std_font_helvetica());
    k
}

/// The bytes of `"Helvetica-Bold"`.
pub open spec fn k_std_font_helvetica_bold() -> Seq<u8> {
    seq![72u8, 101u8, 108u8, 118u8, 101u8, 116u8, 105u8, 99u8, 97u8, 45u8, 66u8, 111u8, 108u8, 100u8]
}

/// The bytes of `"Helvetica-Bold"`, as a fresh vector.
pub fn key_std_font_helvetica_bold() -> (k: Vec<u8>)
    ensures
        k@ == k_std_font_helvetica_bold(),
{
    let k: Vec<u8> = vec![72u8, 101u8, 108u8, 118u8, 101u8, 116u8, 105u8, 99u8, 97u8, 45u8, 66u8, 111u8, 108u8, 100u8];
    assert(k@ =~= k_std_font_helvetica_bold());
    k
}

/// The bytes of `"Helvetica-Oblique"`.
pub open spec fn k_std_font_helvetica_oblique() -> Seq<u8> {
    seq![72u8, 101u8, 108u8, 118u8, 101u8, 116u8, 105u8, 99u8, 97u8, 45u8, 79u8, 98u8, 108u8, 105u8, 113u8, 117u8, 101u8]
}

/// The bytes of `"Helvetica-Oblique"`, as a fresh vector.
pub fn key_std_font_helvetica_oblique() -> (k: Vec<u8>)
    ensures
        k@ == k_std_font_helvetica_oblique(),
{
    let k: Vec<u8> = vec![72u8, 101u8, 108u8, 118u8, 101u8, 116u8, 105u8, 99u8, 97u8, 45u8, 79u8, 98u8, 108u8, 105u8, 113u8, 117u8, 101u8];
    assert(k@ =~= k_std_font_helvetica_oblique());
    k
}

/// The bytes of `"Helvetica-BoldOblique"`.
pub open spec fn k_std_font_helvetica_boldoblique() -> Seq<u8> {
    seq![72u8, 101u8, 108u8, 118u8, 101u8, 116u8, 105u8, 99u8, 97u8, 45u8, 66u8, 111u8, 108u8, 100u8, 79u8, 98u8, 108u8, 105u8, 113u8, 117u8, 101u8]
}

/// The bytes of `"Helvetica-BoldOblique"`, as a fresh vector.
pub fn key_std_font_helvetica_boldoblique() -> (k: Vec<u8>)
    ensures
        k@ == k_std_font_helvetica_boldoblique(),
{
    let k: Vec<u8> = vec![72u8, 101u8, 108u8, 118u8, 101u8, 116u8, 105u8, 99u8, 97u8, 45u8, 66u8, 111u8, 108u8, 100u8, 79u8, 98u8, 108u8, 105u8, 113u8, 117u8, 101u8];
    assert(k@ =~= k_std_font_helvetica_boldoblique());
    k
}

/// The bytes of `"Courier"`.
pub open spec fn k_std_font_courier() -> Seq<u8> {
    seq![67u8, 111u8, 117u8, 114u8, 105u8, 101u8, 114u8]
}

/// The bytes of `"Courier"`, as a fresh vector.
pub fn key_std_font_courier() -> (k: Vec<u8>)
    ensures
        k@ == k_std_font_courier(),
{
    let k: Vec<u8> = vec![67u8, 111u8, 117u8, 114u8, 105u8, 101u8, 114u8];
    assert(k@ =~= k_std_font_courier());
    k
}

/// The bytes of `"Courier-Bold"`.
pub open spec fn k_std_font_courier_bold() -> Seq<u8> {
    seq![67u8, 111u8, 117u8, 114u8, 105u8, 101u8, 114u8, 45u8, 66u8, 111u8, 108u8, 100u8]
}

/// The bytes of `"Courier-Bold"`, as a fresh vector.
pub fn key_std_font_courier_bold() -> (k: Vec<u8>)
    ensures
        k@ == k_std_font_courier_bold(),
{
    let k: Vec<u8> = vec![67u8, 111u8, 117u8, 114u8, 105u8, 101u8, 114u8, 45u8, 66u8, 111u8, 108u8, 100u8];
    assert(k@ =~= k_std_font_courier_bold());
    k
}

/// The bytes of `"Courier-Oblique"`.
pub open spec fn k_std_font_courier_oblique() -> Seq<u8> {
    seq![67u8, 111u8, 117u8, 114u8, 105u8, 101u8, 114u8, 45u8, 79u8, 98u8, 108u8, 105u8, 113u8, 117u8, 101u8]
}

/// The bytes of `"Courier-Oblique"`, as a fresh vector.
pub fn key_std_font_courier_oblique() -> (k: Vec<u8>)
    ensures
        k@ == k_std_font_courier_oblique(),
{
    let k: Vec<u8> = vec![67u8, 111u8, 117u8, 114u8, 105u8, 101u8, 114u8, 45u8, 79u8, 98u8, 108u8, 105u8, 113u8, 117u8, 101u8];
    assert(k@ =~= k_std_font_courier_oblique());
    k
}

/// The bytes of `"Courier-BoldOblique"`.
pub open spec fn k_std_font_courier_boldoblique() -> Seq<u8> {
    seq![67u8, 111u8, 117u8, 114u8, 105u8, 101u8, 114u8, 45u8, 66u8, 111u8, 108u8, 100u8, 79u8, 98u8, 108u8, 105u8, 113u8, 117u8, 101u8]
}

/// The bytes of `"Courier-BoldOblique"`, as a fresh vector.
pub fn key_std_font_courier_boldoblique() -> (k: Vec<u8>)
    ensures
        k@ == k_std_font_courier_boldoblique(),
{
    let k: Vec<u8> = vec![67u8, 111u8, 117u8, 114u8, 105u8, 101u8, 114u8, 45u8, 66u8, 111u8, 108u8, 100u8, 79u8, 98u8, 108u8, 105u8, 113u8, 117u8, 101u8];
    assert(k@ =~= k_std_font_courier_boldoblique());
    k
}

/// The bytes of `"Symbol"`.
pub open spec fn k_std_font_symbol() -> Seq<u8> {
    seq![83u8, 121u8, 109u8, 98u8, 111u8, 108u8]
}

/// The bytes of `"Symbol"`, as a fresh vector.
pub fn key_std_font_symbol() -> (k: Vec<u8>)
    ensures
        k@ == k_std_font_symbol(),
{
    let k: Vec<u8> = vec![83u8, 121u8, 109u8, 98u8, 111u8, 108u8];
    assert(k@ =~= k_std_font_symbol());
    k
}

/// The bytes of `"ZapfDingbats"`.
pub open spec fn k_std_font_zapf_dingbats() -> Seq<u8> {
    seq![90u8, 97u8, 112u8, 102u8, 68u8, 105u8, 110u8, 103u8, 98u8, 97u8, 116u8, 115u8]
}

/// The bytes of `"ZapfDingbats"`, as a fresh vector.
pub fn key_std_font_zapf_dingbats() -> (k: Vec<u8>)
    ensures
        k@ == k_std_font_zapf_dingbats(),
{
    let k: Vec<u8> = vec![90u8, 97u8, 112u8, 102u8, 68u8, 105u8, 110u8, 103u8, 98u8, 97u8, 116u8, 115u8];
    assert(k@ =~= k_std_font_zapf_dingbats());
    k
}

/// The bytes of `"BT\n"`.
pub open spec fn k_op_bt() -> Seq<u8> {
    seq![66u8, 84u8, 10u8]
}

/// The bytes of `"BT\n"`, as a fresh vector.
pub fn key_op_bt() -> (k: Vec<u8>)
    ensures
        k@ == k_op_bt(),
{
    let k: Vec<u8> = vec![66u8, 84u8, 10u8];
    assert(k@ =~= k_op_bt());
    k
}

/// The bytes of `" "`.
pub open spec fn k_sp() -> Seq<u8> {
    seq![32u8]
}

/// The bytes of `" "`, as a fresh vector.
pub fn key_sp() -> (k: Vec<u8>)
    ensures
        k@ == k_sp(),
{
    let k: Vec<u8> = vec![32u8];
    assert(k@ =~= k_sp());
    k
}

/// The bytes of `" rg\n"`.
pub open spec fn k_op_rg() -> Seq<u8> {
    seq![32u8, 114u8, 103u8, 10u8]
}

/// The bytes of `" rg\n"`, as a fresh vector.
pub fn key_op_rg() -> (k: Vec<u8>)
    ensures
        k@ == k_op_rg(),
{
    let k: Vec<u8> = vec![32u8, 114u8, 103u8, 10u8];
    assert(k@ =~= k_op_rg());
    k
}

/// The bytes of `"/F"`.
pub open spec fn k_op_slash_f() -> Seq<u8> {
    seq![47u8, 70u8]
}

/// The bytes of `"/F"`, as a fresh vector.
pub fn key_op_slash_f() -> (k: Vec<u8>)
    ensures
        k@ == k_op_slash_f(),
{
    let k: Vec<u8> = vec![47u8, 70u8];
    assert(k@ =~= k_op_slash_f());
    k
}

/// The bytes of `" Tf\n"`.
pub open spec fn k_op_tf() -> Seq<u8> {
    seq![32u8, 84u8, 102u8, 10u8]
}

/// The bytes of `" Tf\n"`, as a fresh vector.
pub fn key_op_tf() -> (k: Vec<u8>)
    ensures
        k@ == k_op_tf(),
{
    let k: Vec<u8> = vec![32u8, 84u8, 102u8, 10u8];
    assert(k@ =~= k_op_tf());
    k
}

/// The bytes of `"1 0 0 -1 "`.
pub open spec fn k_op_tm_prefix() -> Seq<u8> {
    seq![49u8, 32u8, 48u8, 32u8, 48u8, 32u8, 45u8, 49u8, 32u8]
}

/// The bytes of `"1 0 0 -1 "`, as a fresh vector.
pub fn key_op_tm_prefix() -> (k: Vec<u8>)
    ensures
        k@ == k_op_tm_prefix(),
{
    let k: Vec<u8> = vec![49u8, 32u8, 48u8, 32u8, 48u8, 32u8, 45u8, 49u8, 32u8];
    assert(k@ =~= k_op_tm_prefix());
    k
}

/// The bytes of `" Tm\n"`.
pub open spec fn k_op_tm_suffix() -> Seq<u8> {
    seq![32u8, 84u8, 109u8, 10u8]
}

/// The bytes of `" Tm\n"`, as a fresh vector.
pub fn key_op_tm_suffix() -> (k: Vec<u8>)
    ensures
        k@ == k_op_tm_suffix(),
{
    let k: Vec<u8> = vec![32u8, 84u8, 109u8, 10u8];
    assert(k@ =~= k_op_tm_suffix());
    k
}

/// The bytes of `"(Page "`.
pub open spec fn k_op_tj_prefix() -> Seq<u8> {
    seq![40u8, 80u8, 97u8, 103u8, 101u8, 32u8]
}

/// The bytes of `"(Page "`, as a fresh vector.
pub fn key_op_tj_prefix() -> (k: Vec<u8>)
    ensures
        k@ == k_op_tj_prefix(),
{
    let k: Vec<u8> = vec![40u8, 80u8, 97u8, 103u8, 101u8, 32u8];
    assert(k@ =~= k_op_tj_prefix());
    k
}

/// The bytes of `") Tj\n"`.
pub open spec fn k_op_tj_suffix() -> Seq<u8> {
    seq![41u8, 32u8, 84u8, 106u8, 10u8]
}

/// The bytes of `") Tj\n"`, as a fresh vector.
pub fn key_op_tj_suffix() -> (k: Vec<u8>)
    ensures
        k@ == k_op_tj_suffix(),
{
    let k: Vec<u8> = vec![41u8, 32u8, 84u8, 106u8, 10u8];
    assert(k@ =~= k_op_tj_suffix());
    k
}

/// The bytes of `"ET"`.
pub open spec fn k_op_et() -> Seq<u8> {
    seq![69u8, 84u8]
}

/// The bytes of `"ET"`, as a fresh vector.
pub fn key_op_et() -> (k: Vec<u8>)
    ensures
        k@ == k_op_et(),
{
    let k: Vec<u8> = vec![69u8, 84u8];
    assert(k@ =~= k_op_et());
    k
}

} // verus!
