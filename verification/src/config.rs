//! The page-numbering style: an RGB color, one of the standard built-in
//! font names, a font size, and an offset from the page's top-left corner.
//!
//! Fractional quantities are carried in thousandths — color channels in
//! thousandths of full intensity, offsets in thousandths of an inch — so
//! that the validity rules and the stamped output are exact.

use vstd::prelude::*;

use crate::MergeError;

verus! {

/// A color for the page-number overlay, each channel in thousandths of full
/// intensity: 0 is none, 1000 is full.
#[derive(PartialEq, Eq, Structural, Clone, Copy, Debug)]
pub struct Color {
    pub r: u16,
    pub g: u16,
    pub b: u16,
}

/// Whether every channel lies inside the unit range.
pub open spec fn color_valid(c: Color) -> bool {
    c.r <= 1000 && c.g <= 1000 && c.b <= 1000
}

impl Color {
    /// Checks the channels, exactly when every one lies inside the unit
    /// range.
    pub fn valid(&self) -> (r: Result<(), MergeError>)
        ensures
            r is Ok <==> color_valid(*self),
            r is Err ==> r == Err::<(), MergeError>(MergeError::InvalidColor),
    {
        if self.r > 1000 || self.g > 1000 || self.b > 1000 {
            Err(MergeError::InvalidColor)
        } else {
            Ok(())
        }
    }
}

/// The page-number style: color, font name, font size, and the offset of
/// the stamp from the page's top-left corner in thousandths of an inch.
pub struct PageNumber {
    pub color: Color,
    pub font: Vec<u8>,
    pub size: i16,
    pub x: i64,
    pub y: i64,
}

/// The standard built-in font names the overlay may use.
pub open spec fn std_font_names() -> Seq<Seq<u8>> {
    seq![
        crate::names::k_std_font_times_roman(),
        crate::names::k_std_font_times_bold(),
        crate::names::k_std_font_times_italic(),
        crate::names::k_std_font_times_bolditalic(),
        crate::names::k_std_font_helvetica(),
        crate::names::k_std_font_helvetica_bold(),
        crate::names::k_std_font_helvetica_oblique(),
        crate::names::k_std_font_helvetica_boldoblique(),
        crate::names::k_std_font_courier(),
        crate::names::k_std_font_courier_bold(),
        crate::names::k_std_font_courier_oblique(),
        crate::names::k_std_font_courier_boldoblique(),
        crate::names::k_std_font_symbol(),
        crate::names::k_std_font_zapf_dingbats(),
    ]
}

/// Whether a font name is one of the standard built-in names.
pub open spec fn font_name_valid(f: Seq<u8>) -> bool {
    exists|i: int| 0 <= i < std_font_names().len() && std_font_names()[i] == f
}

/// Whether a style is valid: a unit-range color and a standard font name.
pub open spec fn style_valid(s: PageNumber) -> bool {
    color_valid(s.color) && font_name_valid(s.font@)
}

impl PageNumber {
    /// Checks the style, exactly when the color is in range and the font is
    /// one of the standard built-in names.
    #[verifier::loop_isolation(false)]
    pub fn valid(&self) -> (r: Result<(), MergeError>)
        ensures
            r is Ok <==> style_valid(*self),
            r is Err ==> (r == Err::<(), MergeError>(MergeError::InvalidColor) || r == Err::<
                (),
                MergeError,
            >(MergeError::InvalidFont)),
    {
        match self.color.valid() {
            Ok(_) => {},
            Err(e) => {
                return Err(e);
            },
        }
        let fonts: Vec<Vec<u8>> = vec![
            crate::names::key_std_font_times_roman(),
            crate::names::key_std_font_times_bold(),
            crate::names::key_std_font_times_italic(),
            crate::names::key_std_font_times_bolditalic(),
            crate::names::key_std_font_helvetica(),
            crate::names::key_std_font_helvetica_bold(),
            crate::names::key_std_font_helvetica_oblique(),
            crate::names::key_std_font_helvetica_boldoblique(),
            crate::names::key_std_font_courier(),
            crate::names::key_std_font_courier_bold(),
            crate::names::key_std_font_courier_oblique(),
            crate::names::key_std_font_courier_boldoblique(),
            crate::names::key_std_font_symbol(),
            crate::names::key_std_font_zapf_dingbats(),
        ];
        proof {
            assert(fonts@.len() == std_font_names().len());
            assert(forall|i: int|
                0 <= i < fonts@.len() ==> fonts@[i]@ == #[trigger] std_font_names()[i]);
        }
        let mut i: usize = 0;
        while i < fonts.len()
            invariant
                i <= fonts@.len(),
                fonts@.len() == std_font_names().len(),
                forall|j: int|
                    0 <= j < fonts@.len() ==> fonts@[j]@ == #[trigger] std_font_names()[j],
                forall|j: int| 0 <= j < i ==> std_font_names()[j] != self.font@,
            decreases fonts@.len() - i,
        {
            if crate::object::bytes_eq(fonts[i].as_slice(), self.font.as_slice()) {
                assert(std_font_names()[i as int] == self.font@);
                return Ok(());
            }
            i += 1;
        }
        assert(!font_name_valid(self.font@));
        Err(MergeError::InvalidFont)
    }
}

} // verus!
