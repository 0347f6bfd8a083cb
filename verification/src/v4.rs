//! The `[V4+ Styles]` record: 23 optional string fields in a fixed
//! canonical order.
//!
//! Serialization always emits exactly 23 comma-joined values in this order;
//! a record with an absent field cannot be encoded (the encoder returns an
//! error rather than omitting the value).

use vstd::prelude::*;
use crate::text::clone_opt;

verus! {

/// The single named formatting profile of a document, with its 23 fields in
/// canonical order.
#[derive(Debug, PartialEq)]
pub struct V4Format {
    pub name: Option<String>,
    pub fontname: Option<String>,
    pub fontsize: Option<String>,
    pub primarycolour: Option<String>,
    pub secondarycolour: Option<String>,
    pub outlinecolour: Option<String>,
    pub backcolour: Option<String>,
    pub bold: Option<String>,
    pub italic: Option<String>,
    pub underline: Option<String>,
    pub strikeout: Option<String>,
    pub scalex: Option<String>,
    pub scaley: Option<String>,
    pub spacing: Option<String>,
    pub angle: Option<String>,
    pub borderstyle: Option<String>,
    pub outline: Option<String>,
    pub shadow: Option<String>,
    pub alignment: Option<String>,
    pub marginl: Option<String>,
    pub marginr: Option<String>,
    pub marginv: Option<String>,
    pub encoding: Option<String>,
}

/// The mathematical value of a `V4Format`: each field as an optional
/// character sequence.
#[verifier::ext_equal]
pub struct V4FormatView {
    pub name: Option<Seq<char>>,
    pub fontname: Option<Seq<char>>,
    pub fontsize: Option<Seq<char>>,
    pub primarycolour: Option<Seq<char>>,
    pub secondarycolour: Option<Seq<char>>,
    pub outlinecolour: Option<Seq<char>>,
    pub backcolour: Option<Seq<char>>,
    pub bold: Option<Seq<char>>,
    pub italic: Option<Seq<char>>,
    pub underline: Option<Seq<char>>,
    pub strikeout: Option<Seq<char>>,
    pub scalex: Option<Seq<char>>,
    pub scaley: Option<Seq<char>>,
    pub spacing: Option<Seq<char>>,
    pub angle: Option<Seq<char>>,
    pub borderstyle: Option<Seq<char>>,
    pub outline: Option<Seq<char>>,
    pub shadow: Option<Seq<char>>,
    pub alignment: Option<Seq<char>>,
    pub marginl: Option<Seq<char>>,
    pub marginr: Option<Seq<char>>,
    pub marginv: Option<Seq<char>>,
    pub encoding: Option<Seq<char>>,
}

impl View for V4Format {
    type V = V4FormatView;

    open spec fn view(&self) -> V4FormatView {
        V4FormatView {
            name: self.name.deep_view(),
            fontname: self.fontname.deep_view(),
            fontsize: self.fontsize.deep_view(),
            primarycolour: self.primarycolour.deep_view(),
            secondarycolour: self.secondarycolour.deep_view(),
            outlinecolour: self.outlinecolour.deep_view(),
            backcolour: self.backcolour.deep_view(),
            bold: self.bold.deep_view(),
            italic: self.italic.deep_view(),
            underline: self.underline.deep_view(),
            strikeout: self.strikeout.deep_view(),
            scalex: self.scalex.deep_view(),
            scaley: self.scaley.deep_view(),
            spacing: self.spacing.deep_view(),
            angle: self.angle.deep_view(),
            borderstyle: self.borderstyle.deep_view(),
            outline: self.outline.deep_view(),
            shadow: self.shadow.deep_view(),
            alignment: self.alignment.deep_view(),
            marginl: self.marginl.deep_view(),
            marginr: self.marginr.deep_view(),
            marginv: self.marginv.deep_view(),
            encoding: self.encoding.deep_view(),
        }
    }
}

/// The 23 fields in canonical order.
pub open spec fn spec_style_fields(v: V4FormatView) -> Seq<Option<Seq<char>>> {
    seq![
        v.name,
        v.fontname,
        v.fontsize,
        v.primarycolour,
        v.secondarycolour,
        v.outlinecolour,
        v.backcolour,
        v.bold,
        v.italic,
        v.underline,
        v.strikeout,
        v.scalex,
        v.scaley,
        v.spacing,
        v.angle,
        v.borderstyle,
        v.outline,
        v.shadow,
        v.alignment,
        v.marginl,
        v.marginr,
        v.marginv,
        v.encoding,
    ]
}

/// Whether every one of the 23 fields is present, which encoding requires.
pub open spec fn v4_complete(v: V4FormatView) -> bool {
    forall|i: int| 0 <= i < 23 ==> spec_style_fields(v)[i] is Some
}

/// The record with every field absent.
pub open spec fn empty_v4_view() -> V4FormatView {
    V4FormatView {
        name: None,
        fontname: None,
        fontsize: None,
        primarycolour: None,
        secondarycolour: None,
        outlinecolour: None,
        backcolour: None,
        bold: None,
        italic: None,
        underline: None,
        strikeout: None,
        scalex: None,
        scaley: None,
        spacing: None,
        angle: None,
        borderstyle: None,
        outline: None,
        shadow: None,
        alignment: None,
        marginl: None,
        marginr: None,
        marginv: None,
        encoding: None,
    }
}

impl Clone for V4Format {
    fn clone(&self) -> (r: Self)
        ensures
            r@ == self@,
    {
        V4Format {
            name: clone_opt(&self.name),
            fontname: clone_opt(&self.fontname),
            fontsize: clone_opt(&self.fontsize),
            primarycolour: clone_opt(&self.primarycolour),
            secondarycolour: clone_opt(&self.secondarycolour),
            outlinecolour: clone_opt(&self.outlinecolour),
            backcolour: clone_opt(&self.backcolour),
            bold: clone_opt(&self.bold),
            italic: clone_opt(&self.italic),
            underline: clone_opt(&self.underline),
            strikeout: clone_opt(&self.strikeout),
            scalex: clone_opt(&self.scalex),
            scaley: clone_opt(&self.scaley),
            spacing: clone_opt(&self.spacing),
            angle: clone_opt(&self.angle),
            borderstyle: clone_opt(&self.borderstyle),
            outline: clone_opt(&self.outline),
            shadow: clone_opt(&self.shadow),
            alignment: clone_opt(&self.alignment),
            marginl: clone_opt(&self.marginl),
            marginr: clone_opt(&self.marginr),
            marginv: clone_opt(&self.marginv),
            encoding: clone_opt(&self.encoding),
        }
    }
}

impl V4Format {
    /// A record with every field absent.
    pub fn new() -> (r: Self)
        ensures
            r@ == empty_v4_view(),
    {
        V4Format {
            name: None,
            fontname: None,
            fontsize: None,
            primarycolour: None,
            secondarycolour: None,
            outlinecolour: None,
            backcolour: None,
            bold: None,
            italic: None,
            underline: None,
            strikeout: None,
            scalex: None,
            scaley: None,
            spacing: None,
            angle: None,
            borderstyle: None,
            outline: None,
            shadow: None,
            alignment: None,
            marginl: None,
            marginr: None,
            marginv: None,
            encoding: None,
        }
    }

    /// Replace the whole record: all 23 fields take the new record's values.
    pub fn set_v4(&mut self, v4: V4Format)
        ensures
            final(self)@ == v4@,
    {
        *self = v4;
    }

    /// The 23 fields in canonical order, each copied out.
    pub fn get_array(&self) -> (r: Vec<Option<String>>)
        ensures
            r.deep_view() == spec_style_fields(self@),
    {
        let mut arr: Vec<Option<String>> = Vec::new();
        arr.push(clone_opt(&self.name));
        arr.push(clone_opt(&self.fontname));
        arr.push(clone_opt(&self.fontsize));
        arr.push(clone_opt(&self.primarycolour));
        arr.push(clone_opt(&self.secondarycolour));
        arr.push(clone_opt(&self.outlinecolour));
        arr.push(clone_opt(&self.backcolour));
        arr.push(clone_opt(&self.bold));
        arr.push(clone_opt(&self.italic));
        arr.push(clone_opt(&self.underline));
        arr.push(clone_opt(&self.strikeout));
        arr.push(clone_opt(&self.scalex));
        arr.push(clone_opt(&self.scaley));
        arr.push(clone_opt(&self.spacing));
        arr.push(clone_opt(&self.angle));
        arr.push(clone_opt(&self.borderstyle));
        arr.push(clone_opt(&self.outline));
        arr.push(clone_opt(&self.shadow));
        arr.push(clone_opt(&self.alignment));
        arr.push(clone_opt(&self.marginl));
        arr.push(clone_opt(&self.marginr));
        arr.push(clone_opt(&self.marginv));
        arr.push(clone_opt(&self.encoding));
        proof {
            assert(arr.deep_view() =~~= spec_style_fields(self@));
        }
        arr
    }
}

impl V4Format {
    /// Set the style name; case sensitive, and it cannot include commas.
    pub fn set_name(&mut self, value: &str)
        ensures
            final(self)@ == (V4FormatView { name: Some(value@), ..old(self)@ }),
    {
        self.name = Some(String::from_str(value));
    }

    /// Set the font name as used by the platform; case sensitive.
    pub fn set_fontname(&mut self, value: &str)
        ensures
            final(self)@ == (V4FormatView { fontname: Some(value@), ..old(self)@ }),
    {
        self.fontname = Some(String::from_str(value));
    }

    /// Set the font size.
    pub fn set_fontsize(&mut self, value: &str)
        ensures
            final(self)@ == (V4FormatView { fontsize: Some(value@), ..old(self)@ }),
    {
        self.fontsize = Some(String::from_str(value));
    }

    /// Set the primary fill colour.
    pub fn set_primarycolour(&mut self, value: &str)
        ensures
            final(self)@ == (V4FormatView { primarycolour: Some(value@), ..old(self)@ }),
    {
        self.primarycolour = Some(String::from_str(value));
    }

    /// Set the secondary fill colour.
    pub fn set_secondarycolour(&mut self, value: &str)
        ensures
            final(self)@ == (V4FormatView { secondarycolour: Some(value@), ..old(self)@ }),
    {
        self.secondarycolour = Some(String::from_str(value));
    }

    /// Set the outline colour.
    pub fn set_outlinecolour(&mut self, value: &str)
        ensures
            final(self)@ == (V4FormatView { outlinecolour: Some(value@), ..old(self)@ }),
    {
        self.outlinecolour = Some(String::from_str(value));
    }

    /// Set the shadow colour.
    pub fn set_backcolour(&mut self, value: &str)
        ensures
            final(self)@ == (V4FormatView { backcolour: Some(value@), ..old(self)@ }),
    {
        self.backcolour = Some(String::from_str(value));
    }

    /// Set the bold flag: -1 for true, 0 for false.
    pub fn set_bold(&mut self, value: &str)
        ensures
            final(self)@ == (V4FormatView { bold: Some(value@), ..old(self)@ }),
    {
        self.bold = Some(String::from_str(value));
    }

    /// Set the italic flag: -1 for true, 0 for false.
    pub fn set_italic(&mut self, value: &str)
        ensures
            final(self)@ == (V4FormatView { italic: Some(value@), ..old(self)@ }),
    {
        self.italic = Some(String::from_str(value));
    }

    /// Set the underline flag: -1 for true, 0 for false.
    pub fn set_underline(&mut self, value: &str)
        ensures
            final(self)@ == (V4FormatView { underline: Some(value@), ..old(self)@ }),
    {
        self.underline = Some(String::from_str(value));
    }

    /// Set the strikeout flag: -1 for true, 0 for false.
    pub fn set_strikeout(&mut self, value: &str)
        ensures
            final(self)@ == (V4FormatView { strikeout: Some(value@), ..old(self)@ }),
    {
        self.strikeout = Some(String::from_str(value));
    }

    /// Set the horizontal font scale, in percent.
    pub fn set_scalex(&mut self, value: &str)
        ensures
            final(self)@ == (V4FormatView { scalex: Some(value@), ..old(self)@ }),
    {
        self.scalex = Some(String::from_str(value));
    }

    /// Set the vertical font scale, in percent.
    pub fn set_scaley(&mut self, value: &str)
        ensures
            final(self)@ == (V4FormatView { scaley: Some(value@), ..old(self)@ }),
    {
        self.scaley = Some(String::from_str(value));
    }

    /// Set the extra space between characters, in pixels.
    pub fn set_spacing(&mut self, value: &str)
        ensures
            final(self)@ == (V4FormatView { spacing: Some(value@), ..old(self)@ }),
    {
        self.spacing = Some(String::from_str(value));
    }

    /// Set the rotation angle, in degrees.
    pub fn set_angle(&mut self, value: &str)
        ensures
            final(self)@ == (V4FormatView { angle: Some(value@), ..old(self)@ }),
    {
        self.angle = Some(String::from_str(value));
    }

    /// Set the border style: 1 for outline with drop shadow, 3 for an opaque box.
    pub fn set_borderstyle(&mut self, value: &str)
        ensures
            final(self)@ == (V4FormatView { borderstyle: Some(value@), ..old(self)@ }),
    {
        self.borderstyle = Some(String::from_str(value));
    }

    /// Set the outline width, in pixels.
    pub fn set_outline(&mut self, value: &str)
        ensures
            final(self)@ == (V4FormatView { outline: Some(value@), ..old(self)@ }),
    {
        self.outline = Some(String::from_str(value));
    }

    /// Set the drop-shadow depth, in pixels.
    pub fn set_shadow(&mut self, value: &str)
        ensures
            final(self)@ == (V4FormatView { shadow: Some(value@), ..old(self)@ }),
    {
        self.shadow = Some(String::from_str(value));
    }

    /// Set the justification and vertical placement.
    pub fn set_alignment(&mut self, value: &str)
        ensures
            final(self)@ == (V4FormatView { alignment: Some(value@), ..old(self)@ }),
    {
        self.alignment = Some(String::from_str(value));
    }

    /// Set the left margin, in pixels.
    pub fn set_marginl(&mut self, value: &str)
        ensures
            final(self)@ == (V4FormatView { marginl: Some(value@), ..old(self)@ }),
    {
        self.marginl = Some(String::from_str(value));
    }

    /// Set the right margin, in pixels.
    pub fn set_marginr(&mut self, value: &str)
        ensures
            final(self)@ == (V4FormatView { marginr: Some(value@), ..old(self)@ }),
    {
        self.marginr = Some(String::from_str(value));
    }

    /// Set the vertical margin, in pixels.
    pub fn set_marginv(&mut self, value: &str)
        ensures
            final(self)@ == (V4FormatView { marginv: Some(value@), ..old(self)@ }),
    {
        self.marginv = Some(String::from_str(value));
    }

    /// Set the font character set or encoding.
    pub fn set_encoding(&mut self, value: &str)
        ensures
            final(self)@ == (V4FormatView { encoding: Some(value@), ..old(self)@ }),
    {
        self.encoding = Some(String::from_str(value));
    }

}

impl Default for V4Format {
    /// The common default style values.
    fn default() -> (r: Self)
        ensures
            r@.name == Some("Default"@),
            r@.fontname == Some("Arial"@),
            r@.fontsize == Some("16"@),
            r@.primarycolour == Some("&Hffffff"@),
            r@.secondarycolour == Some("&Hffffff"@),
            r@.outlinecolour == Some("&H0"@),
            r@.backcolour == Some("&H0"@),
            r@.bold == Some("0"@),
            r@.italic == Some("0"@),
            r@.underline == Some("0"@),
            r@.strikeout == Some("0"@),
            r@.scalex == Some("100"@),
            r@.scaley == Some("100"@),
            r@.spacing == Some("0"@),
            r@.angle == Some("0"@),
            r@.borderstyle == Some("1"@),
            r@.outline == Some("1"@),
            r@.shadow == Some("0"@),
            r@.alignment == Some("2"@),
            r@.marginl == Some("10"@),
            r@.marginr == Some("10"@),
            r@.marginv == Some("10"@),
            r@.encoding == Some("1"@),
    {
        V4Format {
            name: Some(String::from_str("Default")),
            fontname: Some(String::from_str("Arial")),
            fontsize: Some(String::from_str("16")),
            primarycolour: Some(String::from_str("&Hffffff")),
            secondarycolour: Some(String::from_str("&Hffffff")),
            outlinecolour: Some(String::from_str("&H0")),
            backcolour: Some(String::from_str("&H0")),
            bold: Some(String::from_str("0")),
            italic: Some(String::from_str("0")),
            underline: Some(String::from_str("0")),
            strikeout: Some(String::from_str("0")),
            scalex: Some(String::from_str("100")),
            scaley: Some(String::from_str("100")),
            spacing: Some(String::from_str("0")),
            angle: Some(String::from_str("0")),
            borderstyle: Some(String::from_str("1")),
            outline: Some(String::from_str("1")),
            shadow: Some(String::from_str("0")),
            alignment: Some(String::from_str("2")),
            marginl: Some(String::from_str("10")),
            marginr: Some(String::from_str("10")),
            marginv: Some(String::from_str("10")),
            encoding: Some(String::from_str("1")),
        }
    }
}

} // verus!
