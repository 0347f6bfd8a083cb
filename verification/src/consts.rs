//! The fixed text of the document format: section headers, key labels and
//! the two format-declaration lines.
//!
//! Each piece of fixed text exists twice: a spec function giving its
//! characters, and an executable function returning the same text as a
//! string slice, proved to match.  The short ones are written out character
//! by character so that proofs can read them directly; the two long
//! format-declaration lines stay as literals with the facts proofs need
//! stated in `lemma_format_line_facts`.

use vstd::prelude::*;
use crate::text::no_char;

verus! {

pub open spec fn script_header() -> Seq<char> {
    seq!['[', 'S', 'c', 'r', 'i', 'p', 't', ' ', 'I', 'n', 'f', 'o', ']']
}

pub open spec fn v4_header() -> Seq<char> {
    seq!['[', 'V', '4', '+', ' ', 'S', 't', 'y', 'l', 'e', 's', ']']
}

pub open spec fn events_header() -> Seq<char> {
    seq!['[', 'E', 'v', 'e', 'n', 't', 's', ']']
}

pub open spec fn script_type_label() -> Seq<char> {
    seq!['S', 'c', 'r', 'i', 'p', 't', 'T', 'y', 'p', 'e', ':', ' ']
}

pub open spec fn playresx_label() -> Seq<char> {
    seq!['P', 'l', 'a', 'y', 'R', 'e', 's', 'X', ':', ' ']
}

pub open spec fn playresy_label() -> Seq<char> {
    seq!['P', 'l', 'a', 'y', 'R', 'e', 's', 'Y', ':', ' ']
}

pub open spec fn scaledborder_label() -> Seq<char> {
    seq![
        'S', 'c', 'a', 'l', 'e', 'd', 'B', 'o', 'r', 'd', 'e', 'r', 'A', 'n', 'd', 'S', 'h',
        'a', 'd', 'o', 'w', ':', ' ',
    ]
}

pub open spec fn ycbcr_label() -> Seq<char> {
    seq!['Y', 'C', 'b', 'C', 'r', ' ', 'M', 'a', 't', 'r', 'i', 'x', ':', ' ']
}

pub open spec fn style_label() -> Seq<char> {
    seq!['S', 't', 'y', 'l', 'e', ':', ' ']
}

pub open spec fn dialogue_label() -> Seq<char> {
    seq!['D', 'i', 'a', 'l', 'o', 'g', 'u', 'e', ':', ' ']
}

/// The column-declaration line of the `[V4+ Styles]` section.
pub open spec fn v4_format_line() -> Seq<char> {
    ("Format: Name, Fontname, Fontsize, PrimaryColour, SecondaryColour, OutlineColour, BackColour, Bold, Italic, Underline, StrikeOut, ScaleX, ScaleY, Spacing, Angle, BorderStyle, Outline, Shadow, Alignment, MarginL, MarginR, MarginV, Encoding")@
}

/// The column-declaration line of the `[Events]` section.
pub open spec fn events_format_line() -> Seq<char> {
    ("Format: Layer, Start, End, Style, Name, MarginL, MarginR, MarginV, Effect, Text")@
}

/// What decode proofs need of the two format-declaration lines: they start
/// with `F`, hold no newline, and do not end in a carriage return.
pub proof fn lemma_format_line_facts()
    ensures
        v4_format_line().len() > 0,
        v4_format_line()[0] == 'F',
        no_char(v4_format_line(), '\n'),
        v4_format_line().last() != '\r',
        events_format_line().len() > 0,
        events_format_line()[0] == 'F',
        no_char(events_format_line(), '\n'),
        events_format_line().last() != '\r',
{
    reveal_strlit(
        "Format: Name, Fontname, Fontsize, PrimaryColour, SecondaryColour, OutlineColour, BackColour, Bold, Italic, Underline, StrikeOut, ScaleX, ScaleY, Spacing, Angle, BorderStyle, Outline, Shadow, Alignment, MarginL, MarginR, MarginV, Encoding",
    );
    reveal_strlit("Format: Layer, Start, End, Style, Name, MarginL, MarginR, MarginV, Effect, Text");
}

// ---------- executable counterparts ----------

pub fn script_header_str() -> (r: &'static str)
    ensures
        r@ == script_header(),
{
    let s = "[Script Info]";
    proof {
        reveal_strlit("[Script Info]");
        assert(s@ =~= script_header());
    }
    s
}

pub fn v4_header_str() -> (r: &'static str)
    ensures
        r@ == v4_header(),
{
    let s = "[V4+ Styles]";
    proof {
        reveal_strlit("[V4+ Styles]");
        assert(s@ =~= v4_header());
    }
    s
}

pub fn events_header_str() -> (r: &'static str)
    ensures
        r@ == events_header(),
{
    let s = "[Events]";
    proof {
        reveal_strlit("[Events]");
        assert(s@ =~= events_header());
    }
    s
}

pub fn script_type_label_str() -> (r: &'static str)
    ensures
        r@ == script_type_label(),
{
    let s = "ScriptType: ";
    proof {
        reveal_strlit("ScriptType: ");
        assert(s@ =~= script_type_label());
    }
    s
}

pub fn playresx_label_str() -> (r: &'static str)
    ensures
        r@ == playresx_label(),
{
    let s = "PlayResX: ";
    proof {
        reveal_strlit("PlayResX: ");
        assert(s@ =~= playresx_label());
    }
    s
}

pub fn playresy_label_str() -> (r: &'static str)
    ensures
        r@ == playresy_label(),
{
    let s = "PlayResY: ";
    proof {
        reveal_strlit("PlayResY: ");
        assert(s@ =~= playresy_label());
    }
    s
}

pub fn scaledborder_label_str() -> (r: &'static str)
    ensures
        r@ == scaledborder_label(),
{
    let s = "ScaledBorderAndShadow: ";
    proof {
        reveal_strlit("ScaledBorderAndShadow: ");
        assert(s@ =~= scaledborder_label());
    }
    s
}

pub fn ycbcr_label_str() -> (r: &'static str)
    ensures
        r@ == ycbcr_label(),
{
    let s = "YCbCr Matrix: ";
    proof {
        reveal_strlit("YCbCr Matrix: ");
        assert(s@ =~= ycbcr_label());
    }
    s
}

pub fn style_label_str() -> (r: &'static str)
    ensures
        r@ == style_label(),
{
    let s = "Style: ";
    proof {
        reveal_strlit("Style: ");
        assert(s@ =~= style_label());
    }
    s
}

pub fn dialogue_label_str() -> (r: &'static str)
    ensures
        r@ == dialogue_label(),
{
    let s = "Dialogue: ";
    proof {
        reveal_strlit("Dialogue: ");
        assert(s@ =~= dialogue_label());
    }
    s
}

pub fn v4_format_line_str() -> (r: &'static str)
    ensures
        r@ == v4_format_line(),
{
    "Format: Name, Fontname, Fontsize, PrimaryColour, SecondaryColour, OutlineColour, BackColour, Bold, Italic, Underline, StrikeOut, ScaleX, ScaleY, Spacing, Angle, BorderStyle, Outline, Shadow, Alignment, MarginL, MarginR, MarginV, Encoding"
}

pub fn events_format_line_str() -> (r: &'static str)
    ensures
        r@ == events_format_line(),
{
    "Format: Layer, Start, End, Style, Name, MarginL, MarginR, MarginV, Effect, Text"
}

/// A single newline, whose view is `seq!['\n']`.
pub fn newline_str() -> (r: &'static str)
    ensures
        r@ == seq!['\n'],
{
    let s = "\n";
    proof {
        reveal_strlit("\n");
        assert(s@ =~= seq!['\n']);
    }
    s
}

/// A single comma, whose view is `seq![',']`.
pub fn comma_str() -> (r: &'static str)
    ensures
        r@ == seq![','],
{
    let s = ",";
    proof {
        reveal_strlit(",");
        assert(s@ =~= seq![',']);
    }
    s
}

} // verus!
