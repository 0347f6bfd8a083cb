//! The colour codec: RGB values rendered in the format's native BGR hex
//! order, bare (`&H...`) for style fields and wrapped (`{\c&H...&}`) as an
//! inline override tag for dialogue text.

use vstd::prelude::*;

verus! {

/// An RGB colour with eight-bit channels, as the colour codec consumes it.
#[derive(Debug, Clone, Copy, PartialEq, Eq, Structural)]
pub struct Rgb {
    pub r: u8,
    pub g: u8,
    pub b: u8,
}

pub open spec fn spec_hex_digit(d: nat) -> char {
    if d == 0 {
        '0'
    } else if d == 1 {
        '1'
    } else if d == 2 {
        '2'
    } else if d == 3 {
        '3'
    } else if d == 4 {
        '4'
    } else if d == 5 {
        '5'
    } else if d == 6 {
        '6'
    } else if d == 7 {
        '7'
    } else if d == 8 {
        '8'
    } else if d == 9 {
        '9'
    } else if d == 10 {
        'a'
    } else if d == 11 {
        'b'
    } else if d == 12 {
        'c'
    } else if d == 13 {
        'd'
    } else if d == 14 {
        'e'
    } else {
        'f'
    }
}

/// Lower-case hex digits of one byte, without zero padding: a value below 16
/// renders as a single digit.
pub open spec fn spec_hex_byte(n: nat) -> Seq<char> {
    if n < 16 {
        seq![spec_hex_digit(n)]
    } else {
        seq![spec_hex_digit(n / 16), spec_hex_digit(n % 16)]
    }
}

/// The bare style-field colour text: `&H` then blue, green, red in hex.
pub open spec fn spec_style_color(c: Rgb) -> Seq<char> {
    seq!['&', 'H'] + spec_hex_byte(c.b as nat) + spec_hex_byte(c.g as nat) + spec_hex_byte(
        c.r as nat,
    )
}

/// The inline override tag: `{\c&H` then blue, green, red in hex, then `&}`.
pub open spec fn spec_override_tag(c: Rgb) -> Seq<char> {
    seq!['{', '\\', 'c', '&', 'H'] + spec_hex_byte(c.b as nat) + spec_hex_byte(c.g as nat)
        + spec_hex_byte(c.r as nat) + seq!['&', '}']
}

fn hex_digit_str(d: u8) -> (r: &'static str)
    requires
        d < 16,
    ensures
        r@ == seq![spec_hex_digit(d as nat)],
{
    if d == 0 {
        let s = "0";
        proof {
            reveal_strlit("0");
            assert(s@ =~= seq![spec_hex_digit(d as nat)]);
        }
        s
    } else if d == 1 {
        let s = "1";
        proof {
            reveal_strlit("1");
            assert(s@ =~= seq![spec_hex_digit(d as nat)]);
        }
        s
    } else if d == 2 {
        let s = "2";
        proof {
            reveal_strlit("2");
            assert(s@ =~= seq![spec_hex_digit(d as nat)]);
        }
        s
    } else if d == 3 {
        let s = "3";
        proof {
            reveal_strlit("3");
            assert(s@ =~= seq![spec_hex_digit(d as nat)]);
        }
        s
    } else if d == 4 {
        let s = "4";
        proof {
            reveal_strlit("4");
            assert(s@ =~= seq![spec_hex_digit(d as nat)]);
        }
        s
    } else if d == 5 {
        let s = "5";
        proof {
            reveal_strlit("5");
            assert(s@ =~= seq![spec_hex_digit(d as nat)]);
        }
        s
    } else if d == 6 {
        let s = "6";
        proof {
            reveal_strlit("6");
            assert(s@ =~= seq![spec_hex_digit(d as nat)]);
        }
        s
    } else if d == 7 {
        let s = "7";
        proof {
            reveal_strlit("7");
            assert(s@ =~= seq![spec_hex_digit(d as nat)]);
        }
        s
    } else if d == 8 {
        let s = "8";
        proof {
            reveal_strlit("8");
            assert(s@ =~= seq![spec_hex_digit(d as nat)]);
        }
        s
    } else if d == 9 {
        let s = "9";
        proof {
            reveal_strlit("9");
            assert(s@ =~= seq![spec_hex_digit(d as nat)]);
        }
        s
    } else if d == 10 {
        let s = "a";
        proof {
            reveal_strlit("a");
            assert(s@ =~= seq![spec_hex_digit(d as nat)]);
        }
        s
    } else if d == 11 {
        let s = "b";
        proof {
            reveal_strlit("b");
            assert(s@ =~= seq![spec_hex_digit(d as nat)]);
        }
        s
    } else if d == 12 {
        let s = "c";
        proof {
            reveal_strlit("c");
            assert(s@ =~= seq![spec_hex_digit(d as nat)]);
        }
        s
    } else if d == 13 {
        let s = "d";
        proof {
            reveal_strlit("d");
            assert(s@ =~= seq![spec_hex_digit(d as nat)]);
        }
        s
    } else if d == 14 {
        let s = "e";
        proof {
            reveal_strlit("e");
            assert(s@ =~= seq![spec_hex_digit(d as nat)]);
        }
        s
    } else {
        let s = "f";
        proof {
            reveal_strlit("f");
            assert(s@ =~= seq![spec_hex_digit(d as nat)]);
        }
        s
    }
}

fn hex_byte(n: u8) -> (r: String)
    ensures
        r@ == spec_hex_byte(n as nat),
{
    if n < 16 {
        String::from_str(hex_digit_str(n))
    } else {
        let hi = n / 16;
        let lo = n % 16;
        let mut out = String::from_str(hex_digit_str(hi));
        out.append(hex_digit_str(lo));
        proof {
            assert(out@ =~= spec_hex_byte(n as nat));
        }
        out
    }
}

/// The colour formatting helpers of the library.
pub struct AssFileOptions {}

impl AssFileOptions {
    /// The `&H<bb><gg><rr>` form used in style colour fields: channels
    /// reordered blue-green-red, lower-case hex, no per-channel padding.
    pub fn get_ass_color(color: Rgb) -> (r: String)
        ensures
            r@ == spec_style_color(color),
    {
        let amp = "&H";
        proof {
            reveal_strlit("&H");
            assert(amp@ =~= seq!['&', 'H']);
        }
        let mut out = String::from_str(amp);
        let hb = hex_byte(color.b);
        out.append(hb.as_str());
        let hg = hex_byte(color.g);
        out.append(hg.as_str());
        let hr = hex_byte(color.r);
        out.append(hr.as_str());
        proof {
            assert(out@ =~= spec_style_color(color));
        }
        out
    }

    /// The `{\c&H<bb><gg><rr>&}` inline override tag consumed by subtitle
    /// renderers as a colour directive.
    pub fn get_ass_color_text(color: Rgb) -> (r: String)
        ensures
            r@ == spec_override_tag(color),
    {
        let open = "{\\c&H";
        proof {
            reveal_strlit("{\\c&H");
            assert(open@ =~= seq!['{', '\\', 'c', '&', 'H']);
        }
        let close = "&}";
        proof {
            reveal_strlit("&}");
            assert(close@ =~= seq!['&', '}']);
        }
        let mut out = String::from_str(open);
        let hb = hex_byte(color.b);
        out.append(hb.as_str());
        let hg = hex_byte(color.g);
        out.append(hg.as_str());
        let hr = hex_byte(color.r);
        out.append(hr.as_str());
        out.append(close);
        proof {
            assert(out@ =~= spec_override_tag(color));
        }
        out
    }
}

} // verus!
