//! Theme colour tokens: the template's named colours, the single source of
//! every colour the shell and its pages use, and the reading of a `#RRGGBB`
//! token into its three channels.

use vstd::prelude::*;
use crate::text::{all_digits, chars_of, unsigned_body};

verus! {

/// The template's colour tokens, each a CSS colour string.
#[derive(Debug, Clone)]
pub struct Colors {
    pub background: String,
    pub brand: String,
    pub panel: String,
    pub panel_border: String,
    pub text: String,
    pub text_dim: String,
    pub accent: String,
    pub warn: String,
    /// Semantic result colours: the user accent never recolours them.
    pub error: String,
    pub success: String,
    /// The traffic-light lamp colours of the graded protection control.
    pub ampel_green: String,
    pub ampel_yellow: String,
    pub ampel_red: String,
}

/// `s` without its leading `#` characters.
pub open spec fn strip_hashes(s: Seq<char>) -> Seq<char>
    decreases s.len(),
{
    if s.len() > 0 && s[0] == '#' {
        strip_hashes(s.drop_first())
    } else {
        s
    }
}

/// The value of a hexadecimal digit (either case).
pub open spec fn hex_value(c: char) -> nat {
    if '0' <= c && c <= '9' {
        (c as int - 48) as nat
    } else if 'a' <= c && c <= 'f' {
        (c as int - 87) as nat
    } else {
        (c as int - 55) as nat
    }
}

/// A hexadecimal digit (either case).
pub open spec fn is_hex(c: char) -> bool {
    ('0' <= c && c <= '9') || ('a' <= c && c <= 'f') || ('A' <= c && c <= 'F')
}

/// The value of a string of hexadecimal digits.
pub open spec fn hex_digits_value(s: Seq<char>) -> nat
    decreases s.len(),
{
    if s.len() == 0 {
        0
    } else {
        hex_digits_value(s.drop_last()) * 16 + hex_value(s.last())
    }
}

/// What `u32::from_str_radix(s, 16)` accepts: an optional `+`, at least one
/// hex digit, and a value that fits in a `u32`.
pub open spec fn parse_hex_u32(s: Seq<char>) -> Option<nat> {
    let b = unsigned_body(s);
    if b.len() > 0 && (forall|i: int| 0 <= i < b.len() ==> is_hex(#[trigger] b[i])) && hex_digits_value(b)
        <= u32::MAX {
        Some(hex_digits_value(b))
    } else {
        None
    }
}

/// The packed colour a token holds: its hex value after the leading `#`s,
/// or 0 when that is not a `u32` in hex.
pub open spec fn packed_colour(s: Seq<char>) -> nat {
    match parse_hex_u32(strip_hashes(s)) {
        Some(v) => v,
        None => 0,
    }
}

proof fn lemma_hex_prefix_le(s: Seq<char>, i: int)
    requires
        0 <= i <= s.len(),
        forall|k: int| 0 <= k < s.len() ==> is_hex(#[trigger] s[k]),
    ensures
        hex_digits_value(s.take(i)) <= hex_digits_value(s),
    decreases s.len() - i,
{
    if i < s.len() {
        lemma_hex_prefix_le(s, i + 1);
        assert(s.take(i + 1).drop_last() =~= s.take(i));
        assert(s.take(i + 1).last() == s[i]);
    } else {
        assert(s.take(i) =~= s);
    }
}

fn hex_value_of(c: char) -> (v: u32)
    requires
        is_hex(c),
    ensures
        v == hex_value(c),
        v < 16,
{
    if '0' <= c && c <= '9' {
        (c as u32) - 48
    } else if 'a' <= c && c <= 'f' {
        (c as u32) - 87
    } else {
        (c as u32) - 55
    }
}

/// The red, green and blue channels of a colour token such as `#009FE3`:
/// the bytes of its packed value (black when the token is not hex).
pub fn hex_rgb(token: &str) -> (rgb: (u8, u8, u8))
    ensures
        rgb.0 as nat == (packed_colour(token@) / 65536) % 256,
        rgb.1 as nat == (packed_colour(token@) / 256) % 256,
        rgb.2 as nat == packed_colour(token@) % 256,
{
    let cs = chars_of(token);
    let mut start: usize = 0;
    assert(cs@.skip(0) =~= cs@);
    while start < cs.len() && cs[start] == '#'
        invariant
            start <= cs@.len(),
            strip_hashes(token@) == strip_hashes(cs@.skip(start as int)),
            cs@ == token@,
        decreases cs.len() - start,
    {
        assert(cs@.skip(start as int).drop_first() =~= cs@.skip(start + 1));
        start = start + 1;
    }
    let ghost rest = cs@.skip(start as int);
    assert(strip_hashes(rest) == rest);
    let mut body_start = start;
    if body_start < cs.len() && cs[body_start] == '+' {
        body_start = body_start + 1;
    }
    let ghost body = unsigned_body(rest);
    assert(body =~= cs@.skip(body_start as int));
    let mut v: u32 = 0;
    let mut ok = body_start < cs.len();
    let mut i = body_start;
    while ok && i < cs.len()
        invariant
            body_start <= i <= cs@.len(),
            body =~= cs@.skip(body_start as int),
            ok ==> forall|k: int| 0 <= k < i - body_start ==> is_hex(#[trigger] body[k]),
            ok ==> v as nat == hex_digits_value(body.take(i - body_start)),
            !ok ==> parse_hex_u32(rest) is None,
            body == unsigned_body(rest),
        decreases cs.len() - i,
    {
        let c = cs[i];
        let ghost j = i - body_start;
        assert(body[j] == c);
        if !(('0' <= c && c <= '9') || ('a' <= c && c <= 'f') || ('A' <= c && c <= 'F')) {
            ok = false;
        } else {
            let d = hex_value_of(c);
            assert(body.take(j + 1).drop_last() =~= body.take(j));
            assert(body.take(j + 1).last() == c);
            if v > (0xffff_ffffu32 - d) / 16 {
                proof {
                    assert(v * 16 + d > 0xffff_ffff) by (nonlinear_arith)
                        requires
                            v > (0xffff_ffffu32 - d) / 16,
                            d < 16,
                    ;
                    if forall|k: int| 0 <= k < body.len() ==> is_hex(#[trigger] body[k]) {
                        lemma_hex_prefix_le(body, j + 1);
                    }
                }
                ok = false;
            } else {
                proof {
                    assert(v * 16 + d <= 0xffff_ffff) by (nonlinear_arith)
                        requires
                            v <= (0xffff_ffffu32 - d) / 16,
                            d < 16,
                    ;
                }
                v = v * 16 + d;
            }
        }
        i = i + 1;
    }
    if ok {
        assert(body.take(body.len() as int) =~= body);
    } else {
        v = 0;
    }
    assert(v as nat == packed_colour(token@));
    assert((v >> 16) & 0xff < 256 && (v >> 8) & 0xff < 256 && v & 0xff < 256) by (bit_vector);
    let r = ((v >> 16) & 0xff) as u8;
    let g = ((v >> 8) & 0xff) as u8;
    let b = (v & 0xff) as u8;
    assert((v >> 16) & 0xff == (v / 65536) % 256) by (bit_vector);
    assert((v >> 8) & 0xff == (v / 256) % 256) by (bit_vector);
    assert(v & 0xff == v % 256) by (bit_vector);
    (r, g, b)
}

} // verus!
