//! The browser host's own decisions: what the address bar's input means
//! (a URL to open or a search on the chosen engine), how a search query is
//! encoded, which frames get the hardening script, the common screen size a
//! window reports, the input-modifier flags, and the per-window identity
//! seeds with their rotation.

use vstd::prelude::*;
use vstd::utf8::encode_utf8;
use vstd::string::StringSliceAdditionalSpecFns;
use crate::text::{
    parse_i64, parse_i64_chars, chars_of, contains_chars, contains_seq, has_char, has_prefix, is_ws, push_char, push_str,
    starts_with, string_of, trim, trimmed,
};

verus! {

broadcast use vstd::string::group_string_axioms;

// --- Search and navigation -------------------------------------------------------

/// The scheme hint the command bar shows for a URL.
pub open spec fn scheme_word(url: Seq<char>) -> Seq<char> {
    if starts_with(url, "https://"@) {
        "https"@
    } else if starts_with(url, "http://"@) {
        "http"@
    } else {
        "other"@
    }
}

/// The scheme of `url`, for the command bar's lock/warn hint.
pub fn scheme_of(url: &str) -> (s: &'static str)
    ensures
        s@ == scheme_word(url@),
{
    let u = chars_of(url);
    let https = chars_of("https://");
    let http = chars_of("http://");
    if has_prefix(u.as_slice(), https.as_slice()) {
        "https"
    } else if has_prefix(u.as_slice(), http.as_slice()) {
        "http"
    } else {
        "other"
    }
}

/// The bytes a form-encoded query keeps as they are.
pub open spec fn unreserved(b: u8) -> bool {
    (97 <= b <= 122) || (65 <= b <= 90) || (48 <= b <= 57) || b == 45 || b == 95 || b == 46
        || b == 126
}

/// The upper-case hex digit of `d < 16`.
pub open spec fn hex_upper(d: u8) -> char {
    if d < 10 {
        (48 + d) as char
    } else {
        (55 + d) as char
    }
}

/// The lower-case hex digit of `d < 16`.
pub open spec fn hex_lower(d: u8) -> char {
    if d < 10 {
        (48 + d) as char
    } else {
        (87 + d) as char
    }
}

/// One byte of a form-encoded query: unreserved bytes as they are, a space
/// as `+`, anything else as `%XX`.
pub open spec fn form_byte(b: u8) -> Seq<char> {
    if unreserved(b) {
        seq![b as char]
    } else if b == 32 {
        seq!['+']
    } else {
        seq!['%', hex_upper(b / 16), hex_upper(b % 16)]
    }
}

/// The form encoding (`application/x-www-form-urlencoded` style) of `bs`.
pub open spec fn form_encoded(bs: Seq<u8>) -> Seq<char>
    decreases bs.len(),
{
    if bs.len() == 0 {
        Seq::empty()
    } else {
        form_encoded(bs.drop_last()) + form_byte(bs.last())
    }
}

/// The value of a hex digit (either case); 0 for any other character.
pub open spec fn hex_value(c: char) -> int {
    if '0' <= c <= '9' {
        c as int - 48
    } else if 'A' <= c <= 'F' {
        c as int - 55
    } else if 'a' <= c <= 'f' {
        c as int - 87
    } else {
        0
    }
}

/// What a server reads back from form-encoded text: `+` is a space, `%`
/// and two hex digits is the byte they spell, any other character stands
/// for its own code.
pub open spec fn form_decode(t: Seq<char>) -> Seq<u8>
    decreases t.len(),
{
    if t.len() == 0 {
        Seq::empty()
    } else if t[0] == '+' {
        seq![32u8] + form_decode(t.drop_first())
    } else if t[0] == '%' && t.len() >= 3 {
        seq![(hex_value(t[1]) * 16 + hex_value(t[2])) as u8] + form_decode(t.subrange(3, t.len() as int))
    } else {
        seq![t[0] as u8] + form_decode(t.drop_first())
    }
}

proof fn lemma_form_encoded_front(bs: Seq<u8>)
    requires
        bs.len() > 0,
    ensures
        form_encoded(bs) == form_byte(bs[0]) + form_encoded(bs.drop_first()),
    decreases bs.len(),
{
    if bs.len() > 1 {
        lemma_form_encoded_front(bs.drop_last());
        assert(bs.drop_last().drop_first() =~= bs.drop_first().drop_last());
        assert(bs.drop_first().last() == bs.last());
        assert(bs.drop_last()[0] == bs[0]);
    } else {
        assert(bs.drop_last() =~= Seq::<u8>::empty());
        assert(bs.drop_first() =~= Seq::<u8>::empty());
    }
}

proof fn lemma_decode_byte(b: u8, rest: Seq<char>)
    ensures
        form_decode(form_byte(b) + rest) == seq![b] + form_decode(rest),
{
    let t = form_byte(b) + rest;
    if unreserved(b) {
        assert(t[0] == b as char);
        assert(t.drop_first() =~= rest);
        assert((b as char) as u8 == b);
    } else if b == 32 {
        assert(t.drop_first() =~= rest);
    } else {
        let hi = b / 16;
        let lo = b % 16;
        assert(hex_value(hex_upper(hi)) == hi as int);
        assert(hex_value(hex_upper(lo)) == lo as int);
        assert(t.subrange(3, t.len() as int) =~= rest);
        assert((hi as int * 16 + lo as int) as u8 == b);
    }
}

/// The form encoding loses nothing: reading an encoded query back gives
/// exactly its bytes (so no byte that means something else in a query, such
/// as `+`, `&`, `=` or `%`, is ever written out as itself).
pub proof fn law_form_encoding_reads_back(bs: Seq<u8>)
    ensures
        form_decode(form_encoded(bs)) == bs,
    decreases bs.len(),
{
    if bs.len() > 0 {
        lemma_form_encoded_front(bs);
        lemma_decode_byte(bs[0], form_encoded(bs.drop_first()));
        law_form_encoding_reads_back(bs.drop_first());
        assert(seq![bs[0]] + bs.drop_first() =~= bs);
    }
}

fn upper_digit(d: u8) -> (c: char)
    requires
        d < 16,
    ensures
        c == hex_upper(d),
{
    if d < 10 {
        (48 + d) as char
    } else {
        (55 + d) as char
    }
}

/// Percent-encode a search query, byte by byte of its UTF-8 encoding.
pub fn urlencode(s: &str) -> (r: String)
    ensures
        r@ == form_encoded(encode_utf8(s@)),
        form_decode(r@) == encode_utf8(s@),
{
    proof {
        law_form_encoding_reads_back(encode_utf8(s@));
    }
    let bytes = s.as_bytes();
    let mut out = String::new();
    let mut i: usize = 0;
    while i < bytes.len()
        invariant
            i <= bytes@.len(),
            bytes@ == s.spec_bytes(),
            s.spec_bytes() == encode_utf8(s@),
            out@ == form_encoded(bytes@.take(i as int)),
        decreases bytes.len() - i,
    {
        let b = bytes[i];
        assert(bytes@.take(i + 1).drop_last() =~= bytes@.take(i as int));
        if (97 <= b && b <= 122) || (65 <= b && b <= 90) || (48 <= b && b <= 57) || b == 45 || b
            == 95 || b == 46 || b == 126 {
            push_char(&mut out, b as char);
        } else if b == 32 {
            push_char(&mut out, '+');
        } else {
            push_char(&mut out, '%');
            push_char(&mut out, upper_digit(b / 16));
            push_char(&mut out, upper_digit(b % 16));
        }
        assert(out@ =~= form_encoded(bytes@.take(i + 1)));
        i = i + 1;
    }
    assert(bytes@.take(bytes@.len() as int) =~= bytes@);
    out
}

/// The search URL prefix of an engine; DuckDuckGo (the factory default) for
/// any name outside the allowlist, never silently Google.
pub open spec fn search_prefix(engine: Seq<char>) -> Seq<char> {
    if engine == "google"@ {
        "https://www.google.com/search?q="@
    } else if engine == "bing"@ {
        "https://www.bing.com/search?q="@
    } else if engine == "startpage"@ {
        "https://www.startpage.com/sp/search?query="@
    } else if engine == "brave"@ {
        "https://search.brave.com/search?q="@
    } else {
        "https://duckduckgo.com/?q="@
    }
}

fn engine_prefix(engine: &str) -> (p: &'static str)
    ensures
        p@ == search_prefix(engine@),
{
    if crate::text::str_eq(engine, "google") {
        "https://www.google.com/search?q="
    } else if crate::text::str_eq(engine, "bing") {
        "https://www.bing.com/search?q="
    } else if crate::text::str_eq(engine, "startpage") {
        "https://www.startpage.com/sp/search?query="
    } else if crate::text::str_eq(engine, "brave") {
        "https://search.brave.com/search?q="
    } else {
        "https://duckduckgo.com/?q="
    }
}

/// The search URL for `query` on `engine`.
pub fn search_url_for(engine: &str, query: &str) -> (r: String)
    ensures
        r@ == search_prefix(engine@) + form_encoded(encode_utf8(query@)),
{
    let mut r = String::from_str(engine_prefix(engine));
    let q = urlencode(query);
    push_str(&mut r, q.as_str());
    r
}

/// `s` holds a white-space character.
pub open spec fn has_ws(s: Seq<char>) -> bool {
    exists|i: int| 0 <= i < s.len() && is_ws(#[trigger] s[i])
}

fn any_ws(s: &[char]) -> (b: bool)
    ensures
        b == has_ws(s@),
{
    let mut i: usize = 0;
    while i < s.len()
        invariant
            i <= s.len(),
            forall|k: int| 0 <= k < i ==> !is_ws(#[trigger] s@[k]),
        decreases s.len() - i,
    {
        if crate::text::char_is_ws(s[i]) {
            assert(is_ws(s@[i as int]));
            return true;
        }
        i = i + 1;
    }
    false
}

/// Trimmed address-bar text that is taken as a URL without a scheme:
/// `localhost` forms, or text with a dot and no white space.
pub open spec fn looks_like_url(t: Seq<char>) -> bool {
    ||| t == "localhost"@
    ||| starts_with(t, "localhost:"@)
    ||| starts_with(t, "localhost/"@)
    ||| (t.contains('.') && !has_ws(t))
}

/// What the address bar's `input` opens on `engine`: nothing for blank
/// input, the text itself when it carries a scheme, `https://` plus the
/// text when it looks like a URL, else a search.
pub open spec fn classified(engine: Seq<char>, input: Seq<char>) -> Seq<char> {
    let t = trim(input);
    if t.len() == 0 {
        "about:blank"@
    } else if contains_seq(t, "://"@) {
        t
    } else if looks_like_url(t) {
        "https://"@ + t
    } else {
        search_prefix(engine) + form_encoded(encode_utf8(t))
    }
}

/// The URL-vs-search decision for the address bar's `input` on `engine`.
pub fn classify_input_for(engine: &str, input: &str) -> (r: String)
    ensures
        r@ == classified(engine@, input@),
{
    let cs = chars_of(input);
    let t = trimmed(cs.as_slice());
    if t.len() == 0 {
        return String::from_str("about:blank");
    }
    let text = string_of(t.as_slice());
    let sep = chars_of("://");
    if contains_chars(t.as_slice(), sep.as_slice()) {
        return text;
    }
    let lh = chars_of("localhost");
    let lhc = chars_of("localhost:");
    let lhs = chars_of("localhost/");
    let is_localhost = crate::text::seq_eq(t.as_slice(), lh.as_slice()) || has_prefix(
        t.as_slice(),
        lhc.as_slice(),
    ) || has_prefix(t.as_slice(), lhs.as_slice());
    let dotted = has_char(t.as_slice(), '.') && !any_ws(t.as_slice());
    if is_localhost || dotted {
        let mut r = String::from_str("https://");
        push_str(&mut r, text.as_str());
        r
    } else {
        search_url_for(engine, text.as_str())
    }
}

/// The schemes whose frames never get the hardening script: this app's
/// own pages and the browser-internal ones.
pub open spec fn internal_scheme(url: Seq<char>) -> bool {
    ||| starts_with(url, "cyberdesk://"@)
    ||| starts_with(url, "devtools://"@)
    ||| starts_with(url, "chrome://"@)
    ||| starts_with(url, "chrome-devtools://"@)
    ||| starts_with(url, "chrome-extension://"@)
}

/// Is a frame showing `url` a web frame that must be hardened?
pub fn should_harden(url: &str) -> (b: bool)
    ensures
        b == (url@.len() > 0 && !internal_scheme(url@)),
{
    if url.unicode_len() == 0 {
        return false;
    }
    let u = chars_of(url);
    let skip = [
        chars_of("cyberdesk://"),
        chars_of("devtools://"),
        chars_of("chrome://"),
        chars_of("chrome-devtools://"),
        chars_of("chrome-extension://"),
    ];
    let mut i: usize = 0;
    while i < 5
        invariant
            i <= 5,
            u@ == url@,
            skip@.len() == 5,
            skip@[0]@ == "cyberdesk://"@,
            skip@[1]@ == "devtools://"@,
            skip@[2]@ == "chrome://"@,
            skip@[3]@ == "chrome-devtools://"@,
            skip@[4]@ == "chrome-extension://"@,
            forall|k: int| 0 <= k < i ==> !starts_with(url@, #[trigger] skip@[k]@),
        decreases 5 - i,
    {
        if has_prefix(u.as_slice(), skip[i].as_slice()) {
            return false;
        }
        i = i + 1;
    }
    assert(!starts_with(url@, skip@[0]@));
    assert(!starts_with(url@, skip@[1]@));
    assert(!starts_with(url@, skip@[2]@));
    assert(!starts_with(url@, skip@[3]@));
    assert(!starts_with(url@, skip@[4]@));
    true
}

// --- Reported screen size ------------------------------------------------------------

/// The common desktop resolutions a window may report, smallest first.
pub open spec fn ladder() -> Seq<(u32, u32)> {
    seq![(1280u32, 720u32), (1600u32, 900u32), (1920u32, 1080u32), (2560u32, 1440u32), (3840u32, 2160u32)]
}

/// The larger of two sizes.
pub open spec fn max_u32(a: u32, b: u32) -> u32 {
    if a >= b {
        a
    } else {
        b
    }
}

/// A ladder rung that holds `(w, h)`.
pub open spec fn fits(rung: (u32, u32), w: u32, h: u32) -> bool {
    rung.0 >= w && rung.1 >= h
}

/// The smallest rung from index `i` on that holds `(w, h)`, or `(w, h)`
/// itself past the whole ladder.
pub open spec fn rung_from(i: int, w: u32, h: u32) -> (u32, u32)
    decreases 5 - i,
{
    if i >= 5 {
        (w, h)
    } else if fits(ladder()[i], w, h) {
        ladder()[i]
    } else {
        rung_from(i + 1, w, h)
    }
}

/// The screen size a window reports under `preset` with the given
/// `viewport`: at least both on each axis, snapped up to the smallest
/// common rung that holds them, or the real size past the whole ladder.
pub open spec fn common_screen(preset: (u32, u32), viewport: (u32, u32)) -> (u32, u32) {
    rung_from(0, max_u32(preset.0, viewport.0), max_u32(preset.1, viewport.1))
}

/// The common reported screen size for `viewport` under `preset`.
pub fn common_screen_for(preset: (u32, u32), viewport: (u32, u32)) -> (r: (u32, u32))
    ensures
        r == common_screen(preset, viewport),
{
    let need_w = if preset.0 >= viewport.0 {
        preset.0
    } else {
        viewport.0
    };
    let need_h = if preset.1 >= viewport.1 {
        preset.1
    } else {
        viewport.1
    };
    assert(need_w == max_u32(preset.0, viewport.0) && need_h == max_u32(preset.1, viewport.1));
    let rungs: [(u32, u32); 5] = [(1280, 720), (1600, 900), (1920, 1080), (2560, 1440), (3840, 2160)];
    assert(rungs@ =~= ladder());
    let mut i: usize = 0;
    while i < 5
        invariant
            i <= 5,
            rungs@ == ladder(),
            need_w == max_u32(preset.0, viewport.0),
            need_h == max_u32(preset.1, viewport.1),
            rung_from(0, need_w, need_h) == rung_from(i as int, need_w, need_h),
        decreases 5 - i,
    {
        let (w, h) = rungs[i];
        assert((w, h) == ladder()[i as int]);
        if w >= need_w && h >= need_h {
            assert(fits(ladder()[i as int], need_w, need_h));
            assert(rung_from(i as int, need_w, need_h) == ladder()[i as int]);
            return (w, h);
        }
        i = i + 1;
    }
    (need_w, need_h)
}

/// The reported size never contradicts what a page measures: it holds both
/// the viewport and the preset on each axis.
pub proof fn law_screen_holds_viewport(preset: (u32, u32), viewport: (u32, u32))
    ensures
        common_screen(preset, viewport).0 >= viewport.0,
        common_screen(preset, viewport).1 >= viewport.1,
        common_screen(preset, viewport).0 >= preset.0,
        common_screen(preset, viewport).1 >= preset.1,
{
    let w = max_u32(preset.0, viewport.0);
    let h = max_u32(preset.1, viewport.1);
    lemma_rung_holds(0, w, h);
}

proof fn lemma_rung_holds(i: int, w: u32, h: u32)
    requires
        0 <= i,
    ensures
        rung_from(i, w, h).0 >= w,
        rung_from(i, w, h).1 >= h,
    decreases 5 - i,
{
    if i < 5 && !fits(ladder()[i], w, h) {
        lemma_rung_holds(i + 1, w, h);
    }
}

// --- Input modifiers ---------------------------------------------------------------

/// The browser's event flag for a held Shift key.
pub const EVENTFLAG_SHIFT_DOWN: u32 = 2;
/// The browser's event flag for a held Control key.
pub const EVENTFLAG_CONTROL_DOWN: u32 = 4;
/// The browser's event flag for a held Alt key.
pub const EVENTFLAG_ALT_DOWN: u32 = 8;

/// The event flags for the held modifier keys.
pub fn modifier_flags(shift: bool, ctrl: bool, alt: bool) -> (m: u32)
    ensures
        m == (if shift { 2u32 } else { 0u32 }) + (if ctrl { 4u32 } else { 0u32 }) + (if alt { 8u32 } else { 0u32 }),
{
    let mut m: u32 = 0;
    if shift {
        m = m | EVENTFLAG_SHIFT_DOWN;
        assert(0u32 | 2u32 == 2u32) by (bit_vector);
    }
    let m1 = m;
    if ctrl {
        m = m | EVENTFLAG_CONTROL_DOWN;
        assert(m1 == 0 || m1 == 2);
        assert(0u32 | 4u32 == 4u32) by (bit_vector);
        assert(2u32 | 4u32 == 6u32) by (bit_vector);
    }
    let m2 = m;
    if alt {
        m = m | EVENTFLAG_ALT_DOWN;
        assert(m2 == 0 || m2 == 2 || m2 == 4 || m2 == 6);
        assert(0u32 | 8u32 == 8u32) by (bit_vector);
        assert(2u32 | 8u32 == 10u32) by (bit_vector);
        assert(4u32 | 8u32 == 12u32) by (bit_vector);
        assert(6u32 | 8u32 == 14u32) by (bit_vector);
    }
    m
}

// --- Identity seeds ------------------------------------------------------------------

/// The lower-case hex encoding of `bs`, two digits per byte.
pub open spec fn hex(bs: Seq<u8>) -> Seq<char>
    decreases bs.len(),
{
    if bs.len() == 0 {
        Seq::empty()
    } else {
        hex(bs.drop_last()) + seq![hex_lower(bs.last() / 16), hex_lower(bs.last() % 16)]
    }
}

/// A lower-case hex digit.
pub open spec fn is_lower_hex(c: char) -> bool {
    ('0' <= c && c <= '9') || ('a' <= c && c <= 'f')
}

proof fn lemma_hex_shape(bs: Seq<u8>)
    ensures
        hex(bs).len() == 2 * bs.len(),
        forall|k: int| 0 <= k < hex(bs).len() ==> is_lower_hex(#[trigger] hex(bs)[k]),
    decreases bs.len(),
{
    if bs.len() > 0 {
        lemma_hex_shape(bs.drop_last());
        let h = hex(bs.drop_last());
        let t = seq![hex_lower(bs.last() / 16), hex_lower(bs.last() % 16)];
        assert forall|k: int| 0 <= k < hex(bs).len() implies is_lower_hex(#[trigger] hex(bs)[k]) by {
            if k < h.len() {
                assert(hex(bs)[k] == h[k]);
            } else {
                assert(hex(bs)[k] == t[k - h.len()]);
            }
        }
    }
}

fn lower_digit(d: u8) -> (c: char)
    requires
        d < 16,
    ensures
        c == hex_lower(d),
{
    if d < 10 {
        (48 + d) as char
    } else {
        (87 + d) as char
    }
}

/// The lower-case hex of `buf`.
pub fn hex_of(buf: &[u8]) -> (s: String)
    ensures
        s@ == hex(buf@),
{
    let mut s = String::new();
    let mut i: usize = 0;
    while i < buf.len()
        invariant
            i <= buf@.len(),
            s@ == hex(buf@.take(i as int)),
        decreases buf.len() - i,
    {
        let b = buf[i];
        assert(buf@.take(i + 1).drop_last() =~= buf@.take(i as int));
        push_char(&mut s, lower_digit(b / 16));
        push_char(&mut s, lower_digit(b % 16));
        assert(s@ =~= hex(buf@.take(i + 1)));
        i = i + 1;
    }
    assert(buf@.take(buf@.len() as int) =~= buf@);
    s
}

/// `getrandom::fill` on a 16-byte buffer: whether the system's random
/// source filled it. The bytes are chance, so nothing is stated of them.
#[verifier::external_body]
fn fill_random(buf: &mut [u8; 16]) -> bool {
    getrandom::fill(buf).is_ok()
}

/// Byte `i` of the stand-in seed made from a process id and the clock's
/// nanoseconds when the random source fails: their little-endian bytes,
/// cycled, mixed with a position-dependent constant.
pub open spec fn fallback_byte(pid: u32, nanos: u32, i: int) -> u8 {
    let k = (i % 4) as u32;
    ((pid >> (8 * k)) as u8) ^ ((nanos >> (8 * k)) as u8) ^ (((i * 31 + 158) % 256) as u8)
}

/// The stand-in seed bytes for `pid` and `nanos`.
pub fn fallback_seed(pid: u32, nanos: u32) -> (b: [u8; 16])
    ensures
        forall|i: int| 0 <= i < 16 ==> #[trigger] b@[i] == fallback_byte(pid, nanos, i),
{
    let mut b = [0u8; 16];
    let mut i: usize = 0;
    while i < 16
        invariant
            i <= 16,
            b@.len() == 16,
            forall|j: int| 0 <= j < i ==> #[trigger] b@[j] == fallback_byte(pid, nanos, j),
        decreases 16 - i,
    {
        let k: u32 = (i % 4) as u32;
        let mix: u8 = ((i * 31 + 158) % 256) as u8;
        b[i] = ((pid >> (8 * k)) as u8) ^ ((nanos >> (8 * k)) as u8) ^ mix;
        i = i + 1;
    }
    b
}

/// A seed text: 16 bytes as 32 lower-case hex digits.
pub open spec fn seed_text(s: Seq<char>) -> bool {
    exists|b: Seq<u8>| b.len() == 16 && s == #[trigger] hex(b)
}

/// A fresh 16-byte random seed, hex-encoded: the basis of an unlinkable
/// fingerprint. Should the random source fail, the bytes come from `pid`
/// and `nanos` (the process id and the clock) so the seed never collapses
/// to all zeros. The random bytes are chance; the text is always a seed.
pub fn fresh_seed_hex(pid: u32, nanos: u32) -> (s: String)
    ensures
        seed_text(s@),
        s@.len() == 32,
        forall|k: int| 0 <= k < s@.len() ==> is_lower_hex(#[trigger] s@[k]),
{
    let mut buf = [0u8; 16];
    if !fill_random(&mut buf) {
        buf = fallback_seed(pid, nanos);
    }
    let s = hex_of(&buf);
    proof {
        lemma_hex_shape(buf@);
    }
    s
}

/// The seed a launch starts with: a fresh one when identities rotate on
/// restart; else the persisted seed when there is a non-empty one; else a
/// fresh one (which is then persisted).
pub open spec fn boot_seed(rotate_on_restart: bool, stored: Option<Seq<char>>, fresh: Seq<char>) -> Seq<char> {
    if rotate_on_restart {
        fresh
    } else {
        match stored {
            Some(s) => if s.len() > 0 {
                s
            } else {
                fresh
            },
            None => fresh,
        }
    }
}

/// The browser process's identities: the global seed, the per-window
/// overrides (`None`: follow the global), the global seed's mint time
/// (unix ms) and the count of global rotations.
pub struct Identity {
    global: String,
    slots: Vec<Option<String>>,
    born_ms: u64,
    epoch: u64,
}

impl Identity {
    /// The global seed.
    pub closed spec fn global(&self) -> Seq<char> {
        self.global@
    }

    /// Window `i`'s own seed, if it has one.
    pub closed spec fn own(&self, i: int) -> Option<Seq<char>> {
        if 0 <= i < self.slots@.len() {
            match self.slots@[i] {
                Some(s) => Some(s@),
                None => None,
            }
        } else {
            None
        }
    }

    /// The global seed's mint time (unix ms).
    pub closed spec fn born(&self) -> u64 {
        self.born_ms
    }

    /// The number of global rotations (wrapping).
    pub closed spec fn epoch(&self) -> u64 {
        self.epoch
    }

    /// One override slot per window.
    pub closed spec fn wf(&self) -> bool {
        self.slots@.len() == crate::slots::MAX_SLOTS
    }

    /// The seed window `i` runs under: its own, else the global.
    pub open spec fn effective(&self, i: int) -> Seq<char> {
        match self.own(i) {
            Some(s) => s,
            None => self.global(),
        }
    }
}

fn no_overrides() -> (v: Vec<Option<String>>)
    ensures
        v@.len() == crate::slots::MAX_SLOTS,
        forall|i: int| 0 <= i < v@.len() ==> v@[i] is None,
{
    let mut v: Vec<Option<String>> = Vec::new();
    let mut i: usize = 0;
    while i < crate::slots::MAX_SLOTS
        invariant
            i <= crate::slots::MAX_SLOTS,
            v@.len() == i,
            forall|j: int| 0 <= j < v@.len() ==> v@[j] is None,
        decreases crate::slots::MAX_SLOTS - i,
    {
        v.push(None);
        i = i + 1;
    }
    v
}

/// The prefix of the command-line argument that hands a render process its
/// seed.
pub open spec fn seed_switch_prefix() -> Seq<char> {
    "--cyberdesk-fp-seed="@
}

/// The position of the first of `args` that carries the seed switch.
pub open spec fn first_seed_arg(args: Seq<Seq<char>>) -> Option<int>
    decreases args.len(),
{
    if args.len() == 0 {
        None
    } else {
        match first_seed_arg(args.drop_last()) {
            Some(i) => Some(i),
            None => if starts_with(args.last(), seed_switch_prefix()) {
                Some(args.len() - 1)
            } else {
                None
            },
        }
    }
}

/// The seed a render process was handed: the value of the first seed switch
/// among `args`, unless that value is empty.
pub open spec fn switch_seed(args: Seq<Seq<char>>) -> Option<Seq<char>> {
    match first_seed_arg(args) {
        Some(i) => {
            let v = args[i].skip(seed_switch_prefix().len() as int);
            if v.len() > 0 { Some(v) } else { None }
        },
        None => None,
    }
}

/// The views of `args`.
pub open spec fn arg_views(args: Seq<String>) -> Seq<Seq<char>> {
    args.map_values(|a: String| a@)
}

/// The seed handed to this render process on its command line `args`, if
/// any (the process otherwise mints a fresh one).
pub fn render_seed_arg(args: &Vec<String>) -> (r: Option<String>)
    ensures
        match switch_seed(arg_views(args@)) {
            Some(v) => r matches Some(t) && t@ == v,
            None => r is None,
        },
{
    let prefix = chars_of("--cyberdesk-fp-seed=");
    proof {
        reveal_strlit("--cyberdesk-fp-seed=");
    }
    let ghost views = arg_views(args@);
    let mut i: usize = 0;
    while i < args.len()
        invariant
            i <= args.len(),
            views == arg_views(args@),
            prefix@ == seed_switch_prefix(),
            first_seed_arg(views.take(i as int)) is None,
        decreases args.len() - i,
    {
        let a = chars_of(args[i].as_str());
        proof {
            assert(views.take(i + 1).drop_last() =~= views.take(i as int));
            assert(views.take(i + 1).last() == a@);
        }
        if has_prefix(a.as_slice(), prefix.as_slice()) {
            proof {
                assert(first_seed_arg(views.take(i + 1)) == Some(i as int));
                lemma_first_seed_arg_prefix(views, i as int + 1);
            }
            let v = a.as_slice().split_at(prefix.len()).1;
            if v.len() == 0 {
                return None;
            }
            let t = string_of(v);
            proof {
                assert(v@ =~= a@.skip(prefix@.len() as int));
            }
            return Some(t);
        }
        i = i + 1;
    }
    assert(views.take(args.len() as int) =~= views);
    None
}

/// Once a prefix of `args` holds the seed switch, the whole does at the same
/// position.
proof fn lemma_first_seed_arg_prefix(args: Seq<Seq<char>>, n: int)
    requires
        0 <= n <= args.len(),
        first_seed_arg(args.take(n)) is Some,
    ensures
        first_seed_arg(args) == first_seed_arg(args.take(n)),
    decreases args.len() - n,
{
    if n < args.len() {
        assert(args.take(n + 1).drop_last() =~= args.take(n));
        lemma_first_seed_arg_prefix(args, n + 1);
    } else {
        assert(args.take(n) =~= args);
    }
}

/// Set up the global identity at launch from the settings `s`, a `fresh`
/// seed and the time `now_ms`. With rotation on restart the fresh seed is
/// used; otherwise the persisted seed is kept (a stable identity across
/// launches) with its persisted mint time, stamping and persisting `now_ms`
/// when none is stored; with no persisted seed the fresh one is used and
/// persisted with `now_ms`.
pub fn init_identity_seed(s: &mut crate::settings::Settings, fresh: &str, now_ms: u64) -> (id: Identity)
    ensures
        id.wf(),
        id.global() == boot_seed(old(s).rotate_on_restart, old(s).rows.stored(crate::settings::KEY_IDENTITY_SEED@), fresh@),
        forall|i: int| #![trigger id.own(i)] id.own(i) is None,
        id.epoch() == 0,
        final(s).rotate_on_restart == old(s).rotate_on_restart,
        final(s).rotate_new_circuit == old(s).rotate_new_circuit,
        !old(s).rotate_on_restart ==> final(s).rows.stored(crate::settings::KEY_IDENTITY_SEED@) == Some(id.global()),
        old(s).rotate_on_restart ==> *final(s) == *old(s) && id.born() == now_ms,
{
    proof {
        crate::settings::lemma_identity_keys_differ();
    }
    let slots = no_overrides();
    if crate::settings::rotate_on_restart(s) {
        return Identity { global: String::from_str(fresh), slots, born_ms: now_ms, epoch: 0 };
    }
    match crate::settings::persisted_identity_seed(s) {
        Some(seed) => {
            if seed.unicode_len() > 0 {
                let born = match crate::settings::persisted_identity_born(s) {
                    Some(b) => b,
                    None => {
                        crate::settings::store_identity_born(s, now_ms);
                        now_ms
                    },
                };
                return Identity { global: seed, slots, born_ms: born, epoch: 0 };
            }
        },
        None => {},
    }
    crate::settings::store_identity_seed(s, fresh);
    crate::settings::store_identity_born(s, now_ms);
    Identity { global: String::from_str(fresh), slots, born_ms: now_ms, epoch: 0 }
}

/// How long the global identity has existed at `now_ms` (zero if the clock
/// reads earlier than its mint time).
pub fn identity_age_ms(id: &Identity, now_ms: u64) -> (age: u64)
    ensures
        age == (if now_ms >= id.born() { now_ms - id.born() } else { 0 }),
{
    now_ms.saturating_sub(id.born_ms)
}

/// The number of global rotations so far.
pub fn rotation_epoch(id: &Identity) -> (e: u64)
    ensures
        e == id.epoch(),
{
    id.epoch
}

/// The seed window `i` runs under.
pub fn slot_effective_seed(id: &Identity, i: usize) -> (seed: String)
    ensures
        seed@ == id.effective(i as int),
{
    if i < id.slots.len() {
        match &id.slots[i] {
            Some(s) => {
                return s.clone();
            },
            None => {},
        }
    }
    id.global.clone()
}

/// Manual rotation of window `i`: it gets its own `fresh` seed; every other
/// window keeps its seed. When the settings ask for new circuits too and the
/// window is in Tor (`slot_tor`), the Tor identity moves on as well. An `i`
/// past the last window changes nothing.
pub fn rotate_slot_identity(
    id: &mut Identity,
    i: usize,
    fresh: String,
    s: &crate::settings::Settings,
    slot_tor: bool,
    tor: &mut crate::tor::TorState,
)
    requires
        old(id).wf(),
    ensures
        final(id).wf(),
        final(id).global() == old(id).global(),
        final(id).born() == old(id).born(),
        final(id).epoch() == old(id).epoch(),
        forall|j: int| j != i ==> #[trigger] final(id).own(j) == old(id).own(j),
        i < crate::slots::MAX_SLOTS ==> final(id).own(i as int) == Some(fresh@),
        i >= crate::slots::MAX_SLOTS ==> final(id).own(i as int) == old(id).own(i as int),
        final(tor).epoch() == (if i < crate::slots::MAX_SLOTS && s.rotate_new_circuit && slot_tor {
            ((old(tor).epoch() + 1) % 0x1_0000_0000_0000_0000) as u64
        } else {
            old(tor).epoch()
        }),
        final(tor).status_code() == old(tor).status_code(),
        final(tor).reason() == old(tor).reason(),
{
    if i >= crate::slots::MAX_SLOTS {
        return;
    }
    id.slots.set(i, Some(fresh));
    if crate::settings::rotate_new_circuit(s) && slot_tor {
        crate::tor::new_identity(tor);
    }
}

/// Global rotation: a `fresh` global seed minted at `now_ms`, every
/// per-window seed dropped (so every window adopts the new identity), and
/// the rotation count advanced. A stable cross-launch identity (rotation on
/// restart off) is persisted with its mint time; with new circuits on, the
/// Tor identity moves on too.
pub fn rotate_global_identity(
    id: &mut Identity,
    fresh: String,
    now_ms: u64,
    s: &mut crate::settings::Settings,
    tor: &mut crate::tor::TorState,
)
    requires
        old(id).wf(),
    ensures
        final(id).wf(),
        final(id).global() == fresh@,
        forall|j: int| #![trigger final(id).own(j)] final(id).own(j) is None,
        forall|j: int| #![trigger final(id).effective(j)] final(id).effective(j) == fresh@,
        final(id).born() == now_ms,
        final(id).epoch() == (old(id).epoch() + 1) % 0x1_0000_0000_0000_0000,
        !old(s).rotate_on_restart ==> final(s).rows.stored(crate::settings::KEY_IDENTITY_SEED@) == Some(fresh@)
            && final(s).rows.stored(crate::settings::KEY_IDENTITY_SEED_BORN@) == Some(crate::text::decimal(now_ms as nat)),
        old(s).rotate_on_restart ==> *final(s) == *old(s),
        final(s).rotate_on_restart == old(s).rotate_on_restart,
        final(tor).epoch() == (if old(s).rotate_new_circuit {
            ((old(tor).epoch() + 1) % 0x1_0000_0000_0000_0000) as u64
        } else {
            old(tor).epoch()
        }),
        final(tor).status_code() == old(tor).status_code(),
        final(tor).reason() == old(tor).reason(),
{
    proof {
        crate::settings::lemma_identity_keys_differ();
    }
    id.global = fresh;
    id.slots = no_overrides();
    id.born_ms = now_ms;
    id.epoch = id.epoch.wrapping_add(1);
    if !crate::settings::rotate_on_restart(s) {
        crate::settings::store_identity_seed(s, id.global.as_str());
        crate::settings::store_identity_born(s, now_ms);
    }
    if crate::settings::rotate_new_circuit(s) {
        crate::tor::new_identity(tor);
    }
}

/// Drop window `i`'s own seed (on window reuse: a fresh window follows the
/// global identity).
pub fn clear_slot_identity(id: &mut Identity, i: usize)
    requires
        old(id).wf(),
    ensures
        final(id).wf(),
        final(id).global() == old(id).global(),
        final(id).born() == old(id).born(),
        final(id).epoch() == old(id).epoch(),
        final(id).own(i as int) is None,
        forall|j: int| j != i ==> #[trigger] final(id).own(j) == old(id).own(j),
{
    if i < crate::slots::MAX_SLOTS {
        id.slots.set(i, None);
    }
}

/// `new` is `old` with the global seed of `id` and its mint time written
/// to their rows, and nothing else changed.
pub open spec fn identity_persisted(old: crate::settings::Settings, new: crate::settings::Settings, id: Identity) -> bool {
    &&& new == (crate::settings::Settings { rows: new.rows, ..old })
    &&& new.rows.stored(crate::settings::KEY_IDENTITY_SEED@) == Some(id.global())
    &&& new.rows.stored(crate::settings::KEY_IDENTITY_SEED_BORN@) == Some(crate::text::decimal(id.born() as nat))
    &&& forall|k: Seq<char>|
        k != crate::settings::KEY_IDENTITY_SEED@ && k != crate::settings::KEY_IDENTITY_SEED_BORN@
            ==> #[trigger] new.rows.stored(k) == old.rows.stored(k)
}

/// Persist the current global seed and its mint time (when rotation on
/// restart is turned off, so the identity in use now is the one restored
/// next launch).
pub fn persist_current_identity(id: &Identity, s: &mut crate::settings::Settings)
    ensures
        identity_persisted(*old(s), *final(s), *id),
{
    proof {
        crate::settings::lemma_identity_keys_differ();
    }
    crate::settings::store_identity_seed(s, id.global.as_str());
    crate::settings::store_identity_born(s, id.born_ms);
}

/// A persisted identity survives a restart: once the current seed is
/// persisted with rotation on restart off, the next launch boots with that
/// same seed, whatever fresh seed it drew (a seed is never empty).
pub proof fn law_persisted_identity_survives_restart(stored: Option<Seq<char>>, current: Seq<char>, fresh: Seq<char>)
    requires
        stored == Some(current),
        current.len() > 0,
    ensures
        boot_seed(false, stored, fresh) == current,
{
}

// --- The settings page's `set_setting` request ------------------------------------------

/// A request's `value`, as the settings page can send it: a boolean, a
/// number (as the nearest `i64`), a string, or anything else.
pub enum SettingValue {
    Bool(bool),
    Int(i64),
    Text(String),
    Other,
}

/// The number a request's value gives: a number as it is, or a string
/// holding an `i64` (white space around it allowed).
pub open spec fn numeric_value(v: SettingValue) -> Option<int> {
    match v {
        SettingValue::Int(n) => Some(n as int),
        SettingValue::Text(t) => parse_i64(trim(t@)),
        _ => None,
    }
}

/// A setter's result as the request's reply: its error becomes code 3.
pub open spec fn lifted(r: Result<String, (i32, String)>, sr: Result<String, String>) -> bool {
    match (r, sr) {
        (Ok(a), Ok(b)) => a@ == b@,
        (Err((c, a)), Err(b)) => c == 3 && a@ == b@,
        _ => false,
    }
}

/// `r` is the request error with `code` and `msg`.
pub open spec fn request_error(r: Result<String, (i32, String)>, code: i32, msg: Seq<char>) -> bool {
    r matches Err((c, m)) && c == code && m@ == msg
}

fn numeric(v: &SettingValue) -> (r: Option<i64>)
    ensures
        match numeric_value(*v) {
            Some(n) => r == Some(n as i64),
            None => r is None,
        },
{
    match v {
        SettingValue::Int(n) => Some(*n),
        SettingValue::Text(t) => {
            let cs = chars_of(t.as_str());
            let tt = trimmed(cs.as_slice());
            parse_i64_chars(tt.as_slice())
        },
        _ => None,
    }
}

fn code3(r: Result<String, String>) -> (out: Result<String, (i32, String)>)
    ensures
        lifted(out, r),
{
    match r {
        Ok(t) => Ok(t),
        Err(e) => Err((3, e)),
    }
}

fn fail(code: i32, msg: &str) -> (out: Result<String, (i32, String)>)
    ensures
        request_error(out, code, msg@),
{
    Err((code, String::from_str(msg)))
}

/// What the `set_setting` request for `key` and `value` does: the settings
/// go from `old_s` to `new_s` (with the identity `id` persisted when
/// rotation on restart is turned off), the screen-change flag from
/// `old_screens` to `new_screens`, and the reply is `r`.
pub open spec fn setting_set(
    old_s: crate::settings::Settings,
    new_s: crate::settings::Settings,
    id: Identity,
    key: Option<Seq<char>>,
    value: Option<SettingValue>,
    old_screens: bool,
    new_screens: bool,
    r: Result<String, (i32, String)>,
) -> bool {
    &&& key is None ==> request_error(r, 2, "missing 'key'"@) && new_s == old_s
    &&& key is Some && value is None ==> request_error(r, 2, "missing 'value'"@) && new_s == old_s
    &&& new_screens == (old_screens || (key matches Some(k) && k == crate::settings::KEY_SCREEN_PRESET@
        && r is Ok))
    &&& key is Some && value is Some ==> {
        let k = key.unwrap();
        let v = value.unwrap();
        if k == crate::settings::KEY_SEARCH_ENGINE@ {
            match v {
                SettingValue::Text(t) => exists|sr| #![auto] crate::settings::engine_applied(old_s, new_s, t@, sr) && lifted(r, sr),
                _ => request_error(r, 2, "'value' must be a string for search_engine"@) && new_s == old_s,
            }
        } else if k == crate::settings::KEY_SCREEN_PRESET@ {
            match v {
                SettingValue::Text(t) => exists|sr| #![auto] crate::settings::screen_applied(old_s, new_s, t@, sr) && lifted(r, sr),
                _ => request_error(r, 2, "'value' must be a string for screen_preset"@) && new_s == old_s,
            }
        } else if k == crate::settings::KEY_GLOW_INTENSITY@ {
            match numeric_value(v) {
                Some(n) => exists|sr| #![auto] crate::settings::glow_applied(old_s, new_s, n, sr) && lifted(r, sr),
                None => request_error(r, 2, "'value' must be numeric for glow_intensity"@) && new_s == old_s,
            }
        } else if k == crate::settings::KEY_ROTATE_INTERVAL@ {
            match numeric_value(v) {
                Some(n) => exists|sr| #![auto] crate::settings::interval_applied(old_s, new_s, n, sr) && lifted(r, sr),
                None => request_error(r, 2, "'value' must be numeric for rotate_interval_min"@) && new_s == old_s,
            }
        } else {
            match v {
                SettingValue::Bool(b) => if k == crate::settings::KEY_ROTATE_ON_RESTART@ && !b {
                    exists|mid: crate::settings::Settings, sr| #![auto] crate::settings::bool_applied(old_s, mid, k, b, sr)
                        && lifted(r, sr) && identity_persisted(mid, new_s, id)
                } else {
                    exists|sr| #![auto] crate::settings::bool_applied(old_s, new_s, k, b, sr) && lifted(r, sr)
                },
                _ => request_error(r, 2, "'value' must be boolean"@) && new_s == old_s,
            }
        }
    }
}

/// The settings page's `set_setting` request for `key` (`None` when the
/// request has none) and `value`. The engine and the screen preset take a
/// string; the glow and the rotation interval a number (or a string holding
/// one); every other key a boolean, validated against the allowlist. A
/// malformed request fails with code 2, a refused value with code 3.
/// Turning rotation on restart off also persists the identity in use, so it
/// is the one restored next launch. `screens` tells whether every window
/// inheriting the global screen preset must be respawned.
pub fn set_setting(
    s: &mut crate::settings::Settings,
    id: &Identity,
    key: Option<&str>,
    value: Option<SettingValue>,
    screens: &mut bool,
) -> (r: Result<String, (i32, String)>)
    ensures
        setting_set(
            *old(s),
            *final(s),
            *id,
            match key {
                Some(k) => Some(k@),
                None => None,
            },
            value,
            *old(screens),
            *final(screens),
            r,
        ),
{
    let k = match key {
        Some(k) => k,
        None => {
            return fail(2, "missing 'key'");
        },
    };
    let v = match value {
        Some(v) => v,
        None => {
            return fail(2, "missing 'value'");
        },
    };
    proof {
        crate::settings::lemma_request_keys_differ();
    }
    if crate::text::str_eq(k, crate::settings::KEY_SEARCH_ENGINE) {
        match v {
            SettingValue::Text(t) => {
                let sr = crate::settings::set_search_engine(s, t.as_str());
                code3(sr)
            },
            _ => fail(2, "'value' must be a string for search_engine"),
        }
    } else if crate::text::str_eq(k, crate::settings::KEY_SCREEN_PRESET) {
        match v {
            SettingValue::Text(t) => {
                let sr = crate::settings::set_screen_preset(s, t.as_str());
                let r = code3(sr);
                if r.is_ok() {
                    *screens = true;
                }
                r
            },
            _ => fail(2, "'value' must be a string for screen_preset"),
        }
    } else if crate::text::str_eq(k, crate::settings::KEY_GLOW_INTENSITY) {
        match numeric(&v) {
            Some(n) => {
                let sr = crate::settings::set_glow_intensity(s, n);
                code3(sr)
            },
            None => fail(2, "'value' must be numeric for glow_intensity"),
        }
    } else if crate::text::str_eq(k, crate::settings::KEY_ROTATE_INTERVAL) {
        match numeric(&v) {
            Some(n) => {
                let sr = crate::settings::set_rotate_interval(s, n);
                code3(sr)
            },
            None => fail(2, "'value' must be numeric for rotate_interval_min"),
        }
    } else {
        match v {
            SettingValue::Bool(b) => {
                let sr = crate::settings::set(s, k, b);
                let r = code3(sr);
                if r.is_ok() && crate::text::str_eq(k, crate::settings::KEY_ROTATE_ON_RESTART) && !b {
                    persist_current_identity(id, s);
                }
                r
            },
            _ => fail(2, "'value' must be boolean"),
        }
    }
}

/// The window a request addresses: its `slot` (capped to the last window),
/// else the active window.
pub fn target_slot(requested: Option<u64>, active: usize) -> (i: usize)
    ensures
        match requested {
            Some(n) => i == (if n < crate::slots::MAX_SLOTS - 1 { n as int } else { crate::slots::MAX_SLOTS - 1 }),
            None => i == active,
        },
{
    match requested {
        Some(n) => {
            if n < (crate::slots::MAX_SLOTS - 1) as u64 {
                n as usize
            } else {
                crate::slots::MAX_SLOTS - 1
            }
        },
        None => active,
    }
}

/// A window's screen-preset request: `inherit` follows the global preset,
/// an allowlisted name sets the window's own, anything else is refused
/// (code 2).
pub fn slot_screen_choice(value: &str) -> (r: Result<Option<u8>, (i32, String)>)
    ensures
        value@ == "inherit"@ ==> r == Ok::<Option<u8>, (i32, String)>(None),
        value@ != "inherit"@ ==> match crate::settings::screen_of_word(value@) {
            Some(c) => r == Ok::<Option<u8>, (i32, String)>(Some(c)),
            None => r matches Err((code, m)) && code == 2 && m@ == "unknown screen preset: "@ + value@,
        },
{
    if crate::text::str_eq(value, "inherit") {
        return Ok(None);
    }
    match crate::settings::screen_code(value) {
        Some(c) => Ok(Some(c)),
        None => {
            let mut m = String::from_str("unknown screen preset: ");
            push_str(&mut m, value);
            Err((2, m))
        },
    }
}

/// A window's screen state for the page: its preset's name and whether it
/// follows the global preset.
pub open spec fn slot_screen_text(own: Option<u8>, global: u8) -> Seq<char> {
    let code = match own {
        Some(c) => c,
        None => global,
    };
    "{\"value\":\""@ + crate::settings::screen_word(code) + "\",\"inherited\":"@
        + crate::settings::bool_text(own is None) + "}"@
}

/// The page's view of a window's screen preset, from the window's own
/// preset (if any) and the `global` one.
pub fn slot_screen_reply(own: Option<u8>, global: u8) -> (r: String)
    ensures
        r@ == slot_screen_text(own, global),
{
    let code = match own {
        Some(c) => c,
        None => global,
    };
    let mut r = String::from_str("{\"value\":\"");
    push_str(&mut r, crate::settings::screen_name(code));
    push_str(&mut r, "\",\"inherited\":");
    if own.is_none() {
        push_str(&mut r, "true");
    } else {
        push_str(&mut r, "false");
    }
    push_str(&mut r, "}");
    r
}

/// What the automatic-rotation timer does on a tick.
pub enum RotationTick {
    /// Automatic rotation is off: restart the interval from now.
    Idle,
    /// The interval has not run out yet.
    Wait,
    /// The interval ran out: rotate the global identity and restart it.
    Rotate,
}

/// The timer's decision after `elapsed_secs` whole seconds of the current
/// interval, under the settings `s`.
pub fn rotation_tick(s: &crate::settings::Settings, elapsed_secs: u64) -> (t: RotationTick)
    ensures
        !s.rotate_auto ==> t is Idle,
        s.rotate_auto && elapsed_secs >= s.rotate_interval_min * 60 ==> t is Rotate,
        s.rotate_auto && elapsed_secs < s.rotate_interval_min * 60 ==> t is Wait,
{
    if !crate::settings::rotate_auto(s) {
        return RotationTick::Idle;
    }
    let interval: u64 = crate::settings::rotate_interval_min(s) as u64 * 60;
    if elapsed_secs >= interval {
        RotationTick::Rotate
    } else {
        RotationTick::Wait
    }
}

// --- Request replies ------------------------------------------------------------------

/// The `navigate` reply: success and the URL the window loads.
pub open spec fn navigate_text(url: Seq<char>) -> Seq<char> {
    "{\"ok\":true,\"url\":"@ + crate::json::quoted(url) + "}"@
}

/// The `navigate` reply for `url`.
pub fn navigate_reply(url: &str) -> (r: String)
    ensures
        r@ == navigate_text(url@),
{
    let mut r = String::from_str("{\"ok\":true,\"url\":");
    crate::json::push_json_string(&mut r, url);
    push_str(&mut r, "}");
    r
}

/// What the command band shows of a window: its page, history buttons,
/// load state, scheme, and favourite star, as a JSON object with its keys in
/// order.
pub open spec fn nav_state_text(url: Seq<char>, title: Seq<char>, can_back: bool, can_forward: bool, loading: bool, stored: bool) -> Seq<char> {
    "{\"can_back\":"@ + crate::json::json_bool(can_back)
        + ",\"can_forward\":"@ + crate::json::json_bool(can_forward)
        + ",\"favorite\":"@ + crate::json::json_bool(crate::memory::recordable(url) && stored)
        + ",\"loading\":"@ + crate::json::json_bool(loading)
        + ",\"scheme\":"@ + crate::json::quoted(scheme_word(url))
        + ",\"title\":"@ + crate::json::quoted(title)
        + ",\"url\":"@ + crate::json::quoted(url) + "}"@
}

/// The `get_nav_state` reply for a window showing `url` titled `title`;
/// `stored` is whether the store lists `url` as a favourite.
pub fn nav_state_json(url: &str, title: &str, can_back: bool, can_forward: bool, loading: bool, stored: bool) -> (r: String)
    ensures
        r@ == nav_state_text(url@, title@, can_back, can_forward, loading, stored),
{
    let mut r = String::from_str("{\"can_back\":");
    crate::json::push_json_bool(&mut r, can_back);
    push_str(&mut r, ",\"can_forward\":");
    crate::json::push_json_bool(&mut r, can_forward);
    push_str(&mut r, ",\"favorite\":");
    crate::json::push_json_bool(&mut r, crate::memory::is_favorite(url, stored));
    push_str(&mut r, ",\"loading\":");
    crate::json::push_json_bool(&mut r, loading);
    push_str(&mut r, ",\"scheme\":");
    crate::json::push_json_string(&mut r, scheme_of(url));
    push_str(&mut r, ",\"title\":");
    crate::json::push_json_string(&mut r, title);
    push_str(&mut r, ",\"url\":");
    crate::json::push_json_string(&mut r, url);
    push_str(&mut r, "}");
    r
}

/// One palette suggestion as a JSON object with its keys in order.
pub open spec fn suggestion_text(s: crate::store::Suggestion) -> Seq<char> {
    "{\"favorite\":"@ + crate::json::json_bool(s.favorite) + ",\"title\":"@ + crate::json::quoted(s.title@)
        + ",\"url\":"@ + crate::json::quoted(s.url@) + "}"@
}

/// The suggestions' texts separated by commas.
pub open spec fn join_suggestions(ss: Seq<crate::store::Suggestion>) -> Seq<char>
    decreases ss.len(),
{
    if ss.len() == 0 {
        Seq::empty()
    } else if ss.len() == 1 {
        suggestion_text(ss[0])
    } else {
        join_suggestions(ss.drop_last()) + ","@ + suggestion_text(ss.last())
    }
}

fn push_suggestion(out: &mut String, s: &crate::store::Suggestion)
    ensures
        final(out)@ == old(out)@ + suggestion_text(*s),
{
    let ghost start = out@;
    push_str(out, "{\"favorite\":");
    crate::json::push_json_bool(out, s.favorite);
    push_str(out, ",\"title\":");
    crate::json::push_json_string(out, s.title.as_str());
    push_str(out, ",\"url\":");
    crate::json::push_json_string(out, s.url.as_str());
    push_str(out, "}");
    assert(out@ =~= start + suggestion_text(*s));
}

/// The palette's suggestions as a JSON array, in order.
pub fn suggestions_json(ss: &Vec<crate::store::Suggestion>) -> (out: String)
    ensures
        out@ == "["@ + join_suggestions(ss@) + "]"@,
{
    let mut body = String::new();
    let mut i: usize = 0;
    while i < ss.len()
        invariant
            i <= ss@.len(),
            body@ == join_suggestions(ss@.take(i as int)),
        decreases ss.len() - i,
    {
        if i > 0 {
            push_str(&mut body, ",");
        }
        push_suggestion(&mut body, &ss[i]);
        assert(ss@.take(i + 1).drop_last() =~= ss@.take(i as int));
        assert(ss@.take(i + 1).last() == ss@[i as int]);
        if i == 0 {
            assert(ss@.take(1) =~= seq![ss@[0]]);
        }
        i = i + 1;
    }
    assert(ss@.take(ss@.len() as int) =~= ss@);
    let mut out = String::from_str("[");
    push_str(&mut out, body.as_str());
    push_str(&mut out, "]");
    out
}

// --- Per-window modes ---------------------------------------------------------------

/// A window's screen override that means "follow the global preset".
pub const SCREEN_INHERIT: u8 = 255;

/// Each window's Tor mode and reported-screen override.
pub struct SlotModes {
    tor: Vec<bool>,
    screen: Vec<u8>,
}

impl SlotModes {
    /// Window `i`'s Tor mode (clearnet past the last window).
    pub closed spec fn tor(&self, i: int) -> bool {
        0 <= i < crate::slots::MAX_SLOTS && self.tor@[i]
    }

    /// Window `i`'s own screen preset code (`None`: follows the global).
    pub closed spec fn screen(&self, i: int) -> Option<u8> {
        if 0 <= i < crate::slots::MAX_SLOTS && self.screen@[i] != SCREEN_INHERIT {
            Some(self.screen@[i])
        } else {
            None
        }
    }

    /// One entry per window.
    pub closed spec fn wf(&self) -> bool {
        self.tor@.len() == crate::slots::MAX_SLOTS && self.screen@.len() == crate::slots::MAX_SLOTS
    }

    /// Every window clearnet and following the global screen preset.
    pub fn new() -> (m: SlotModes)
        ensures
            m.wf(),
            forall|i: int| !#[trigger] m.tor(i),
            forall|i: int| #[trigger] m.screen(i) is None,
    {
        SlotModes { tor: vec![false, false, false, false], screen: vec![255u8, 255u8, 255u8, 255u8] }
    }
}

/// Set window `i`'s Tor mode (no change past the last window).
pub fn set_slot_tor(m: &mut SlotModes, i: usize, on: bool)
    requires
        old(m).wf(),
    ensures
        final(m).wf(),
        i < crate::slots::MAX_SLOTS ==> final(m).tor(i as int) == on,
        forall|j: int| j != i ==> #[trigger] final(m).tor(j) == old(m).tor(j),
        forall|j: int| #[trigger] final(m).screen(j) == old(m).screen(j),
{
    if i < crate::slots::MAX_SLOTS {
        m.tor.set(i, on);
    }
}

/// Is window `i` in Tor mode?
pub fn slot_is_tor(m: &SlotModes, i: usize) -> (b: bool)
    requires
        m.wf(),
    ensures
        b == m.tor(i as int),
{
    i < crate::slots::MAX_SLOTS && m.tor[i]
}

/// Set window `i`'s screen override (`None`: follow the global preset; a
/// code of [`SCREEN_INHERIT`] means the same).
pub fn set_slot_screen(m: &mut SlotModes, i: usize, code: Option<u8>)
    requires
        old(m).wf(),
    ensures
        final(m).wf(),
        i < crate::slots::MAX_SLOTS ==> final(m).screen(i as int) == (match code {
            Some(c) => if c == SCREEN_INHERIT { None } else { Some(c) },
            None => None,
        }),
        forall|j: int| j != i ==> #[trigger] final(m).screen(j) == old(m).screen(j),
        forall|j: int| #[trigger] final(m).tor(j) == old(m).tor(j),
{
    if i < crate::slots::MAX_SLOTS {
        let raw = match code {
            Some(c) => c,
            None => SCREEN_INHERIT,
        };
        m.screen.set(i, raw);
    }
}

/// Window `i`'s own screen override, if any.
pub fn slot_screen_override(m: &SlotModes, i: usize) -> (r: Option<u8>)
    requires
        m.wf(),
    ensures
        r == m.screen(i as int),
{
    if i >= crate::slots::MAX_SLOTS {
        return None;
    }
    let c = m.screen[i];
    if c == SCREEN_INHERIT {
        None
    } else {
        Some(c)
    }
}

/// The preset code window `i` reports under: its own, else the global one.
pub fn slot_effective_screen_code(m: &SlotModes, i: usize, s: &crate::settings::Settings) -> (c: u8)
    requires
        m.wf(),
    ensures
        c == (match m.screen(i as int) {
            Some(own) => own,
            None => s.screen_preset,
        }),
{
    match slot_screen_override(m, i) {
        Some(c) => c,
        None => crate::settings::screen_preset_code(s),
    }
}

/// The screen size window `i` reports for its `viewport`: the common size
/// for the preset in force (its own, else the global).
pub fn slot_screen_dims(m: &SlotModes, i: usize, viewport: (u32, u32), s: &crate::settings::Settings) -> (d: (u32, u32))
    requires
        m.wf(),
    ensures
        d == common_screen(
            crate::settings::screen_size(match m.screen(i as int) {
                Some(own) => own,
                None => s.screen_preset,
            }),
            viewport,
        ),
{
    let preset = match slot_screen_override(m, i) {
        Some(code) => crate::settings::screen_dims(code),
        None => crate::settings::screen_preset_dims(s),
    };
    common_screen_for(preset, viewport)
}

} // verus!
