//! Row types of the persistent state store, the history cap, and the
//! matching pattern the command palette's search hands to the database (the
//! SQLite database itself is driven by the application layer).

use vstd::prelude::*;
use crate::text::{chars_of, push_char, trim, trimmed};

verus! {

/// One command-palette suggestion row: a favourite or a history entry.
#[derive(Debug, Clone)]
pub struct Suggestion {
    pub url: String,
    pub title: String,
    pub favorite: bool,
}

/// One persisted session slot: display position, the URL it showed, its
/// width in units, whether it was the active slot, and its Tor mode.
#[derive(Debug, Clone)]
pub struct SessionSlot {
    pub position: i64,
    pub url: String,
    pub width_units: i64,
    pub active: bool,
    pub tor: bool,
}

impl SessionSlot {
    /// A field-for-field copy.
    pub fn duplicate(&self) -> (r: SessionSlot)
        ensures
            r == *self,
    {
        SessionSlot {
            position: self.position,
            url: self.url.clone(),
            width_units: self.width_units,
            active: self.active,
            tor: self.tor,
        }
    }
}

/// History keeps at most this many rows; the oldest are pruned on insert.
pub const HISTORY_CAP: i64 = 10_000;

/// A LIKE wildcard or the escape character itself.
pub open spec fn like_special(c: char) -> bool {
    c == '\\' || c == '%' || c == '_'
}

/// `s` with every LIKE wildcard and backslash escaped by a backslash, so it
/// matches literally (paired with `ESCAPE '\'`).
pub open spec fn escaped(s: Seq<char>) -> Seq<char>
    decreases s.len(),
{
    if s.len() == 0 {
        Seq::empty()
    } else if like_special(s.last()) {
        escaped(s.drop_last()) + seq!['\\', s.last()]
    } else {
        escaped(s.drop_last()).push(s.last())
    }
}

/// Escape LIKE wildcards so user input matches literally.
pub fn like_escape(s: &str) -> (r: String)
    ensures
        r@ == escaped(s@),
{
    let cs = chars_of(s);
    let mut out = String::new();
    let mut i: usize = 0;
    while i < cs.len()
        invariant
            i <= cs@.len(),
            cs@ == s@,
            out@ == escaped(s@.take(i as int)),
        decreases cs.len() - i,
    {
        let c = cs[i];
        assert(s@.take(i + 1).drop_last() =~= s@.take(i as int));
        if c == '\\' || c == '%' || c == '_' {
            push_char(&mut out, '\\');
        }
        push_char(&mut out, c);
        assert(out@ =~= escaped(s@.take(i + 1)));
        i = i + 1;
    }
    assert(s@.take(cs@.len() as int) =~= s@);
    out
}

/// The Unicode lower-case mapping of `s`, as `str::to_lowercase` computes it.
pub uninterp spec fn lowercase(s: Seq<char>) -> Seq<char>;

/// `str::to_lowercase`: the lower-case form of `s`. Its result is named
/// [`lowercase`]; the Unicode mapping itself is not written out.
#[verifier::external_body]
fn to_lowercase(s: &str) -> (r: String)
    ensures
        r@ == lowercase(s@),
{
    s.to_lowercase()
}

/// The case-insensitive substring pattern a search for `input` matches url
/// and title against, or `None` for a blank search (which lists the top
/// favourites instead).
pub open spec fn search_pattern(input: Seq<char>) -> Option<Seq<char>> {
    if trim(input).len() == 0 {
        None
    } else {
        Some(seq!['%'] + escaped(lowercase(trim(input))) + seq!['%'])
    }
}

/// The LIKE pattern for the command-palette search `input`.
pub fn like_pattern(input: &str) -> (r: Option<String>)
    ensures
        match search_pattern(input@) {
            Some(p) => r matches Some(t) && t@ == p,
            None => r is None,
        },
{
    let cs = chars_of(input);
    let t = trimmed(cs.as_slice());
    if t.len() == 0 {
        return None;
    }
    let mut text = String::new();
    let mut i: usize = 0;
    while i < t.len()
        invariant
            i <= t@.len(),
            text@ == t@.take(i as int),
        decreases t.len() - i,
    {
        push_char(&mut text, t[i]);
        assert(text@ =~= t@.take(i + 1));
        i = i + 1;
    }
    assert(t@.take(t@.len() as int) =~= t@);
    let lower = to_lowercase(text.as_str());
    let body = like_escape(lower.as_str());
    let mut p = String::new();
    push_char(&mut p, '%');
    crate::text::push_str(&mut p, body.as_str());
    push_char(&mut p, '%');
    assert(p@ =~= seq!['%'] + escaped(lowercase(trim(input@))) + seq!['%']);
    Some(p)
}

} // verus!
