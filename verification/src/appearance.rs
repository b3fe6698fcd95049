//! Appearance: the accent colour and the template model.
//!
//! A template is a complete named token set (background effect, default
//! accent, default intensities), kept as a table so a new template is a new
//! row. The resolved accent has one source, and the accent fan-out can only
//! ever write accent-family CSS properties: the semantic palette (warning,
//! error, success, the Ampel lamps) never follows the accent.

use vstd::prelude::*;
use crate::text::{
    chars_of, has_prefix, join_lines, join_with_newlines, leading_ws, lines, push_char, push_chars,
    split_lines, starts_with, str_eq, trim, trim_start, trimmed, views,
};

verus! {

broadcast use vstd::string::group_string_axioms;

/// A curated accent preset.
#[derive(Clone, Copy)]
pub struct Preset {
    pub id: &'static str,
    pub label: &'static str,
    pub hex: &'static str,
}

/// The curated accent presets, in picker order; CARVILON blue is first and
/// is the product default.
pub open spec fn preset_table() -> Seq<Preset> {
    seq![
        Preset { id: "carvilon", label: "CARVILON blue", hex: "#009FE3" },
        Preset { id: "ice", label: "Ice", hex: "#4FC3F7" },
        Preset { id: "teal", label: "Teal", hex: "#00C2A8" },
        Preset { id: "mint", label: "Mint", hex: "#3DDC97" },
        Preset { id: "violet", label: "Violet", hex: "#9B7BFF" },
        Preset { id: "magenta", label: "Magenta", hex: "#E86AC8" },
        Preset { id: "amber", label: "Amber", hex: "#F0A93B" },
        Preset { id: "copper", label: "Copper", hex: "#E8794B" },
        Preset { id: "steel", label: "Steel", hex: "#8FA8BF" },
    ]
}

/// The preset row.
pub fn presets() -> (v: Vec<Preset>)
    ensures
        v@ == preset_table(),
{
    let v = vec![
        Preset { id: "carvilon", label: "CARVILON blue", hex: "#009FE3" },
        Preset { id: "ice", label: "Ice", hex: "#4FC3F7" },
        Preset { id: "teal", label: "Teal", hex: "#00C2A8" },
        Preset { id: "mint", label: "Mint", hex: "#3DDC97" },
        Preset { id: "violet", label: "Violet", hex: "#9B7BFF" },
        Preset { id: "magenta", label: "Magenta", hex: "#E86AC8" },
        Preset { id: "amber", label: "Amber", hex: "#F0A93B" },
        Preset { id: "copper", label: "Copper", hex: "#E8794B" },
        Preset { id: "steel", label: "Steel", hex: "#8FA8BF" },
    ];
    assert(v@ =~= preset_table());
    v
}

/// Which background effect a template runs.
#[derive(Debug, Clone, Copy, PartialEq, Eq, Structural)]
pub enum Effect {
    PulseGrid,
    DeepField,
}

impl Effect {
    /// The effect's wire name.
    pub fn as_str(self) -> (s: &'static str)
        ensures
            self == Effect::PulseGrid ==> s@ == "pulse_grid"@,
            self == Effect::DeepField ==> s@ == "deep_field"@,
    {
        match self {
            Effect::PulseGrid => "pulse_grid",
            Effect::DeepField => "deep_field",
        }
    }
}

/// One template: a complete token set expressed as data.
#[derive(Clone, Copy)]
pub struct Template {
    pub id: &'static str,
    pub label: &'static str,
    /// One honest sentence for the picker.
    pub note: &'static str,
    pub effect: Effect,
    /// The accent used when the user has not chosen one.
    pub default_accent: &'static str,
    /// Default background-effect intensity (0..200 percent).
    pub default_intensity: u8,
    /// Default glow strength (0..200 percent).
    pub default_glow: u8,
    /// Whether the template animates by default.
    pub default_motion: bool,
}

/// The id of the template a fresh install comes up with.
pub const DEFAULT_TEMPLATE: &'static str = "cyber";

/// The first shipped template (the default).
pub open spec fn cyber() -> Template {
    Template {
        id: "cyber",
        label: "Template 1 (Cyber)",
        note: "The Pulse Grid circuit board, alive and glowing. The CyberDesk default.",
        effect: Effect::PulseGrid,
        default_accent: "#009FE3",
        default_intensity: 100,
        default_glow: 115,
        default_motion: true,
    }
}

/// The second shipped template.
pub open spec fn calm() -> Template {
    Template {
        id: "calm",
        label: "Template 2 (Calm)",
        note: "The Deep Field: a quiet, slow-drifting depth field instead of the circuit board.",
        effect: Effect::DeepField,
        default_accent: "#4FC3F7",
        default_intensity: 100,
        default_glow: 100,
        default_motion: true,
    }
}

/// The shipped template table, in picker order.
pub open spec fn template_table() -> Seq<Template> {
    seq![cyber(), calm()]
}

/// The shipped templates.
pub fn templates() -> (v: Vec<Template>)
    ensures
        v@ == template_table(),
{
    let v = vec![
        Template {
            id: "cyber",
            label: "Template 1 (Cyber)",
            note: "The Pulse Grid circuit board, alive and glowing. The CyberDesk default.",
            effect: Effect::PulseGrid,
            default_accent: "#009FE3",
            default_intensity: 100,
            default_glow: 115,
            default_motion: true,
        },
        Template {
            id: "calm",
            label: "Template 2 (Calm)",
            note: "The Deep Field: a quiet, slow-drifting depth field instead of the circuit board.",
            effect: Effect::DeepField,
            default_accent: "#4FC3F7",
            default_intensity: 100,
            default_glow: 100,
            default_motion: true,
        },
    ];
    assert(v@ =~= template_table());
    v
}

/// The template whose id is `id`: the first matching row of the table, or
/// the first (default) row when no row matches.
pub open spec fn template_for(id: Seq<char>) -> Template {
    if cyber().id@ == id {
        cyber()
    } else if calm().id@ == id {
        calm()
    } else {
        cyber()
    }
}

/// The template record for `id`; an unknown id resolves to the default.
pub fn template(id: &str) -> (t: Template)
    ensures
        t == template_for(id@),
{
    let rows = templates();
    let mut i: usize = 0;
    while i < rows.len()
        invariant
            rows@ == template_table(),
            i <= rows@.len(),
            forall|k: int| 0 <= k < i ==> rows@[k].id@ != id@,
        decreases rows.len() - i,
    {
        if str_eq(rows[i].id, id) {
            return rows[i];
        }
        i = i + 1;
    }
    rows[0]
}

/// The CSS custom properties owned by the semantic palette.
pub open spec fn semantic_var_names() -> Seq<Seq<char>> {
    seq![
        "--warn"@,
        "--error"@,
        "--success"@,
        "--ampel-green"@,
        "--ampel-yellow"@,
        "--ampel-red"@,
    ]
}

/// The semantic property names, as a list.
pub fn semantic_vars() -> (v: Vec<&'static str>)
    ensures
        v@.len() == semantic_var_names().len(),
        forall|i: int| 0 <= i < v@.len() ==> v@[i]@ == #[trigger] semantic_var_names()[i],
{
    let v = vec!["--warn", "--error", "--success", "--ampel-green", "--ampel-yellow", "--ampel-red"];
    v
}

/// An ASCII hexadecimal digit.
pub open spec fn is_hex_digit(c: char) -> bool {
    ('0' <= c && c <= '9') || ('a' <= c && c <= 'f') || ('A' <= c && c <= 'F')
}

/// `s` is a `#RRGGBB` colour: exactly seven characters, a `#` and six hex
/// digits. (Seven ASCII characters are exactly seven bytes, so this is the
/// byte-level test too.)
pub open spec fn is_hex_colour(s: Seq<char>) -> bool {
    s.len() == 7 && s[0] == '#' && forall|i: int| 1 <= i < 7 ==> is_hex_digit(#[trigger] s[i])
}

/// ASCII upper-casing of one character.
pub open spec fn ascii_upper(c: char) -> char {
    if 'a' <= c && c <= 'z' {
        ((c as u32) - 32) as char
    } else {
        c
    }
}

fn valid_hex_chars(h: &[char]) -> (b: bool)
    ensures
        b == is_hex_colour(h@),
{
    if h.len() != 7 || h[0] != '#' {
        return false;
    }
    let mut i: usize = 1;
    while i < 7
        invariant
            1 <= i <= 7,
            h@.len() == 7,
            forall|k: int| 1 <= k < i ==> is_hex_digit(#[trigger] h@[k]),
        decreases 7 - i,
    {
        let c = h[i];
        if !(('0' <= c && c <= '9') || ('a' <= c && c <= 'f') || ('A' <= c && c <= 'F')) {
            return false;
        }
        i = i + 1;
    }
    true
}

/// Is `hex` a syntactically valid `#RRGGBB` colour?
pub fn valid_hex(hex: &str) -> (b: bool)
    ensures
        b == is_hex_colour(hex@),
{
    let h = chars_of(hex);
    valid_hex_chars(h.as_slice())
}

/// The canonical form of a colour: `#` and the six digits upper-cased.
pub open spec fn canonical_hex(t: Seq<char>) -> Seq<char> {
    seq!['#'] + t.subrange(1, 7).map_values(|c: char| ascii_upper(c))
}

/// Normalise user input to `#RRGGBB` upper case: surrounding white space is
/// ignored; anything that is not then a `#RRGGBB` colour is refused.
pub fn normalize_hex(hex: &str) -> (res: Option<String>)
    ensures
        res is Some <==> is_hex_colour(trim(hex@)),
        res matches Some(r) ==> r@ == canonical_hex(trim(hex@)),
{
    let all = chars_of(hex);
    let t = trimmed(all.as_slice());
    if !valid_hex_chars(t.as_slice()) {
        return None;
    }
    let mut out = String::new();
    push_char(&mut out, '#');
    let mut i: usize = 1;
    while i < 7
        invariant
            1 <= i <= 7,
            t@.len() == 7,
            out@ == seq!['#'] + t@.subrange(1, i as int).map_values(|c: char| ascii_upper(c)),
        decreases 7 - i,
    {
        let c = t[i];
        let u = if 'a' <= c && c <= 'z' {
            ((c as u32) - 32) as u8 as char
        } else {
            c
        };
        assert(u == ascii_upper(c)) by {
            if 'a' <= c && c <= 'z' {
                assert(((c as u32) - 32) as u8 as char == ((c as u32) - 32) as char);
            }
        }
        push_char(&mut out, u);
        assert(t@.subrange(1, i + 1).map_values(|c: char| ascii_upper(c)) =~= t@.subrange(
            1,
            i as int,
        ).map_values(|c: char| ascii_upper(c)).push(ascii_upper(c)));
        i = i + 1;
    }
    Some(out)
}

/// The fully resolved appearance: the user's choices with template defaults
/// filled in.
#[derive(Debug, Clone)]
pub struct Resolved {
    pub template_id: String,
    pub accent: String,
    pub intensity: u8,
    pub glow: u8,
    pub motion: bool,
}

/// The accent-family property names; everything the accent fan-out writes.
pub open spec fn accent_var_names() -> Seq<Seq<char>> {
    seq!["--brand"@, "--accent"@]
}

impl Resolved {
    /// The template record behind this state.
    pub fn template(&self) -> (t: Template)
        ensures
            t == template_for(self.template_id@),
    {
        template(self.template_id.as_str())
    }

    /// The background effect this template runs.
    pub fn effect(&self) -> (e: Effect)
        ensures
            e == template_for(self.template_id@).effect,
    {
        self.template().effect
    }

    /// The accent-family CSS properties, each set to the one resolved accent.
    pub fn accent_vars(&self) -> (v: Vec<(String, String)>)
        ensures
            v@.len() == accent_var_names().len(),
            forall|i: int|
                0 <= i < v@.len() ==> #[trigger] v@[i].0@ == accent_var_names()[i] && v@[i].1@
                    == self.accent@,
    {
        let mut v: Vec<(String, String)> = Vec::new();
        v.push((String::from_str("--brand"), self.accent.clone()));
        v.push((String::from_str("--accent"), self.accent.clone()));
        v
    }

    /// The complete `:root` block for the internal pages: `theme_css` (the
    /// theme's own declarations) with every accent-family declaration
    /// rewritten to the resolved accent. Semantic declarations pass through.
    pub fn css_vars(&self, theme_css: &str) -> (css: String)
        ensures
            css@ == rewrite_css(
                rewrite_css(theme_css@, "--brand"@, self.accent@),
                "--accent"@,
                self.accent@,
            ),
    {
        let vars = self.accent_vars();
        let sem = semantic_vars();
        let mut css = String::from_str(theme_css);
        let mut i: usize = 0;
        while i < vars.len()
            invariant
                i <= vars@.len(),
                vars@.len() == 2,
                forall|k: int|
                    0 <= k < vars@.len() ==> #[trigger] vars@[k].0@ == accent_var_names()[k]
                        && vars@[k].1@ == self.accent@,
                sem@.len() == semantic_var_names().len(),
                forall|k: int| 0 <= k < sem@.len() ==> sem@[k]@ == #[trigger] semantic_var_names()[k],
                i == 0 ==> css@ == theme_css@,
                i == 1 ==> css@ == rewrite_css(theme_css@, "--brand"@, self.accent@),
                i == 2 ==> css@ == rewrite_css(
                    rewrite_css(theme_css@, "--brand"@, self.accent@),
                    "--accent"@,
                    self.accent@,
                ),
            decreases vars.len() - i,
        {
            let name = vars[i].0.as_str();
            if is_one_of(name, &sem) {
                proof {
                    law_no_semantic_var_is_accent_themed();
                    assert(sem@[choose|k: int| 0 <= k < sem@.len() && sem@[k]@ == name@]@
                        == semantic_var_names()[choose|k: int| 0 <= k < sem@.len() && sem@[k]@ == name@]);
                }
                i = i + 1;
                assert(false);
                continue;
            }
            css = rewrite_var(css.as_str(), name, vars[i].1.as_str());
            i = i + 1;
        }
        css
    }
}

fn is_one_of(name: &str, list: &Vec<&'static str>) -> (b: bool)
    ensures
        b == exists|k: int| 0 <= k < list@.len() && list@[k]@ == name@,
{
    let mut i: usize = 0;
    while i < list.len()
        invariant
            i <= list@.len(),
            forall|k: int| 0 <= k < i ==> list@[k]@ != name@,
        decreases list.len() - i,
    {
        if str_eq(list[i], name) {
            return true;
        }
        i = i + 1;
    }
    false
}

/// One line after rewriting the declaration of `name`: a line whose
/// indentation-stripped text starts with `name:` becomes
/// `<indent>name: value;`; every other line is kept.
pub open spec fn rewrite_line(l: Seq<char>, name: Seq<char>, value: Seq<char>) -> Seq<char> {
    let t = trim_start(l);
    if starts_with(t, name.push(':')) {
        l.subrange(0, l.len() - t.len()) + name + ": "@ + value + seq![';']
    } else {
        l
    }
}

/// `css` with the declaration of `name` rewritten on every line.
pub open spec fn rewrite_css(css: Seq<char>, name: Seq<char>, value: Seq<char>) -> Seq<char> {
    join_lines(lines(css).map_values(|l: Seq<char>| rewrite_line(l, name, value)))
}

/// Replace the value of one `--name: value;` declaration, leaving every other
/// declaration exactly as it was.
pub fn rewrite_var(css: &str, name: &str, value: &str) -> (out: String)
    ensures
        out@ == rewrite_css(css@, name@, value@),
{
    let cs = chars_of(css);
    let ls = split_lines(cs.as_slice());
    let name_cs = chars_of(name);
    let value_cs = chars_of(value);
    let mut needle = name_cs.clone();
    needle.push(':');
    assert(needle@ == name@.push(':'));
    let mut out_lines: Vec<Vec<char>> = Vec::new();
    let mut i: usize = 0;
    while i < ls.len()
        invariant
            i <= ls@.len(),
            views(ls@) == lines(css@),
            name_cs@ == name@,
            value_cs@ == value@,
            needle@ == name@.push(':'),
            views(out_lines@) == views(ls@).take(i as int).map_values(
                |l: Seq<char>| rewrite_line(l, name@, value@),
            ),
        decreases ls.len() - i,
    {
        let line = &ls[i];
        let ws = leading_ws(line.as_slice());
        let mut rest: Vec<char> = Vec::new();
        let mut k: usize = ws;
        while k < line.len()
            invariant
                ws <= k <= line@.len(),
                rest@ == line@.subrange(ws as int, k as int),
            decreases line.len() - k,
        {
            rest.push(line[k]);
            assert(rest@ =~= line@.subrange(ws as int, k + 1));
            k = k + 1;
        }
        let new_line: Vec<char>;
        if has_prefix(rest.as_slice(), needle.as_slice()) {
            let mut nl: Vec<char> = Vec::new();
            let mut m: usize = 0;
            while m < ws
                invariant
                    m <= ws <= line@.len(),
                    nl@ == line@.subrange(0, m as int),
                decreases ws - m,
            {
                nl.push(line[m]);
                assert(nl@ =~= line@.subrange(0, m + 1));
                m = m + 1;
            }
            let mut m2: usize = 0;
            let ghost base = nl@;
            while m2 < name_cs.len()
                invariant
                    m2 <= name_cs@.len(),
                    nl@ == base + name_cs@.take(m2 as int),
                decreases name_cs.len() - m2,
            {
                nl.push(name_cs[m2]);
                assert(nl@ =~= base + name_cs@.take(m2 + 1));
                m2 = m2 + 1;
            }
            assert(name_cs@.take(name_cs@.len() as int) =~= name_cs@);
            nl.push(':');
            nl.push(' ');
            let ghost base2 = nl@;
            let mut m3: usize = 0;
            while m3 < value_cs.len()
                invariant
                    m3 <= value_cs@.len(),
                    nl@ == base2 + value_cs@.take(m3 as int),
                decreases value_cs.len() - m3,
            {
                nl.push(value_cs[m3]);
                assert(nl@ =~= base2 + value_cs@.take(m3 + 1));
                m3 = m3 + 1;
            }
            assert(value_cs@.take(value_cs@.len() as int) =~= value_cs@);
            nl.push(';');
            proof {
                reveal_strlit(": ");
                assert(nl@ =~= line@.subrange(0, ws as int) + name@ + ": "@ + value@ + seq![';']);
            }
            new_line = nl;
        } else {
            new_line = line.clone();
        }
        assert(new_line@ == rewrite_line(line@, name@, value@));
        let ghost prev = views(out_lines@);
        out_lines.push(new_line);
        assert(views(ls@).take(i + 1) =~= views(ls@).take(i as int).push(line@));
        assert(views(out_lines@) =~= prev.push(rewrite_line(line@, name@, value@)));
        assert(views(out_lines@) =~= views(ls@).take(i + 1).map_values(
            |l: Seq<char>| rewrite_line(l, name@, value@),
        ));
        i = i + 1;
    }
    assert(views(ls@).take(ls@.len() as int) =~= views(ls@));
    join_with_newlines(&out_lines)
}

/// The accent fan-out never names a semantic property.
pub proof fn law_no_semantic_var_is_accent_themed()
    ensures
        forall|i: int, j: int|
            0 <= i < accent_var_names().len() && 0 <= j < semantic_var_names().len()
                ==> #[trigger] accent_var_names()[i] != #[trigger] semantic_var_names()[j],
{
    reveal_strlit("--brand");
    reveal_strlit("--accent");
    reveal_strlit("--warn");
    reveal_strlit("--error");
    reveal_strlit("--success");
    reveal_strlit("--ampel-green");
    reveal_strlit("--ampel-yellow");
    reveal_strlit("--ampel-red");
    assert forall|i: int, j: int|
        0 <= i < accent_var_names().len() && 0 <= j < semantic_var_names().len()
            implies #[trigger] accent_var_names()[i] != #[trigger] semantic_var_names()[j] by {
        let a = accent_var_names()[i];
        let b = semantic_var_names()[j];
        assert(a.len() != b.len() || a[2] != b[2] || a[3] != b[3]);
    }
}

/// The accent never recolours the status palette: a line that declares a
/// semantic property is left exactly as it was by the rewrite of either
/// accent-family property, whatever the accent.
pub proof fn law_accent_leaves_semantic_lines(l: Seq<char>, accent: Seq<char>, j: int)
    requires
        0 <= j < semantic_var_names().len(),
        starts_with(trim_start(l), semantic_var_names()[j].push(':')),
    ensures
        rewrite_line(l, "--brand"@, accent) == l,
        rewrite_line(l, "--accent"@, accent) == l,
{
    reveal_strlit("--brand");
    reveal_strlit("--accent");
    reveal_strlit("--warn");
    reveal_strlit("--error");
    reveal_strlit("--success");
    reveal_strlit("--ampel-green");
    reveal_strlit("--ampel-yellow");
    reveal_strlit("--ampel-red");
    let t = trim_start(l);
    let m = semantic_var_names()[j].push(':');
    let b = "--brand"@.push(':');
    let c = "--accent"@.push(':');
    assert(t.subrange(0, m.len() as int) == m);
    if starts_with(t, b) {
        assert(t.subrange(0, b.len() as int) == b);
        assert(t[2] == b[2] && t[2] == m[2]);
        assert(t[3] == b[3] && t[3] == m[3]);
        assert(false);
    }
    if starts_with(t, c) {
        assert(t.subrange(0, c.len() as int) == c);
        assert(t[2] == c[2] && t[2] == m[2]);
        assert(t[3] == c[3] && t[3] == m[3]);
        assert(false);
    }
}

} // verus!
