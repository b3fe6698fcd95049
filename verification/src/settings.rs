//! Live application settings: the single in-memory source of truth for the
//! toggles, the glow intensity, the search engine, the hardening level, the
//! reported-screen preset and identity rotation, together with a mirror of
//! the persisted key/value rows.
//!
//! Every setter validates against its allowlist, updates the live value,
//! records the row to persist (drained by the caller with [`take_writes`])
//! and returns the JSON reply for the settings page.

use vstd::prelude::*;
use crate::harden::{level_of_word, word_of_level, Level};
use crate::text::{chars_of, decimal, parse_unsigned, parse_unsigned_chars, push_decimal, push_str, str_eq};

verus! {

broadcast use vstd::string::group_string_axioms;

/// Settings keys the internal view may read and write.
pub const KEY_FEATHER_EDGES: &'static str = "feather_edges";
/// The background on/off toggle (whichever background the template selects).
pub const KEY_ANIMATED_BACKGROUND: &'static str = "animated_background";
pub const KEY_STAY_FOREGROUND: &'static str = "stay_foreground";
pub const KEY_GLOW_INTENSITY: &'static str = "glow_intensity";
/// The command-bar search-engine choice.
pub const KEY_SEARCH_ENGINE: &'static str = "search_engine";
/// Per-window Tor: the engine master switch and the new-window default.
pub const KEY_TOR_ENABLED: &'static str = "tor_enabled";
pub const KEY_TOR_DEFAULT: &'static str = "tor_default";
/// Global fingerprinting-hardening preset and custom per-vector flags.
pub const KEY_HARDENING_LEVEL: &'static str = "hardening_level";
pub const KEY_HARDENING_CUSTOM: &'static str = "hardening_custom";
/// Global reported-screen-size preset.
pub const KEY_SCREEN_PRESET: &'static str = "screen_preset";
/// Per-session identity rotation.
pub const KEY_ROTATE_ON_RESTART: &'static str = "rotate_on_restart";
pub const KEY_ROTATE_AUTO: &'static str = "rotate_auto";
pub const KEY_ROTATE_NEW_CIRCUIT: &'static str = "rotate_new_circuit";
pub const KEY_ROTATE_INTERVAL: &'static str = "rotate_interval_min";
/// The persisted global identity seed (a stable cross-launch identity).
pub const KEY_IDENTITY_SEED: &'static str = "identity_seed";
/// The persisted seed's mint time (unix epoch ms).
pub const KEY_IDENTITY_SEED_BORN: &'static str = "identity_seed_born";

/// Glow-intensity slider bounds (percent).
pub const GLOW_MIN: u32 = 50;
pub const GLOW_MAX: u32 = 220;
/// Automatic-rotation interval bounds (whole minutes).
pub const ROTATE_INTERVAL_MIN_BOUND: u32 = 1;
pub const ROTATE_INTERVAL_MAX_BOUND: u32 = 180;
/// The factory-default engine id: DuckDuckGo.
pub const DEFAULT_ENGINE: u8 = 1;
/// The factory-default reported screen preset: 1920x1080.
pub const DEFAULT_SCREEN_PRESET: u8 = 2;
/// The factory-default automatic-rotation interval.
pub const DEFAULT_ROTATE_INTERVAL: u32 = 15;

// --- Search engines ----------------------------------------------------------

/// The allowlisted engine names and their ids.
pub open spec fn engine_of_word(w: Seq<char>) -> Option<u8> {
    if w == "google"@ {
        Some(0u8)
    } else if w == "duckduckgo"@ {
        Some(1u8)
    } else if w == "bing"@ {
        Some(2u8)
    } else if w == "startpage"@ {
        Some(3u8)
    } else if w == "brave"@ {
        Some(4u8)
    } else {
        None
    }
}

/// The engine name of an id; the default and any unknown id are DuckDuckGo.
pub open spec fn engine_word(id: u8) -> Seq<char> {
    if id == 0 {
        "google"@
    } else if id == 2 {
        "bing"@
    } else if id == 3 {
        "startpage"@
    } else if id == 4 {
        "brave"@
    } else {
        "duckduckgo"@
    }
}

/// Map an engine name to its id; anything outside the allowlist is refused.
pub fn engine_id(value: &str) -> (r: Option<u8>)
    ensures
        r == engine_of_word(value@),
{
    if str_eq(value, "google") {
        Some(0)
    } else if str_eq(value, "duckduckgo") {
        Some(1)
    } else if str_eq(value, "bing") {
        Some(2)
    } else if str_eq(value, "startpage") {
        Some(3)
    } else if str_eq(value, "brave") {
        Some(4)
    } else {
        None
    }
}

/// The engine name of an id (never silently Google for an unknown id).
pub fn engine_name(id: u8) -> (s: &'static str)
    ensures
        s@ == engine_word(id),
{
    if id == 0 {
        "google"
    } else if id == 2 {
        "bing"
    } else if id == 3 {
        "startpage"
    } else if id == 4 {
        "brave"
    } else {
        "duckduckgo"
    }
}

// --- Hardening level codes ---------------------------------------------------

/// The small numeric code a level is held as.
pub open spec fn code_of_level(l: Level) -> u8 {
    match l {
        Level::Off => 0,
        Level::Green => 1,
        Level::Yellow => 2,
        Level::Red => 3,
        Level::Custom => 4,
    }
}

/// The level of a code; the default and any out-of-range code are Green.
pub open spec fn level_of_code(c: u8) -> Level {
    if c == 0 {
        Level::Off
    } else if c == 2 {
        Level::Yellow
    } else if c == 3 {
        Level::Red
    } else if c == 4 {
        Level::Custom
    } else {
        Level::Green
    }
}

pub fn level_code(l: Level) -> (c: u8)
    ensures
        c == code_of_level(l),
{
    match l {
        Level::Off => 0,
        Level::Green => 1,
        Level::Yellow => 2,
        Level::Red => 3,
        Level::Custom => 4,
    }
}

pub fn level_from_code(c: u8) -> (l: Level)
    ensures
        l == level_of_code(c),
{
    if c == 0 {
        Level::Off
    } else if c == 2 {
        Level::Yellow
    } else if c == 3 {
        Level::Red
    } else if c == 4 {
        Level::Custom
    } else {
        Level::Green
    }
}

/// The level a persisted value boots as: the Red bunker (with its window
/// lock) is an in-session choice only, so a persisted Red boots as Yellow;
/// every other level boots as saved.
pub open spec fn boot_of(l: Level) -> Level {
    if l == Level::Red {
        Level::Yellow
    } else {
        l
    }
}

pub fn boot_level(persisted: Level) -> (l: Level)
    ensures
        l == boot_of(persisted),
{
    match persisted {
        Level::Red => Level::Yellow,
        other => other,
    }
}

// --- Reported screen presets -------------------------------------------------

/// The allowlisted screen preset names and their codes.
pub open spec fn screen_of_word(w: Seq<char>) -> Option<u8> {
    if w == "1280x720"@ {
        Some(0u8)
    } else if w == "1600x900"@ {
        Some(1u8)
    } else if w == "1920x1080"@ {
        Some(2u8)
    } else {
        None
    }
}

/// The preset name of a code; the default and any unknown code are 1080p.
pub open spec fn screen_word(code: u8) -> Seq<char> {
    if code == 0 {
        "1280x720"@
    } else if code == 1 {
        "1600x900"@
    } else {
        "1920x1080"@
    }
}

/// The (width, height) of a preset code in CSS px.
pub open spec fn screen_size(code: u8) -> (u32, u32) {
    if code == 0 {
        (1280u32, 720u32)
    } else if code == 1 {
        (1600u32, 900u32)
    } else {
        (1920u32, 1080u32)
    }
}

/// Map a screen-preset name to its code (allowlist).
pub fn screen_code(name: &str) -> (r: Option<u8>)
    ensures
        r == screen_of_word(name@),
{
    if str_eq(name, "1280x720") {
        Some(0)
    } else if str_eq(name, "1600x900") {
        Some(1)
    } else if str_eq(name, "1920x1080") {
        Some(2)
    } else {
        None
    }
}

pub fn screen_name(code: u8) -> (s: &'static str)
    ensures
        s@ == screen_word(code),
{
    if code == 0 {
        "1280x720"
    } else if code == 1 {
        "1600x900"
    } else {
        "1920x1080"
    }
}

pub fn screen_dims(code: u8) -> (d: (u32, u32))
    ensures
        d == screen_size(code),
{
    if code == 0 {
        (1280, 720)
    } else if code == 1 {
        (1600, 900)
    } else {
        (1920, 1080)
    }
}

// --- The persisted-row mirror --------------------------------------------------

/// The value stored under `k` in `rows` (the last write wins).
pub open spec fn lookup(rows: Seq<(Seq<char>, Seq<char>)>, k: Seq<char>) -> Option<Seq<char>>
    decreases rows.len(),
{
    if rows.len() == 0 {
        None
    } else if rows.last().0 == k {
        Some(rows.last().1)
    } else {
        lookup(rows.drop_last(), k)
    }
}

/// Character views of key/value rows.
pub open spec fn row_views(rows: Seq<(String, String)>) -> Seq<(Seq<char>, Seq<char>)> {
    rows.map_values(|r: (String, String)| (r.0@, r.1@))
}

/// A stored boolean: `"true"` is true, any other stored text is false, and
/// an absent row gives `default`.
pub open spec fn bool_setting(v: Option<Seq<char>>, default: bool) -> bool {
    match v {
        Some(t) => t == "true"@,
        None => default,
    }
}

/// `x` clamped to `[lo, hi]`.
pub open spec fn clamp(x: int, lo: int, hi: int) -> int {
    if x < lo {
        lo
    } else if x > hi {
        hi
    } else {
        x
    }
}

/// The mirror of the persisted settings rows, with the rows written since
/// they were last handed to the store.
pub struct Rows {
    rows: Vec<(String, String)>,
    pending: Vec<(String, String)>,
}

impl Rows {
    /// The value stored under key `k`.
    pub closed spec fn stored(&self, k: Seq<char>) -> Option<Seq<char>> {
        lookup(row_views(self.rows@), k)
    }

    /// The rows written since the last [`Rows::take_writes`], oldest first.
    pub closed spec fn writes(&self) -> Seq<(Seq<char>, Seq<char>)> {
        row_views(self.pending@)
    }

    /// A mirror of the rows `loaded` from the store (a later row for the same
    /// key wins), with nothing yet to write.
    pub fn from_loaded(loaded: Vec<(String, String)>) -> (r: Rows)
        ensures
            forall|k: Seq<char>| r.stored(k) == lookup(row_views(loaded@), k),
            r.writes() == Seq::<(Seq<char>, Seq<char>)>::empty(),
    {
        let r = Rows { rows: loaded, pending: Vec::new() };
        assert(row_views(r.pending@) =~= Seq::<(Seq<char>, Seq<char>)>::empty());
        r
    }

    /// The value stored under `key`.
    pub fn get(&self, key: &str) -> (r: Option<String>)
        ensures
            match self.stored(key@) {
                Some(v) => r matches Some(x) && x@ == v,
                None => r is None,
            },
    {
        let mut i: usize = self.rows.len();
        assert(row_views(self.rows@).take(i as int) =~= row_views(self.rows@));
        while i > 0
            invariant
                i <= self.rows@.len(),
                lookup(row_views(self.rows@), key@) == lookup(row_views(self.rows@).take(i as int), key@),
            decreases i,
        {
            let ghost rv = row_views(self.rows@).take(i as int);
            assert(rv.drop_last() =~= row_views(self.rows@).take(i - 1));
            if str_eq(self.rows[i - 1].0.as_str(), key) {
                return Some(self.rows[i - 1].1.clone());
            }
            i = i - 1;
        }
        None
    }

    /// Store `value` under `key` and remember the write for the store.
    pub fn set(&mut self, key: &str, value: String)
        ensures
            final(self).stored(key@) == Some(value@),
            forall|k: Seq<char>| k != key@ ==> final(self).stored(k) == old(self).stored(k),
            final(self).writes() == old(self).writes().push((key@, value@)),
    {
        let k = String::from_str(key);
        let ghost old_rows = row_views(self.rows@);
        let ghost old_pending = row_views(self.pending@);
        self.rows.push((k.clone(), value.clone()));
        self.pending.push((k, value));
        assert(row_views(self.rows@) =~= old_rows.push((key@, value@)));
        assert(row_views(self.rows@).drop_last() =~= old_rows);
        assert(row_views(self.pending@) =~= old_pending.push((key@, value@)));
    }

    /// Hand over the rows written since the last call (the caller persists
    /// them, in order) and forget them.
    pub fn take_writes(&mut self) -> (w: Vec<(String, String)>)
        ensures
            row_views(w@) == old(self).writes(),
            final(self).writes() == Seq::<(Seq<char>, Seq<char>)>::empty(),
            forall|k: Seq<char>| final(self).stored(k) == old(self).stored(k),
    {
        let mut w: Vec<(String, String)> = Vec::new();
        std::mem::swap(&mut w, &mut self.pending);
        assert(row_views(self.pending@) =~= Seq::<(Seq<char>, Seq<char>)>::empty());
        w
    }
}

/// `v`, or `d` when `v` is absent.
pub open spec fn or_default(v: Option<Seq<char>>, d: Seq<char>) -> Seq<char> {
    match v {
        Some(t) => t,
        None => d,
    }
}

/// The search engine after seeding: the stored one (DuckDuckGo when none),
/// with a seeded Google row moved to DuckDuckGo once, before the one-time
/// migration has run (`migrated` false).
pub open spec fn seeded_engine(stored: Option<Seq<char>>, migrated: bool) -> Seq<char> {
    let e = or_default(stored, "duckduckgo"@);
    if !migrated && e == "google"@ {
        "duckduckgo"@
    } else {
        e
    }
}

fn set_if_absent(rows: &mut Rows, key: &str, value: &str)
    ensures
        final(rows).stored(key@) == Some(or_default(old(rows).stored(key@), value@)),
        forall|k: Seq<char>| k != key@ ==> #[trigger] final(rows).stored(k) == old(rows).stored(k),
{
    match rows.get(key) {
        Some(_) => {},
        None => rows.set(key, String::from_str(value)),
    }
}

/// Fill in the factory defaults a store must hold: each of the seeded keys
/// keeps its value when present, else gets its default; the background
/// toggle takes over a value stored under its former name `deep_field`;
/// and, unless the one-time search-engine migration has already run
/// (`migrated`), a Google row becomes DuckDuckGo. Every other key is left
/// as it was. The migration counts as run afterwards.
pub fn seed_defaults(rows: &mut Rows, migrated: bool)
    ensures
        ({
            let o = |k: Seq<char>| old(rows).stored(k);
            let n = |k: Seq<char>| final(rows).stored(k);
            &&& n(KEY_FEATHER_EDGES@) == Some(or_default(o(KEY_FEATHER_EDGES@), "true"@))
            &&& n(KEY_ANIMATED_BACKGROUND@) == Some(or_default(o(KEY_ANIMATED_BACKGROUND@), or_default(o("deep_field"@), "true"@)))
            &&& n(KEY_STAY_FOREGROUND@) == Some(or_default(o(KEY_STAY_FOREGROUND@), "true"@))
            &&& n(KEY_SEARCH_ENGINE@) == Some(seeded_engine(o(KEY_SEARCH_ENGINE@), migrated))
            &&& n(KEY_TOR_ENABLED@) == Some(or_default(o(KEY_TOR_ENABLED@), "true"@))
            &&& n(KEY_TOR_DEFAULT@) == Some(or_default(o(KEY_TOR_DEFAULT@), "false"@))
            &&& n(KEY_HARDENING_LEVEL@) == Some(or_default(o(KEY_HARDENING_LEVEL@), "standard"@))
            &&& forall|k: Seq<char>|
                k != KEY_FEATHER_EDGES@ && k != KEY_ANIMATED_BACKGROUND@ && k != KEY_STAY_FOREGROUND@
                    && k != KEY_SEARCH_ENGINE@ && k != KEY_TOR_ENABLED@ && k != KEY_TOR_DEFAULT@
                    && k != KEY_HARDENING_LEVEL@ ==> #[trigger] final(rows).stored(k) == old(rows).stored(k)
        }),
{
    proof {
        lemma_seeded_keys_differ();
    }
    set_if_absent(rows, KEY_FEATHER_EDGES, "true");
    match rows.get(KEY_ANIMATED_BACKGROUND) {
        Some(_) => {},
        None => {
            let prev = rows.get("deep_field");
            match prev {
                Some(v) => rows.set(KEY_ANIMATED_BACKGROUND, v),
                None => rows.set(KEY_ANIMATED_BACKGROUND, String::from_str("true")),
            }
        },
    }
    set_if_absent(rows, KEY_STAY_FOREGROUND, "true");
    set_if_absent(rows, KEY_SEARCH_ENGINE, "duckduckgo");
    if !migrated {
        match rows.get(KEY_SEARCH_ENGINE) {
            Some(v) => {
                if str_eq(v.as_str(), "google") {
                    rows.set(KEY_SEARCH_ENGINE, String::from_str("duckduckgo"));
                }
            },
            None => {},
        }
    }
    set_if_absent(rows, KEY_TOR_ENABLED, "true");
    set_if_absent(rows, KEY_TOR_DEFAULT, "false");
    set_if_absent(rows, KEY_HARDENING_LEVEL, "standard");
}

/// A fresh or upgraded store never boots searching Google unless Google was
/// chosen after the one-time migration ran.
pub proof fn law_seeding_never_defaults_to_google(stored: Option<Seq<char>>, migrated: bool)
    ensures
        stored is None ==> seeded_engine(stored, migrated) == "duckduckgo"@,
        !migrated ==> seeded_engine(stored, migrated) != "google"@,
        migrated && stored is Some ==> seeded_engine(stored, migrated) == stored.unwrap(),
{
    reveal_strlit("duckduckgo");
    reveal_strlit("google");
    assert("duckduckgo"@.len() != "google"@.len());
}

/// The live settings and the mirror of the persisted rows.
pub struct Settings {
    pub feather_edges: bool,
    pub animated_background: bool,
    pub stay_foreground: bool,
    /// Glow intensity as a whole percent (`GLOW_MIN..=GLOW_MAX`).
    pub glow_intensity: u32,
    /// Search engine id (0 google, 1 duckduckgo, 2 bing, 3 startpage, 4 brave).
    pub search_engine: u8,
    pub tor_enabled: bool,
    pub tor_default: bool,
    /// Hardening level code (0 off, 1 green, 2 yellow, 3 red, 4 custom).
    pub hardening_level: u8,
    /// Reported screen preset code.
    pub screen_preset: u8,
    pub rotate_on_restart: bool,
    pub rotate_auto: bool,
    pub rotate_new_circuit: bool,
    pub rotate_interval_min: u32,
    /// The persisted rows.
    pub rows: Rows,
}

impl Settings {
    /// The values a process starts with before the store is read.
    pub fn new() -> (s: Settings)
        ensures
            s.feather_edges && s.animated_background && s.stay_foreground,
            s.glow_intensity == 115,
            s.search_engine == DEFAULT_ENGINE,
            s.tor_enabled && !s.tor_default,
            s.hardening_level == 1,
            s.screen_preset == DEFAULT_SCREEN_PRESET,
            s.rotate_on_restart && !s.rotate_auto && !s.rotate_new_circuit,
            s.rotate_interval_min == DEFAULT_ROTATE_INTERVAL,
            forall|k: Seq<char>| s.rows.stored(k) is None,
            s.rows.writes() == Seq::<(Seq<char>, Seq<char>)>::empty(),
    {
        let rows = Rows::from_loaded(Vec::new());
        Settings {
            feather_edges: true,
            animated_background: true,
            stay_foreground: true,
            glow_intensity: 115,
            search_engine: DEFAULT_ENGINE,
            tor_enabled: true,
            tor_default: false,
            hardening_level: 1,
            screen_preset: DEFAULT_SCREEN_PRESET,
            rotate_on_restart: true,
            rotate_auto: false,
            rotate_new_circuit: false,
            rotate_interval_min: DEFAULT_ROTATE_INTERVAL,
            rows,
        }
    }
}

/// The number stored under a key, when it parses as a `u32`.
pub open spec fn stored_u32(v: Option<Seq<char>>) -> Option<nat> {
    match v {
        Some(t) => parse_unsigned(t, u32::MAX as nat),
        None => None,
    }
}

/// The engine id a stored engine name boots as (DuckDuckGo when absent or
/// not on the allowlist).
pub open spec fn boot_engine(v: Option<Seq<char>>) -> u8 {
    match v {
        Some(t) => match engine_of_word(t) {
            Some(id) => id,
            None => DEFAULT_ENGINE,
        },
        None => DEFAULT_ENGINE,
    }
}

/// The level a stored level word boots as (Green when absent or unknown).
pub open spec fn boot_hardening(v: Option<Seq<char>>) -> Level {
    match v {
        Some(t) => match level_of_word(t) {
            Some(l) => boot_of(l),
            None => Level::Green,
        },
        None => Level::Green,
    }
}

/// The screen preset a stored preset name boots as (1080p when absent or
/// unknown).
pub open spec fn boot_screen(v: Option<Seq<char>>) -> u8 {
    match v {
        Some(t) => match screen_of_word(t) {
            Some(c) => c,
            None => DEFAULT_SCREEN_PRESET,
        },
        None => DEFAULT_SCREEN_PRESET,
    }
}

/// A number read from the store, or `fallback`, clamped to `[lo, hi]`.
pub open spec fn boot_number(v: Option<Seq<char>>, fallback: int, lo: int, hi: int) -> int {
    match stored_u32(v) {
        Some(n) => clamp(n as int, lo, hi),
        None => clamp(fallback, lo, hi),
    }
}

fn stored_bool(rows: &Rows, key: &str, default: bool) -> (b: bool)
    ensures
        b == bool_setting(rows.stored(key@), default),
{
    match rows.get(key) {
        Some(v) => str_eq(v.as_str(), "true"),
        None => default,
    }
}

fn stored_number(rows: &Rows, key: &str) -> (r: Option<u32>)
    ensures
        match stored_u32(rows.stored(key@)) {
            Some(n) => r == Some(n as u32),
            None => r is None,
        },
{
    match rows.get(key) {
        Some(v) => {
            let cs = chars_of(v.as_str());
            match parse_unsigned_chars(cs.as_slice(), 0xffff_ffff) {
                Some(n) => Some(n as u32),
                None => None,
            }
        },
        None => None,
    }
}

/// The settings a launch starts with, read from the rows `loaded` from the
/// store. Absent or unreadable values take their factory defaults; the glow
/// falls back to `default_glow` (the theme's), and both numbers are clamped
/// to their bounds. A persisted Red level boots as Yellow.
pub fn init(loaded: Vec<(String, String)>, default_glow: i64) -> (s: Settings)
    ensures
        ({
            let rv = row_views(loaded@);
            &&& s.feather_edges == bool_setting(lookup(rv, KEY_FEATHER_EDGES@), true)
            &&& s.animated_background == bool_setting(lookup(rv, KEY_ANIMATED_BACKGROUND@), true)
            &&& s.stay_foreground == bool_setting(lookup(rv, KEY_STAY_FOREGROUND@), true)
            &&& s.glow_intensity == boot_number(lookup(rv, KEY_GLOW_INTENSITY@), default_glow as int, 50, 220)
            &&& s.search_engine == boot_engine(lookup(rv, KEY_SEARCH_ENGINE@))
            &&& s.tor_enabled == bool_setting(lookup(rv, KEY_TOR_ENABLED@), true)
            &&& s.tor_default == bool_setting(lookup(rv, KEY_TOR_DEFAULT@), false)
            &&& s.hardening_level == code_of_level(boot_hardening(lookup(rv, KEY_HARDENING_LEVEL@)))
            &&& s.screen_preset == boot_screen(lookup(rv, KEY_SCREEN_PRESET@))
            &&& s.rotate_on_restart == bool_setting(lookup(rv, KEY_ROTATE_ON_RESTART@), true)
            &&& s.rotate_auto == bool_setting(lookup(rv, KEY_ROTATE_AUTO@), false)
            &&& s.rotate_new_circuit == bool_setting(lookup(rv, KEY_ROTATE_NEW_CIRCUIT@), false)
            &&& s.rotate_interval_min == boot_number(lookup(rv, KEY_ROTATE_INTERVAL@), 15, 1, 180)
            &&& forall|k: Seq<char>| s.rows.stored(k) == lookup(rv, k)
            &&& s.rows.writes() == Seq::<(Seq<char>, Seq<char>)>::empty()
        }),
{
    let rows = Rows::from_loaded(loaded);
    let glow = match stored_number(&rows, KEY_GLOW_INTENSITY) {
        Some(n) => clamp_i64(n as i64, GLOW_MIN, GLOW_MAX),
        None => clamp_i64(default_glow, GLOW_MIN, GLOW_MAX),
    };
    let engine = match rows.get(KEY_SEARCH_ENGINE) {
        Some(v) => match engine_id(v.as_str()) {
            Some(id) => id,
            None => DEFAULT_ENGINE,
        },
        None => DEFAULT_ENGINE,
    };
    let level = match rows.get(KEY_HARDENING_LEVEL) {
        Some(v) => match Level::parse(v.as_str()) {
            Some(l) => boot_level(l),
            None => Level::Green,
        },
        None => Level::Green,
    };
    let screen = match rows.get(KEY_SCREEN_PRESET) {
        Some(v) => match screen_code(v.as_str()) {
            Some(c) => c,
            None => DEFAULT_SCREEN_PRESET,
        },
        None => DEFAULT_SCREEN_PRESET,
    };
    let interval = match stored_number(&rows, KEY_ROTATE_INTERVAL) {
        Some(n) => clamp_i64(n as i64, ROTATE_INTERVAL_MIN_BOUND, ROTATE_INTERVAL_MAX_BOUND),
        None => clamp_i64(
            DEFAULT_ROTATE_INTERVAL as i64,
            ROTATE_INTERVAL_MIN_BOUND,
            ROTATE_INTERVAL_MAX_BOUND,
        ),
    };
    Settings {
        feather_edges: stored_bool(&rows, KEY_FEATHER_EDGES, true),
        animated_background: stored_bool(&rows, KEY_ANIMATED_BACKGROUND, true),
        stay_foreground: stored_bool(&rows, KEY_STAY_FOREGROUND, true),
        glow_intensity: glow,
        search_engine: engine,
        tor_enabled: stored_bool(&rows, KEY_TOR_ENABLED, true),
        tor_default: stored_bool(&rows, KEY_TOR_DEFAULT, false),
        hardening_level: level_code(level),
        screen_preset: screen,
        rotate_on_restart: stored_bool(&rows, KEY_ROTATE_ON_RESTART, true),
        rotate_auto: stored_bool(&rows, KEY_ROTATE_AUTO, false),
        rotate_new_circuit: stored_bool(&rows, KEY_ROTATE_NEW_CIRCUIT, false),
        rotate_interval_min: interval,
        rows,
    }
}

/// `new` is `old` with `k` set to `v` and that write recorded.
pub open spec fn wrote(old: Rows, new: Rows, k: Seq<char>, v: Seq<char>) -> bool {
    &&& new.stored(k) == Some(v)
    &&& forall|k2: Seq<char>| k2 != k ==> new.stored(k2) == old.stored(k2)
    &&& new.writes() == old.writes().push((k, v))
}

/// `true` or `false`, as JSON writes them.
pub open spec fn bool_text(b: bool) -> Seq<char> {
    if b {
        "true"@
    } else {
        "false"@
    }
}

/// The success reply for a setting whose value is a JSON string.
pub open spec fn reply_quoted(key: Seq<char>, value: Seq<char>) -> Seq<char> {
    "{\"ok\":true,\"key\":\""@ + key + "\",\"value\":\""@ + value + "\"}"@
}

/// The success reply for a setting whose value is a bare JSON literal.
pub open spec fn reply_bare(key: Seq<char>, raw: Seq<char>) -> Seq<char> {
    "{\"ok\":true,\"key\":\""@ + key + "\",\"value\":"@ + raw + "}"@
}

fn reply_quoted_text(key: &str, value: &str) -> (r: String)
    ensures
        r@ == reply_quoted(key@, value@),
{
    let mut r = String::from_str("{\"ok\":true,\"key\":\"");
    push_str(&mut r, key);
    push_str(&mut r, "\",\"value\":\"");
    push_str(&mut r, value);
    push_str(&mut r, "\"}");
    r
}

fn reply_number_text(key: &str, n: u64) -> (r: String)
    ensures
        r@ == reply_bare(key@, decimal(n as nat)),
{
    let mut r = String::from_str("{\"ok\":true,\"key\":\"");
    push_str(&mut r, key);
    push_str(&mut r, "\",\"value\":");
    push_decimal(&mut r, n);
    push_str(&mut r, "}");
    r
}

fn bool_word(b: bool) -> (s: &'static str)
    ensures
        s@ == bool_text(b),
{
    if b {
        "true"
    } else {
        "false"
    }
}

fn decimal_string(n: u64) -> (s: String)
    ensures
        s@ == decimal(n as nat),
{
    let mut s = String::new();
    push_decimal(&mut s, n);
    s
}

/// The selected search engine's name.
pub fn search_engine(s: &Settings) -> (r: &'static str)
    ensures
        r@ == engine_word(s.search_engine),
{
    engine_name(s.search_engine)
}

/// The global hardening level a window inherits.
pub fn hardening_level(s: &Settings) -> (l: Level)
    ensures
        l == level_of_code(s.hardening_level),
{
    level_from_code(s.hardening_level)
}

/// The global reported-screen preset code.
pub fn screen_preset_code(s: &Settings) -> (c: u8)
    ensures
        c == s.screen_preset,
{
    s.screen_preset
}

/// The global reported-screen preset name.
pub fn screen_preset_name(s: &Settings) -> (r: &'static str)
    ensures
        r@ == screen_word(s.screen_preset),
{
    screen_name(s.screen_preset)
}

/// The global reported-screen preset dimensions.
pub fn screen_preset_dims(s: &Settings) -> (d: (u32, u32))
    ensures
        d == screen_size(s.screen_preset),
{
    screen_dims(s.screen_preset)
}

/// `new` and the reply `r` are what applying the screen preset `value` to
/// `old` gives: on the allowlist it is set and persisted, else refused with
/// nothing changed.
pub open spec fn screen_applied(old: Settings, new: Settings, value: Seq<char>, r: Result<String, String>) -> bool {
    match screen_of_word(value) {
        Some(c) => {
            &&& r matches Ok(t) && t@ == reply_quoted(KEY_SCREEN_PRESET@, value)
            &&& new == (Settings { screen_preset: c, rows: new.rows, ..old })
            &&& wrote(old.rows, new.rows, KEY_SCREEN_PRESET@, value)
        },
        None => {
            &&& r matches Err(e) && e@ == "unknown screen preset: "@ + value
            &&& new == old
        },
    }
}

/// Apply and persist the global reported-screen preset (allowlisted).
pub fn set_screen_preset(s: &mut Settings, value: &str) -> (r: Result<String, String>)
    ensures
        screen_applied(*old(s), *final(s), value@, r),
{
    match screen_code(value) {
        Some(code) => {
            s.screen_preset = code;
            s.rows.set(KEY_SCREEN_PRESET, String::from_str(value));
            Ok(reply_quoted_text(KEY_SCREEN_PRESET, value))
        },
        None => {
            let mut e = String::from_str("unknown screen preset: ");
            push_str(&mut e, value);
            Err(e)
        },
    }
}

/// Fresh global identity each launch?
pub fn rotate_on_restart(s: &Settings) -> (b: bool)
    ensures
        b == s.rotate_on_restart,
{
    s.rotate_on_restart
}

/// Automatic identity rotation on?
pub fn rotate_auto(s: &Settings) -> (b: bool)
    ensures
        b == s.rotate_auto,
{
    s.rotate_auto
}

/// Also rotate the Tor circuits on a rotation?
pub fn rotate_new_circuit(s: &Settings) -> (b: bool)
    ensures
        b == s.rotate_new_circuit,
{
    s.rotate_new_circuit
}

/// The automatic-rotation interval in whole minutes.
pub fn rotate_interval_min(s: &Settings) -> (m: u32)
    ensures
        m == s.rotate_interval_min,
{
    s.rotate_interval_min
}

fn clamp_i64(x: i64, lo: u32, hi: u32) -> (r: u32)
    requires
        lo <= hi,
    ensures
        r == clamp(x as int, lo as int, hi as int),
{
    if x < lo as i64 {
        lo
    } else if x > hi as i64 {
        hi
    } else {
        x as u32
    }
}

/// `new` and `r` are what setting the rotation interval to `minutes`
/// (clamped to its bounds) in `old` gives.
pub open spec fn interval_applied(old: Settings, new: Settings, minutes: int, r: Result<String, String>) -> bool {
    let m = clamp(minutes, 1, 180) as u32;
    &&& r matches Ok(t) && t@ == reply_bare(KEY_ROTATE_INTERVAL@, decimal(m as nat))
    &&& new == (Settings { rotate_interval_min: m, rows: new.rows, ..old })
    &&& wrote(old.rows, new.rows, KEY_ROTATE_INTERVAL@, decimal(m as nat))
}

/// Apply and persist the automatic-rotation interval (clamped to the bounds).
pub fn set_rotate_interval(s: &mut Settings, minutes: i64) -> (r: Result<String, String>)
    ensures
        interval_applied(*old(s), *final(s), minutes as int, r),
{
    let m = clamp_i64(minutes, ROTATE_INTERVAL_MIN_BOUND, ROTATE_INTERVAL_MAX_BOUND);
    s.rotate_interval_min = m;
    s.rows.set(KEY_ROTATE_INTERVAL, decimal_string(m as u64));
    Ok(reply_number_text(KEY_ROTATE_INTERVAL, m as u64))
}

/// The persisted global identity seed, if any.
pub fn persisted_identity_seed(s: &Settings) -> (r: Option<String>)
    ensures
        match s.rows.stored(KEY_IDENTITY_SEED@) {
            Some(v) => r matches Some(x) && x@ == v,
            None => r is None,
        },
{
    s.rows.get(KEY_IDENTITY_SEED)
}

/// Persist the global identity seed.
pub fn store_identity_seed(s: &mut Settings, seed: &str)
    ensures
        *final(s) == (Settings { rows: final(s).rows, ..*old(s) }),
        wrote(old(s).rows, final(s).rows, KEY_IDENTITY_SEED@, seed@),
{
    s.rows.set(KEY_IDENTITY_SEED, String::from_str(seed));
}

/// The persisted seed's mint time (unix epoch ms), when stored and numeric.
pub fn persisted_identity_born(s: &Settings) -> (r: Option<u64>)
    ensures
        r == match s.rows.stored(KEY_IDENTITY_SEED_BORN@) {
            Some(v) => match parse_unsigned(v, u64::MAX as nat) {
                Some(n) => Some(n as u64),
                None => None,
            },
            None => None,
        },
{
    match s.rows.get(KEY_IDENTITY_SEED_BORN) {
        Some(v) => {
            let cs = chars_of(v.as_str());
            parse_unsigned_chars(cs.as_slice(), u64::MAX)
        },
        None => None,
    }
}

/// Persist the seed's mint time alongside the seed.
pub fn store_identity_born(s: &mut Settings, ms: u64)
    ensures
        *final(s) == (Settings { rows: final(s).rows, ..*old(s) }),
        wrote(old(s).rows, final(s).rows, KEY_IDENTITY_SEED_BORN@, decimal(ms as nat)),
{
    s.rows.set(KEY_IDENTITY_SEED_BORN, decimal_string(ms));
}

/// Is the Tor engine available (the master switch)?
pub fn tor_enabled(s: &Settings) -> (b: bool)
    ensures
        b == s.tor_enabled,
{
    s.tor_enabled
}

/// Should a new window open in Tor? Only when the engine is enabled.
pub fn tor_default(s: &Settings) -> (b: bool)
    ensures
        b == (s.tor_enabled && s.tor_default),
{
    s.tor_enabled && s.tor_default
}

pub fn feather_edges(s: &Settings) -> (b: bool)
    ensures
        b == s.feather_edges,
{
    s.feather_edges
}

pub fn animated_background(s: &Settings) -> (b: bool)
    ensures
        b == s.animated_background,
{
    s.animated_background
}

pub fn stay_foreground(s: &Settings) -> (b: bool)
    ensures
        b == s.stay_foreground,
{
    s.stay_foreground
}

/// Glow intensity as a whole percent.
pub fn glow_intensity_percent(s: &Settings) -> (p: u32)
    ensures
        p == s.glow_intensity,
{
    s.glow_intensity
}

/// `new` and `r` are what setting the glow to `percent` (clamped to the
/// slider bounds) in `old` gives.
pub open spec fn glow_applied(old: Settings, new: Settings, percent: int, r: Result<String, String>) -> bool {
    let g = clamp(percent, 50, 220) as u32;
    &&& r matches Ok(t) && t@ == reply_bare(KEY_GLOW_INTENSITY@, decimal(g as nat))
    &&& new == (Settings { glow_intensity: g, rows: new.rows, ..old })
    &&& wrote(old.rows, new.rows, KEY_GLOW_INTENSITY@, decimal(g as nat))
}

/// Apply and persist the glow intensity (clamped to the slider bounds).
pub fn set_glow_intensity(s: &mut Settings, percent: i64) -> (r: Result<String, String>)
    ensures
        glow_applied(*old(s), *final(s), percent as int, r),
{
    let g = clamp_i64(percent, GLOW_MIN, GLOW_MAX);
    s.glow_intensity = g;
    s.rows.set(KEY_GLOW_INTENSITY, decimal_string(g as u64));
    Ok(reply_number_text(KEY_GLOW_INTENSITY, g as u64))
}

/// `new` and `r` are what choosing the search engine `value` in `old`
/// gives: on the allowlist it is set and persisted, else refused with
/// nothing changed.
pub open spec fn engine_applied(old: Settings, new: Settings, value: Seq<char>, r: Result<String, String>) -> bool {
    match engine_of_word(value) {
        Some(id) => {
            &&& r matches Ok(t) && t@ == reply_quoted(KEY_SEARCH_ENGINE@, value)
            &&& new == (Settings { search_engine: id, rows: new.rows, ..old })
            &&& wrote(old.rows, new.rows, KEY_SEARCH_ENGINE@, value)
        },
        None => {
            &&& r matches Err(e) && e@ == "unknown search engine: "@ + value
            &&& new == old
        },
    }
}

/// Apply and persist the search engine (allowlisted).
pub fn set_search_engine(s: &mut Settings, value: &str) -> (r: Result<String, String>)
    ensures
        engine_applied(*old(s), *final(s), value@, r),
{
    match engine_id(value) {
        Some(id) => {
            s.search_engine = id;
            s.rows.set(KEY_SEARCH_ENGINE, String::from_str(value));
            Ok(reply_quoted_text(KEY_SEARCH_ENGINE, value))
        },
        None => {
            let mut e = String::from_str("unknown search engine: ");
            push_str(&mut e, value);
            Err(e)
        },
    }
}

/// The settings page's view of `s` as one JSON object, with the custom
/// hardening flags `fp_custom` (already a JSON object) set in raw.
pub open spec fn snapshot(s: Settings, fp_custom: Seq<char>) -> Seq<char> {
    "{\"feather_edges\":"@ + bool_text(s.feather_edges)
        + ",\"animated_background\":"@ + bool_text(s.animated_background)
        + ",\"stay_foreground\":"@ + bool_text(s.stay_foreground)
        + ",\"glow_intensity\":"@ + decimal(s.glow_intensity as nat)
        + ",\"search_engine\":\""@ + engine_word(s.search_engine)
        + "\",\"tor_enabled\":"@ + bool_text(s.tor_enabled)
        + ",\"tor_default\":"@ + bool_text(s.tor_default)
        + ",\"fp_preset\":\""@ + word_of_level(level_of_code(s.hardening_level))
        + "\",\"fp_custom\":"@ + fp_custom
        + ",\"screen_preset\":\""@ + screen_word(s.screen_preset)
        + "\",\"rotate_on_restart\":"@ + bool_text(s.rotate_on_restart)
        + ",\"rotate_auto\":"@ + bool_text(s.rotate_auto)
        + ",\"rotate_new_circuit\":"@ + bool_text(s.rotate_new_circuit)
        + ",\"rotate_interval_min\":"@ + decimal(s.rotate_interval_min as nat)
        + "}"@
}

/// The current settings as the JSON object the settings page reads.
/// `fp_custom` is the custom hardening flags' JSON object, set in raw.
pub fn snapshot_json(s: &Settings, fp_custom: &str) -> (r: String)
    ensures
        r@ == snapshot(*s, fp_custom@),
{
    let mut r = String::from_str("{\"feather_edges\":");
    push_str(&mut r, bool_word(s.feather_edges));
    push_str(&mut r, ",\"animated_background\":");
    push_str(&mut r, bool_word(s.animated_background));
    push_str(&mut r, ",\"stay_foreground\":");
    push_str(&mut r, bool_word(s.stay_foreground));
    push_str(&mut r, ",\"glow_intensity\":");
    push_decimal(&mut r, s.glow_intensity as u64);
    push_str(&mut r, ",\"search_engine\":\"");
    push_str(&mut r, engine_name(s.search_engine));
    push_str(&mut r, "\",\"tor_enabled\":");
    push_str(&mut r, bool_word(s.tor_enabled));
    push_str(&mut r, ",\"tor_default\":");
    push_str(&mut r, bool_word(s.tor_default));
    push_str(&mut r, ",\"fp_preset\":\"");
    push_str(&mut r, level_from_code(s.hardening_level).as_str());
    push_str(&mut r, "\",\"fp_custom\":");
    push_str(&mut r, fp_custom);
    push_str(&mut r, ",\"screen_preset\":\"");
    push_str(&mut r, screen_name(s.screen_preset));
    push_str(&mut r, "\",\"rotate_on_restart\":");
    push_str(&mut r, bool_word(s.rotate_on_restart));
    push_str(&mut r, ",\"rotate_auto\":");
    push_str(&mut r, bool_word(s.rotate_auto));
    push_str(&mut r, ",\"rotate_new_circuit\":");
    push_str(&mut r, bool_word(s.rotate_new_circuit));
    push_str(&mut r, ",\"rotate_interval_min\":");
    push_decimal(&mut r, s.rotate_interval_min as u64);
    push_str(&mut r, "}");
    r
}

/// Which boolean setting a key names, in allowlist order (`-1`: none).
pub open spec fn bool_key_slot(k: Seq<char>) -> int {
    if k == KEY_FEATHER_EDGES@ {
        0
    } else if k == KEY_ANIMATED_BACKGROUND@ {
        1
    } else if k == KEY_STAY_FOREGROUND@ {
        2
    } else if k == KEY_TOR_ENABLED@ {
        3
    } else if k == KEY_TOR_DEFAULT@ {
        4
    } else if k == KEY_ROTATE_ON_RESTART@ {
        5
    } else if k == KEY_ROTATE_AUTO@ {
        6
    } else if k == KEY_ROTATE_NEW_CIRCUIT@ {
        7
    } else {
        -1
    }
}

/// `s` with the boolean setting in slot `slot` set to `v`.
pub open spec fn with_bool(s: Settings, slot: int, v: bool) -> Settings {
    if slot == 0 {
        Settings { feather_edges: v, ..s }
    } else if slot == 1 {
        Settings { animated_background: v, ..s }
    } else if slot == 2 {
        Settings { stay_foreground: v, ..s }
    } else if slot == 3 {
        Settings { tor_enabled: v, ..s }
    } else if slot == 4 {
        Settings { tor_default: v, ..s }
    } else if slot == 5 {
        Settings { rotate_on_restart: v, ..s }
    } else if slot == 6 {
        Settings { rotate_auto: v, ..s }
    } else if slot == 7 {
        Settings { rotate_new_circuit: v, ..s }
    } else {
        s
    }
}

/// `new` and `r` are what setting the boolean `key` to `value` in `old`
/// gives: an allowlisted key is set and persisted, any other is refused with
/// nothing changed.
pub open spec fn bool_applied(old: Settings, new: Settings, key: Seq<char>, value: bool, r: Result<String, String>) -> bool {
    if bool_key_slot(key) >= 0 {
        &&& r matches Ok(t) && t@ == reply_bare(key, bool_text(value))
        &&& new == (Settings { rows: new.rows, ..with_bool(old, bool_key_slot(key), value) })
        &&& wrote(old.rows, new.rows, key, bool_text(value))
    } else {
        &&& r matches Err(e) && e@ == "unknown setting key: "@ + key
        &&& new == old
    }
}

/// The boolean settings' keys are different keys.
proof fn lemma_bool_keys_differ()
    ensures
        KEY_FEATHER_EDGES@ != KEY_ANIMATED_BACKGROUND@,
        KEY_FEATHER_EDGES@ != KEY_STAY_FOREGROUND@,
        KEY_FEATHER_EDGES@ != KEY_TOR_ENABLED@,
        KEY_FEATHER_EDGES@ != KEY_TOR_DEFAULT@,
        KEY_FEATHER_EDGES@ != KEY_ROTATE_ON_RESTART@,
        KEY_FEATHER_EDGES@ != KEY_ROTATE_AUTO@,
        KEY_FEATHER_EDGES@ != KEY_ROTATE_NEW_CIRCUIT@,
        KEY_ANIMATED_BACKGROUND@ != KEY_STAY_FOREGROUND@,
        KEY_ANIMATED_BACKGROUND@ != KEY_TOR_ENABLED@,
        KEY_ANIMATED_BACKGROUND@ != KEY_TOR_DEFAULT@,
        KEY_ANIMATED_BACKGROUND@ != KEY_ROTATE_ON_RESTART@,
        KEY_ANIMATED_BACKGROUND@ != KEY_ROTATE_AUTO@,
        KEY_ANIMATED_BACKGROUND@ != KEY_ROTATE_NEW_CIRCUIT@,
        KEY_STAY_FOREGROUND@ != KEY_TOR_ENABLED@,
        KEY_STAY_FOREGROUND@ != KEY_TOR_DEFAULT@,
        KEY_STAY_FOREGROUND@ != KEY_ROTATE_ON_RESTART@,
        KEY_STAY_FOREGROUND@ != KEY_ROTATE_AUTO@,
        KEY_STAY_FOREGROUND@ != KEY_ROTATE_NEW_CIRCUIT@,
        KEY_TOR_ENABLED@ != KEY_TOR_DEFAULT@,
        KEY_TOR_ENABLED@ != KEY_ROTATE_ON_RESTART@,
        KEY_TOR_ENABLED@ != KEY_ROTATE_AUTO@,
        KEY_TOR_ENABLED@ != KEY_ROTATE_NEW_CIRCUIT@,
        KEY_TOR_DEFAULT@ != KEY_ROTATE_ON_RESTART@,
        KEY_TOR_DEFAULT@ != KEY_ROTATE_AUTO@,
        KEY_TOR_DEFAULT@ != KEY_ROTATE_NEW_CIRCUIT@,
        KEY_ROTATE_ON_RESTART@ != KEY_ROTATE_AUTO@,
        KEY_ROTATE_ON_RESTART@ != KEY_ROTATE_NEW_CIRCUIT@,
        KEY_ROTATE_AUTO@ != KEY_ROTATE_NEW_CIRCUIT@,
{
    reveal_strlit("feather_edges");
    reveal_strlit("animated_background");
    reveal_strlit("stay_foreground");
    reveal_strlit("tor_enabled");
    reveal_strlit("tor_default");
    reveal_strlit("rotate_on_restart");
    reveal_strlit("rotate_auto");
    reveal_strlit("rotate_new_circuit");
    assert(KEY_FEATHER_EDGES@.len() != KEY_ANIMATED_BACKGROUND@.len());
    assert(KEY_FEATHER_EDGES@.len() != KEY_STAY_FOREGROUND@.len());
    assert(KEY_FEATHER_EDGES@.len() != KEY_TOR_ENABLED@.len());
    assert(KEY_FEATHER_EDGES@.len() != KEY_TOR_DEFAULT@.len());
    assert(KEY_FEATHER_EDGES@.len() != KEY_ROTATE_ON_RESTART@.len());
    assert(KEY_FEATHER_EDGES@.len() != KEY_ROTATE_AUTO@.len());
    assert(KEY_FEATHER_EDGES@.len() != KEY_ROTATE_NEW_CIRCUIT@.len());
    assert(KEY_ANIMATED_BACKGROUND@.len() != KEY_STAY_FOREGROUND@.len());
    assert(KEY_ANIMATED_BACKGROUND@.len() != KEY_TOR_ENABLED@.len());
    assert(KEY_ANIMATED_BACKGROUND@.len() != KEY_TOR_DEFAULT@.len());
    assert(KEY_ANIMATED_BACKGROUND@.len() != KEY_ROTATE_ON_RESTART@.len());
    assert(KEY_ANIMATED_BACKGROUND@.len() != KEY_ROTATE_AUTO@.len());
    assert(KEY_ANIMATED_BACKGROUND@.len() != KEY_ROTATE_NEW_CIRCUIT@.len());
    assert(KEY_STAY_FOREGROUND@.len() != KEY_TOR_ENABLED@.len());
    assert(KEY_STAY_FOREGROUND@.len() != KEY_TOR_DEFAULT@.len());
    assert(KEY_STAY_FOREGROUND@.len() != KEY_ROTATE_ON_RESTART@.len());
    assert(KEY_STAY_FOREGROUND@.len() != KEY_ROTATE_AUTO@.len());
    assert(KEY_STAY_FOREGROUND@.len() != KEY_ROTATE_NEW_CIRCUIT@.len());
    assert(KEY_TOR_ENABLED@[4] != KEY_TOR_DEFAULT@[4]);
    assert(KEY_TOR_ENABLED@.len() != KEY_ROTATE_ON_RESTART@.len());
    assert(KEY_TOR_ENABLED@[0] != KEY_ROTATE_AUTO@[0]);
    assert(KEY_TOR_ENABLED@.len() != KEY_ROTATE_NEW_CIRCUIT@.len());
    assert(KEY_TOR_DEFAULT@.len() != KEY_ROTATE_ON_RESTART@.len());
    assert(KEY_TOR_DEFAULT@[0] != KEY_ROTATE_AUTO@[0]);
    assert(KEY_TOR_DEFAULT@.len() != KEY_ROTATE_NEW_CIRCUIT@.len());
    assert(KEY_ROTATE_ON_RESTART@.len() != KEY_ROTATE_AUTO@.len());
    assert(KEY_ROTATE_ON_RESTART@.len() != KEY_ROTATE_NEW_CIRCUIT@.len());
    assert(KEY_ROTATE_AUTO@.len() != KEY_ROTATE_NEW_CIRCUIT@.len());
}

/// Setting a boolean key changes exactly the setting that key names, to
/// the value given, and leaves every other setting as it was; the stored row
/// for the key then reads back as that same value, so the live setting and
/// the one a restart loads agree.
pub proof fn law_bool_key_sets_its_own_setting(old: Settings, new: Settings, key: Seq<char>, v: bool, r: Result<String, String>)
    requires
        bool_applied(old, new, key, v, r),
        r is Ok,
    ensures
        new.feather_edges == (if key == KEY_FEATHER_EDGES@ { v } else { old.feather_edges }),
        new.animated_background == (if key == KEY_ANIMATED_BACKGROUND@ { v } else { old.animated_background }),
        new.stay_foreground == (if key == KEY_STAY_FOREGROUND@ { v } else { old.stay_foreground }),
        new.tor_enabled == (if key == KEY_TOR_ENABLED@ { v } else { old.tor_enabled }),
        new.tor_default == (if key == KEY_TOR_DEFAULT@ { v } else { old.tor_default }),
        new.rotate_on_restart == (if key == KEY_ROTATE_ON_RESTART@ { v } else { old.rotate_on_restart }),
        new.rotate_auto == (if key == KEY_ROTATE_AUTO@ { v } else { old.rotate_auto }),
        new.rotate_new_circuit == (if key == KEY_ROTATE_NEW_CIRCUIT@ { v } else { old.rotate_new_circuit }),
        new.glow_intensity == old.glow_intensity,
        new.search_engine == old.search_engine,
        new.hardening_level == old.hardening_level,
        new.screen_preset == old.screen_preset,
        new.rotate_interval_min == old.rotate_interval_min,
        bool_setting(new.rows.stored(key), !v) == v,
{
    lemma_bool_keys_differ();
    reveal_strlit("true");
    reveal_strlit("false");
}

/// Apply and persist one boolean setting; keys outside the allowlist are
/// refused.
pub fn set(s: &mut Settings, key: &str, value: bool) -> (r: Result<String, String>)
    ensures
        bool_applied(*old(s), *final(s), key@, value, r),
{
    if str_eq(key, KEY_FEATHER_EDGES) {
        s.feather_edges = value;
    } else if str_eq(key, KEY_ANIMATED_BACKGROUND) {
        s.animated_background = value;
    } else if str_eq(key, KEY_STAY_FOREGROUND) {
        s.stay_foreground = value;
    } else if str_eq(key, KEY_TOR_ENABLED) {
        s.tor_enabled = value;
    } else if str_eq(key, KEY_TOR_DEFAULT) {
        s.tor_default = value;
    } else if str_eq(key, KEY_ROTATE_ON_RESTART) {
        s.rotate_on_restart = value;
    } else if str_eq(key, KEY_ROTATE_AUTO) {
        s.rotate_auto = value;
    } else if str_eq(key, KEY_ROTATE_NEW_CIRCUIT) {
        s.rotate_new_circuit = value;
    } else {
        let mut e = String::from_str("unknown setting key: ");
        push_str(&mut e, key);
        return Err(e);
    }
    let word = bool_word(value);
    s.rows.set(key, String::from_str(word));
    let mut r = String::from_str("{\"ok\":true,\"key\":\"");
    push_str(&mut r, key);
    push_str(&mut r, "\",\"value\":");
    push_str(&mut r, word);
    push_str(&mut r, "}");
    Ok(r)
}

/// Every allowlisted engine name maps to an id whose name is that word again.
pub proof fn law_engine_round_trip(w: Seq<char>)
    ensures
        engine_of_word(w) matches Some(id) ==> engine_word(id) == w,
{
    reveal_strlit("google");
    reveal_strlit("duckduckgo");
    reveal_strlit("bing");
    reveal_strlit("startpage");
    reveal_strlit("brave");
}

/// Every allowlisted screen preset name maps to a code whose name is that
/// word again.
pub proof fn law_screen_round_trip(w: Seq<char>)
    ensures
        screen_of_word(w) matches Some(c) ==> screen_word(c) == w,
{
}

/// A level's code reads back as the same level.
pub proof fn law_level_code_round_trip(l: Level)
    ensures
        level_of_code(code_of_level(l)) == l,
{
}

/// Whatever the store holds, a launch never boots into the Red bunker, and
/// the engine, screen preset, glow and interval it boots with are within
/// their allowlists and bounds.
pub proof fn law_boot_within_bounds(v: Option<Seq<char>>, fallback: int)
    ensures
        boot_hardening(v) != Level::Red,
        boot_engine(v) < 5,
        boot_screen(v) < 3,
        50 <= boot_number(v, fallback, 50, 220) <= 220,
        1 <= boot_number(v, fallback, 1, 180) <= 180,
{
}

/// A value written under a key is what a later read of that key gives, and
/// every other key reads as before.
pub proof fn law_read_after_write(before: Rows, after: Rows, k: Seq<char>, v: Seq<char>, other: Seq<char>)
    requires
        wrote(before, after, k, v),
    ensures
        after.stored(k) == Some(v),
        other != k ==> after.stored(other) == before.stored(other),
{
}

/// The seed's row and its mint time's row are different rows.
pub proof fn lemma_identity_keys_differ()
    ensures
        KEY_IDENTITY_SEED@ != KEY_IDENTITY_SEED_BORN@,
{
    reveal_strlit("identity_seed");
    reveal_strlit("identity_seed_born");
    assert(KEY_IDENTITY_SEED@.len() != KEY_IDENTITY_SEED_BORN@.len());
}

/// The keys a settings request can name with a string or a number are
/// different keys.
pub proof fn lemma_request_keys_differ()
    ensures
        KEY_SEARCH_ENGINE@ != KEY_SCREEN_PRESET@,
        KEY_GLOW_INTENSITY@ != KEY_SCREEN_PRESET@,
        KEY_ROTATE_INTERVAL@ != KEY_SCREEN_PRESET@,
{
    reveal_strlit("search_engine");
    reveal_strlit("screen_preset");
    reveal_strlit("glow_intensity");
    reveal_strlit("rotate_interval_min");
    assert(KEY_SEARCH_ENGINE@[1] != KEY_SCREEN_PRESET@[1]);
    assert(KEY_GLOW_INTENSITY@[0] != KEY_SCREEN_PRESET@[0]);
    assert(KEY_ROTATE_INTERVAL@[0] != KEY_SCREEN_PRESET@[0]);
}

/// The text of each settings key.
pub proof fn lemma_key_texts()
    ensures
        KEY_FEATHER_EDGES@ == "feather_edges"@,
        KEY_ANIMATED_BACKGROUND@ == "animated_background"@,
        KEY_STAY_FOREGROUND@ == "stay_foreground"@,
        KEY_GLOW_INTENSITY@ == "glow_intensity"@,
        KEY_SEARCH_ENGINE@ == "search_engine"@,
        KEY_TOR_ENABLED@ == "tor_enabled"@,
        KEY_TOR_DEFAULT@ == "tor_default"@,
        KEY_HARDENING_LEVEL@ == "hardening_level"@,
        KEY_HARDENING_CUSTOM@ == "hardening_custom"@,
        KEY_SCREEN_PRESET@ == "screen_preset"@,
        KEY_ROTATE_ON_RESTART@ == "rotate_on_restart"@,
        KEY_ROTATE_AUTO@ == "rotate_auto"@,
        KEY_ROTATE_NEW_CIRCUIT@ == "rotate_new_circuit"@,
        KEY_ROTATE_INTERVAL@ == "rotate_interval_min"@,
        KEY_IDENTITY_SEED@ == "identity_seed"@,
        KEY_IDENTITY_SEED_BORN@ == "identity_seed_born"@,
{
}

/// The seeded keys (and the background toggle's former name) are
/// different keys.
proof fn lemma_seeded_keys_differ()
    ensures
        KEY_FEATHER_EDGES@ != KEY_ANIMATED_BACKGROUND@,
        KEY_FEATHER_EDGES@ != KEY_STAY_FOREGROUND@,
        KEY_FEATHER_EDGES@ != KEY_SEARCH_ENGINE@,
        KEY_FEATHER_EDGES@ != KEY_TOR_ENABLED@,
        KEY_FEATHER_EDGES@ != KEY_TOR_DEFAULT@,
        KEY_FEATHER_EDGES@ != KEY_HARDENING_LEVEL@,
        KEY_ANIMATED_BACKGROUND@ != KEY_STAY_FOREGROUND@,
        KEY_ANIMATED_BACKGROUND@ != KEY_SEARCH_ENGINE@,
        KEY_ANIMATED_BACKGROUND@ != KEY_TOR_ENABLED@,
        KEY_ANIMATED_BACKGROUND@ != KEY_TOR_DEFAULT@,
        KEY_ANIMATED_BACKGROUND@ != KEY_HARDENING_LEVEL@,
        KEY_STAY_FOREGROUND@ != KEY_SEARCH_ENGINE@,
        KEY_STAY_FOREGROUND@ != KEY_TOR_ENABLED@,
        KEY_STAY_FOREGROUND@ != KEY_TOR_DEFAULT@,
        KEY_STAY_FOREGROUND@ != KEY_HARDENING_LEVEL@,
        KEY_SEARCH_ENGINE@ != KEY_TOR_ENABLED@,
        KEY_SEARCH_ENGINE@ != KEY_TOR_DEFAULT@,
        KEY_SEARCH_ENGINE@ != KEY_HARDENING_LEVEL@,
        KEY_TOR_ENABLED@ != KEY_TOR_DEFAULT@,
        KEY_TOR_ENABLED@ != KEY_HARDENING_LEVEL@,
        KEY_TOR_DEFAULT@ != KEY_HARDENING_LEVEL@,
        "deep_field"@ != KEY_ANIMATED_BACKGROUND@,
{
    reveal_strlit("feather_edges");
    reveal_strlit("animated_background");
    reveal_strlit("stay_foreground");
    reveal_strlit("search_engine");
    reveal_strlit("tor_enabled");
    reveal_strlit("tor_default");
    reveal_strlit("hardening_level");
    reveal_strlit("deep_field");
    assert(KEY_FEATHER_EDGES@[0] != KEY_ANIMATED_BACKGROUND@[0]);
    assert(KEY_FEATHER_EDGES@[0] != KEY_STAY_FOREGROUND@[0]);
    assert(KEY_FEATHER_EDGES@[0] != KEY_SEARCH_ENGINE@[0]);
    assert(KEY_FEATHER_EDGES@[0] != KEY_TOR_ENABLED@[0]);
    assert(KEY_FEATHER_EDGES@[0] != KEY_TOR_DEFAULT@[0]);
    assert(KEY_FEATHER_EDGES@[0] != KEY_HARDENING_LEVEL@[0]);
    assert(KEY_ANIMATED_BACKGROUND@[0] != KEY_STAY_FOREGROUND@[0]);
    assert(KEY_ANIMATED_BACKGROUND@[0] != KEY_SEARCH_ENGINE@[0]);
    assert(KEY_ANIMATED_BACKGROUND@[0] != KEY_TOR_ENABLED@[0]);
    assert(KEY_ANIMATED_BACKGROUND@[0] != KEY_TOR_DEFAULT@[0]);
    assert(KEY_ANIMATED_BACKGROUND@[0] != KEY_HARDENING_LEVEL@[0]);
    assert(KEY_STAY_FOREGROUND@[1] != KEY_SEARCH_ENGINE@[1]);
    assert(KEY_STAY_FOREGROUND@[0] != KEY_TOR_ENABLED@[0]);
    assert(KEY_STAY_FOREGROUND@[0] != KEY_TOR_DEFAULT@[0]);
    assert(KEY_STAY_FOREGROUND@[0] != KEY_HARDENING_LEVEL@[0]);
    assert(KEY_SEARCH_ENGINE@[0] != KEY_TOR_ENABLED@[0]);
    assert(KEY_SEARCH_ENGINE@[0] != KEY_TOR_DEFAULT@[0]);
    assert(KEY_SEARCH_ENGINE@[0] != KEY_HARDENING_LEVEL@[0]);
    assert(KEY_TOR_ENABLED@[4] != KEY_TOR_DEFAULT@[4]);
    assert(KEY_TOR_ENABLED@[0] != KEY_HARDENING_LEVEL@[0]);
    assert(KEY_TOR_DEFAULT@[0] != KEY_HARDENING_LEVEL@[0]);
    assert("deep_field"@[0] != KEY_ANIMATED_BACKGROUND@[0]);
}

} // verus!
