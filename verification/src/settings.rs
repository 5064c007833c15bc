//! App preferences: the global picker shortcut, the quick-pick prefix and
//! the history limits, with their validation, defaults and migration rules.
use vstd::prelude::*;

use crate::db;
use crate::text::{
    ascii_upper, ascii_upper_seq, chars_of, is_ascii_alpha, join, join_strings, str_equals,
    strip_bounds, to_ascii_upper, to_ascii_upper_str, trim, trim_str, utf8_len, utf8_len_exceeds,
    has_ascii_digit, is_ascii_digit, lemma_trim_idempotent, views, CharClass,
};

verus! {

/// The platform whose conventions a default shortcut or a label follows.
#[derive(Clone, Copy, Debug, PartialEq, Eq, Structural)]
pub enum Platform {
    MacOs,
    Other,
}

/// User-defined global picker shortcut (modifiers + one letter).
#[derive(Clone, Debug, PartialEq, Eq)]
pub struct PickerHotkey {
    pub shift: bool,
    pub alt: bool,
    pub cmd: bool,
    pub ctrl: bool,
    pub key: String,
}

/// What a [`PickerHotkey`] holds, as plain values.
pub ghost struct HotkeyModel {
    pub shift: bool,
    pub alt: bool,
    pub cmd: bool,
    pub ctrl: bool,
    pub key: Seq<char>,
}

impl View for PickerHotkey {
    type V = HotkeyModel;

    open spec fn view(&self) -> HotkeyModel {
        HotkeyModel {
            shift: self.shift,
            alt: self.alt,
            cmd: self.cmd,
            ctrl: self.ctrl,
            key: self.key@,
        }
    }
}

/// The views of a `Result` of two strings.
pub open spec fn result_view(r: Result<String, String>) -> Result<Seq<char>, Seq<char>> {
    match r {
        Ok(s) => Ok(s@),
        Err(e) => Err(e@),
    }
}

/// One optional part of a shortcut or label: `name` when `on`, else nothing.
pub open spec fn opt_part(on: bool, name: Seq<char>) -> Seq<Seq<char>> {
    if on {
        seq![name]
    } else {
        seq![]
    }
}

/// The default picker shortcut: Cmd+Shift+E on macOS, Ctrl+Shift+E elsewhere.
pub open spec fn default_hotkey(platform: Platform) -> HotkeyModel {
    HotkeyModel {
        shift: true,
        alt: false,
        cmd: platform == Platform::MacOs,
        ctrl: platform != Platform::MacOs,
        key: "E"@,
    }
}

/// The shortcut of the legacy `"hyper"` preset.
pub open spec fn hyper_hotkey(platform: Platform) -> HotkeyModel {
    HotkeyModel {
        shift: platform != Platform::MacOs,
        alt: true,
        cmd: platform == Platform::MacOs,
        ctrl: true,
        key: "E"@,
    }
}

/// What `normalize_key` returns: the trimmed key as one upper-case ASCII
/// letter, or the reason it is not one.
pub open spec fn normalized_key(h: HotkeyModel) -> Result<Seq<char>, Seq<char>> {
    let t = trim(h.key);
    if t.len() == 0 {
        Err("shortcut key must be a single letter"@)
    } else if !is_ascii_alpha(t[0]) {
        Err("shortcut key must be A–Z"@)
    } else if t.len() > 1 {
        Err("shortcut key must be a single letter"@)
    } else {
        Ok(seq![ascii_upper(t[0])])
    }
}

/// The parts of the plugin shortcut string, in the order the plugin expects;
/// the key is written as its key code, `Key` followed by the letter.
pub open spec fn shortcut_parts(h: HotkeyModel, key: Seq<char>) -> Seq<Seq<char>> {
    opt_part(h.ctrl, "Control"@) + opt_part(h.alt, "Alt"@) + opt_part(h.cmd, "Command"@)
        + opt_part(h.shift, "Shift"@) + seq!["Key"@ + key]
}

pub open spec fn has_modifier(h: HotkeyModel) -> bool {
    h.shift || h.alt || h.cmd || h.ctrl
}

/// What `to_shortcut_string` returns.
pub open spec fn shortcut_string(h: HotkeyModel) -> Result<Seq<char>, Seq<char>> {
    if !has_modifier(h) {
        Err("enable at least one modifier (Shift, Alt, Cmd, or Ctrl)"@)
    } else {
        match normalized_key(h) {
            Ok(k) => Ok(join(shortcut_parts(h, k), "+"@)),
            Err(e) => Err(e),
        }
    }
}

/// The key shown in labels: the normalized key, or else the raw key in
/// ASCII upper case.
pub open spec fn label_key(h: HotkeyModel) -> Seq<char> {
    match normalized_key(h) {
        Ok(k) => k,
        Err(_) => ascii_upper_seq(h.key),
    }
}

/// What `display_label` returns.
pub open spec fn display_label_of(h: HotkeyModel, platform: Platform) -> Seq<char> {
    match platform {
        Platform::MacOs => join(
            opt_part(h.ctrl, "⌃"@) + opt_part(h.alt, "⌥"@) + opt_part(h.cmd, "⌘"@) + opt_part(
                h.shift,
                "⇧"@,
            ) + seq![label_key(h)],
            Seq::empty(),
        ),
        Platform::Other => join(
            opt_part(h.ctrl, "Ctrl"@) + opt_part(h.alt, "Alt"@) + opt_part(h.cmd, "Win"@)
                + opt_part(h.shift, "Shift"@) + seq![label_key(h)],
            "+"@,
        ),
    }
}

/// Appends `name` to `parts` when `on`.
fn push_if(parts: &mut Vec<String>, on: bool, name: &str)
    ensures
        views(final(parts)@) == views(old(parts)@) + opt_part(on, name@),
{
    let ghost before = views(parts@);
    if on {
        parts.push(String::from_str(name));
        assert(views(parts@) =~= before + seq![name@]);
    } else {
        assert(views(parts@) =~= before);
    }
}

impl PickerHotkey {
    /// The default picker shortcut for `platform`.
    pub fn default_for(platform: Platform) -> (h: PickerHotkey)
        ensures
            h@ == default_hotkey(platform),
    {
        let mac = match platform {
            Platform::MacOs => true,
            Platform::Other => false,
        };
        PickerHotkey { shift: true, alt: false, cmd: mac, ctrl: !mac, key: String::from_str("E") }
    }

    /// The key as one upper-case ASCII letter, after trimming white space.
    pub fn normalize_key(&self) -> (r: Result<String, String>)
        ensures
            result_view(r) == normalized_key(self@),
    {
        let v = chars_of(self.key.as_str());
        let (i, j) = strip_bounds(&v, CharClass::Whitespace);
        proof {
            assert(trim(self@.key) == v@.subrange(i as int, j as int));
        }
        if i == j {
            return Err(String::from_str("shortcut key must be a single letter"));
        }
        let ch = v[i];
        if !(('a' <= ch && ch <= 'z') || ('A' <= ch && ch <= 'Z')) {
            return Err(String::from_str("shortcut key must be A–Z"));
        }
        if j - i > 1 {
            return Err(String::from_str("shortcut key must be a single letter"));
        }
        let mut s = String::new();
        s.push(to_ascii_upper(ch));
        Ok(s)
    }

    /// The shortcut string for the global-shortcut plugin
    /// (for example `Control+Shift+KeyE`).
    pub fn to_shortcut_string(&self) -> (r: Result<String, String>)
        ensures
            result_view(r) == shortcut_string(self@),
    {
        if !self.shift && !self.alt && !self.cmd && !self.ctrl {
            return Err(String::from_str("enable at least one modifier (Shift, Alt, Cmd, or Ctrl)"));
        }
        let key = match self.normalize_key() {
            Ok(k) => k,
            Err(e) => return Err(e),
        };
        let mut parts: Vec<String> = Vec::new();
        assert(views(parts@) =~= Seq::<Seq<char>>::empty());
        push_if(&mut parts, self.ctrl, "Control");
        push_if(&mut parts, self.alt, "Alt");
        push_if(&mut parts, self.cmd, "Command");
        push_if(&mut parts, self.shift, "Shift");
        let ghost before = views(parts@);
        let ghost kv = key@;
        let mut code = String::from_str("Key");
        code.append(key.as_str());
        let ghost cv = code@;
        assert(cv == "Key"@ + kv);
        parts.push(code);
        assert(views(parts@) =~= before + seq![cv]);
        assert(views(parts@) =~= shortcut_parts(self@, kv));
        Ok(join_strings(&parts, "+"))
    }

    /// Human-readable label for hints: modifier symbols on macOS
    /// (`⌃⌥⌘⇧E`), `Ctrl+Alt+Win+Shift+E` style elsewhere.
    pub fn display_label(&self, platform: Platform) -> (s: String)
        ensures
            s@ == display_label_of(self@, platform),
    {
        let key = match self.normalize_key() {
            Ok(k) => k,
            Err(_) => to_ascii_upper_str(self.key.as_str()),
        };
        let ghost kv = key@;
        assert(kv == label_key(self@));
        let mut parts: Vec<String> = Vec::new();
        assert(views(parts@) =~= Seq::<Seq<char>>::empty());
        match platform {
            Platform::MacOs => {
                push_if(&mut parts, self.ctrl, "⌃");
                push_if(&mut parts, self.alt, "⌥");
                push_if(&mut parts, self.cmd, "⌘");
                push_if(&mut parts, self.shift, "⇧");
                let ghost before = views(parts@);
                parts.push(key);
                assert(views(parts@) =~= before + seq![kv]);
                assert(views(parts@) =~= opt_part(self.ctrl, "⌃"@) + opt_part(self.alt, "⌥"@)
                    + opt_part(self.cmd, "⌘"@) + opt_part(self.shift, "⇧"@) + seq![kv]);
                proof {
                    reveal_strlit("");
                }
                let r = join_strings(&parts, "");
                assert(""@ =~= Seq::<char>::empty());
                assert(r@ == display_label_of(self@, platform));
                r
            },
            Platform::Other => {
                push_if(&mut parts, self.ctrl, "Ctrl");
                push_if(&mut parts, self.alt, "Alt");
                push_if(&mut parts, self.cmd, "Win");
                push_if(&mut parts, self.shift, "Shift");
                let ghost before = views(parts@);
                parts.push(key);
                assert(views(parts@) =~= before + seq![kv]);
                assert(views(parts@) =~= opt_part(self.ctrl, "Ctrl"@) + opt_part(self.alt, "Alt"@)
                    + opt_part(self.cmd, "Win"@) + opt_part(self.shift, "Shift"@) + seq![kv]);
                let r = join_strings(&parts, "+");
                assert(r@ == display_label_of(self@, platform));
                r
            },
        }
    }

    /// The shortcut that an older settings file named by a preset id:
    /// `"hyper"` is Ctrl+Alt+Cmd+E on macOS and Ctrl+Alt+Shift+E elsewhere;
    /// any other id gives the default.
    pub fn from_legacy_preset(id: &str, platform: Platform) -> (h: PickerHotkey)
        ensures
            h@ == (if id@ == "hyper"@ {
                hyper_hotkey(platform)
            } else {
                default_hotkey(platform)
            }),
    {
        if str_equals(id, "hyper") {
            let mac = match platform {
                Platform::MacOs => true,
                Platform::Other => false,
            };
            PickerHotkey { shift: !mac, alt: true, cmd: mac, ctrl: true, key: String::from_str("E") }
        } else {
            PickerHotkey::default_for(platform)
        }
    }
}

/// Optional filter prefix + digit quick-pick (e.g. `.` then `3` for row 3).
#[derive(Clone, Debug, PartialEq, Eq)]
pub struct QuickPickPrefix {
    pub enabled: bool,
    pub prefix: String,
}

/// What a [`QuickPickPrefix`] holds, as plain values.
pub ghost struct PrefixModel {
    pub enabled: bool,
    pub prefix: Seq<char>,
}

impl View for QuickPickPrefix {
    type V = PrefixModel;

    open spec fn view(&self) -> PrefixModel {
        PrefixModel { enabled: self.enabled, prefix: self.prefix@ }
    }
}

/// The prefix used when none is configured or the configured one is invalid.
pub fn default_quick_pick_prefix_char() -> (s: String)
    ensures
        s@ == "."@,
{
    String::from_str(".")
}

pub open spec fn default_prefix() -> PrefixModel {
    PrefixModel { enabled: false, prefix: "."@ }
}

impl Default for QuickPickPrefix {
    fn default() -> (p: Self)
        ensures
            p@ == default_prefix(),
    {
        QuickPickPrefix { enabled: false, prefix: default_quick_pick_prefix_char() }
    }
}

/// What `normalize_prefix` returns: the trimmed prefix, or the reason it is
/// refused (empty, longer than 8 bytes, or holding a digit).
pub open spec fn normalized_prefix(raw: Seq<char>) -> Result<Seq<char>, Seq<char>> {
    let t = trim(raw);
    if t.len() == 0 {
        Err("prefix must not be empty"@)
    } else if utf8_len(t) > 8 {
        Err("prefix must be at most 8 characters"@)
    } else if exists|j: int| 0 <= j < t.len() && is_ascii_digit(#[trigger] t[j]) {
        Err("prefix cannot contain digits 0–9"@)
    } else {
        Ok(t)
    }
}

impl QuickPickPrefix {
    /// The prefix with white space trimmed, if it is usable.
    pub fn normalize_prefix(raw: &str) -> (r: Result<String, String>)
        ensures
            result_view(r) == normalized_prefix(raw@),
    {
        let t = trim_str(raw);
        if t.as_str().is_empty() {
            return Err(String::from_str("prefix must not be empty"));
        }
        if utf8_len_exceeds(t.as_str(), 8) {
            return Err(String::from_str("prefix must be at most 8 characters"));
        }
        if has_ascii_digit(t.as_str()) {
            return Err(String::from_str("prefix cannot contain digits 0–9"));
        }
        Ok(t)
    }
}

/// How many clips to keep and optional age eviction (unpinned clips only).
#[derive(Clone, Copy, Debug, PartialEq, Eq, Structural)]
pub struct HistoryLimits {
    pub max_entries: u32,
    pub use_max_age: bool,
    pub max_age_days: u32,
}

pub fn default_max_entries() -> (n: u32)
    ensures
        n == 500,
{
    500
}

pub fn default_use_max_age() -> (b: bool)
    ensures
        b,
{
    true
}

pub fn default_max_age_days() -> (n: u32)
    ensures
        n == 14,
{
    14
}

pub open spec fn default_limits() -> HistoryLimits {
    HistoryLimits { max_entries: 500, use_max_age: true, max_age_days: 14 }
}

impl Default for HistoryLimits {
    fn default() -> (l: Self)
        ensures
            l == default_limits(),
    {
        HistoryLimits {
            max_entries: default_max_entries(),
            use_max_age: default_use_max_age(),
            max_age_days: default_max_age_days(),
        }
    }
}

/// Milliseconds in one day.
pub const MS_PER_DAY: i64 = 86_400_000;

/// What `HistoryLimits::normalize` returns.
pub open spec fn normalized_limits(max_entries: u32, use_max_age: bool, max_age_days: u32) -> Result<
    HistoryLimits,
    Seq<char>,
> {
    if !(1 <= max_entries <= 50_000) {
        Err("max entries must be between 1 and 50,000"@)
    } else if use_max_age && !(1 <= max_age_days <= 3650) {
        Err("max age must be between 1 and 3,650 days"@)
    } else {
        Ok(HistoryLimits { max_entries, use_max_age, max_age_days })
    }
}

/// Limits that `normalize` accepts.
pub open spec fn limits_valid(l: HistoryLimits) -> bool {
    normalized_limits(l.max_entries, l.use_max_age, l.max_age_days) == Ok::<
        HistoryLimits,
        Seq<char>,
    >(l)
}

impl HistoryLimits {
    /// The limits, if they lie in range: 1 to 50,000 entries and, when age
    /// eviction is on, 1 to 3,650 days.
    pub fn normalize(max_entries: u32, use_max_age: bool, max_age_days: u32) -> (r: Result<
        Self,
        String,
    >)
        ensures
            match r {
                Ok(l) => normalized_limits(max_entries, use_max_age, max_age_days) == Ok::<
                    HistoryLimits,
                    Seq<char>,
                >(l),
                Err(e) => normalized_limits(max_entries, use_max_age, max_age_days) == Err::<
                    HistoryLimits,
                    Seq<char>,
                >(e@),
            },
    {
        if !(1 <= max_entries && max_entries <= 50_000) {
            return Err(String::from_str("max entries must be between 1 and 50,000"));
        }
        if use_max_age && !(1 <= max_age_days && max_age_days <= 3650) {
            return Err(String::from_str("max age must be between 1 and 3,650 days"));
        }
        Ok(HistoryLimits { max_entries, use_max_age, max_age_days })
    }

    /// The retention policy that the history store applies: at most
    /// `max_entries` rows and, when age eviction is on, an age limit of
    /// `max_age_days` days in milliseconds.
    pub fn to_db_limits(&self) -> (d: db::HistoryLimits)
        ensures
            d.max_rows == self.max_entries,
            d.max_age_ms == (if self.use_max_age {
                Some((self.max_age_days * MS_PER_DAY) as i64)
            } else {
                None
            }),
    {
        let max_age_ms = if self.use_max_age {
            assert(self.max_age_days * MS_PER_DAY <= 4_294_967_295 * 86_400_000) by (nonlinear_arith)
                requires
                    self.max_age_days <= 4_294_967_295,
            ;
            Some(self.max_age_days as i64 * MS_PER_DAY)
        } else {
            None
        };
        db::HistoryLimits { max_rows: self.max_entries as i64, max_age_ms }
    }
}

/// All preferences.
#[derive(Clone, Debug)]
pub struct Settings {
    pub picker_hotkey: PickerHotkey,
    pub quick_pick_prefix: QuickPickPrefix,
    pub history_limits: HistoryLimits,
}

/// What [`Settings`] hold, as plain values.
pub ghost struct SettingsModel {
    pub hotkey: HotkeyModel,
    pub prefix: PrefixModel,
    pub limits: HistoryLimits,
}

impl View for Settings {
    type V = SettingsModel;

    open spec fn view(&self) -> SettingsModel {
        SettingsModel {
            hotkey: self.picker_hotkey@,
            prefix: self.quick_pick_prefix@,
            limits: self.history_limits,
        }
    }
}

pub open spec fn default_settings(platform: Platform) -> SettingsModel {
    SettingsModel {
        hotkey: default_hotkey(platform),
        prefix: default_prefix(),
        limits: default_limits(),
    }
}

impl Settings {
    /// The preferences used when none are stored.
    pub fn default_for(platform: Platform) -> (s: Settings)
        ensures
            s@ == default_settings(platform),
    {
        Settings {
            picker_hotkey: PickerHotkey::default_for(platform),
            quick_pick_prefix: QuickPickPrefix::default(),
            history_limits: HistoryLimits::default(),
        }
    }
}

/// The stored `pickerHotkey` entry of a settings file, by its JSON shape.
#[derive(Clone, Debug)]
pub enum StoredHotkey {
    /// A string: the id of a legacy preset.
    Preset(String),
    /// An object, with the shortcut it describes if it describes one.
    Object(Option<PickerHotkey>),
    /// Any other JSON value.
    Other,
}

/// What a stored `pickerHotkey` entry migrates to.
pub open spec fn migrated_hotkey(value: StoredHotkey, platform: Platform) -> HotkeyModel {
    match value {
        StoredHotkey::Preset(id) => if id@ == "hyper"@ {
            hyper_hotkey(platform)
        } else {
            default_hotkey(platform)
        },
        StoredHotkey::Object(Some(h)) => h@,
        StoredHotkey::Object(None) => default_hotkey(platform),
        StoredHotkey::Other => default_hotkey(platform),
    }
}

/// The shortcut that a stored `pickerHotkey` entry stands for: a legacy
/// preset id, a shortcut object, or else the default.
pub fn migrate_picker_hotkey(value: StoredHotkey, platform: Platform) -> (h: PickerHotkey)
    ensures
        h@ == migrated_hotkey(value, platform),
{
    match value {
        StoredHotkey::Preset(id) => PickerHotkey::from_legacy_preset(id.as_str(), platform),
        StoredHotkey::Object(Some(h)) => h,
        StoredHotkey::Object(None) => PickerHotkey::default_for(platform),
        StoredHotkey::Other => PickerHotkey::default_for(platform),
    }
}

/// The entries of a settings file that is a JSON object; each is `None`
/// where the file lacks it or it does not have the entry's shape.
#[derive(Clone, Debug)]
pub struct StoredSettings {
    pub picker_hotkey: Option<StoredHotkey>,
    pub quick_pick_prefix: Option<QuickPickPrefix>,
    pub history_limits: Option<HistoryLimits>,
}

/// The prefix setting as loaded: the stored one (or the default) with its
/// prefix normalized, or replaced by `.` when it is not usable.
pub open spec fn loaded_prefix(stored: Option<QuickPickPrefix>) -> PrefixModel {
    let p = match stored {
        Some(q) => q@,
        None => default_prefix(),
    };
    match normalized_prefix(p.prefix) {
        Ok(t) => PrefixModel { enabled: p.enabled, prefix: t },
        Err(_) => PrefixModel { enabled: p.enabled, prefix: "."@ },
    }
}

/// The history limits as loaded: the stored ones (or the defaults) if they
/// are valid, else the defaults.
pub open spec fn loaded_limits(stored: Option<HistoryLimits>) -> HistoryLimits {
    let l = match stored {
        Some(l) => l,
        None => default_limits(),
    };
    match normalized_limits(l.max_entries, l.use_max_age, l.max_age_days) {
        Ok(n) => n,
        Err(_) => default_limits(),
    }
}

/// The preferences that a settings file yields; `None` stands for a file
/// that cannot be read, is not JSON or is not a JSON object.
pub open spec fn loaded_settings(stored: Option<StoredSettings>, platform: Platform) -> SettingsModel {
    match stored {
        None => default_settings(platform),
        Some(s) => SettingsModel {
            hotkey: match s.picker_hotkey {
                Some(v) => migrated_hotkey(v, platform),
                None => default_hotkey(platform),
            },
            prefix: loaded_prefix(s.quick_pick_prefix),
            limits: loaded_limits(s.history_limits),
        },
    }
}

/// The preferences that the entries of a settings file yield: the shortcut
/// migrated, the prefix normalized and the limits checked, each falling back
/// to its default.
pub fn load(stored: Option<StoredSettings>, platform: Platform) -> (s: Settings)
    ensures
        s@ == loaded_settings(stored, platform),
{
    match stored {
        None => Settings::default_for(platform),
        Some(st) => {
            let picker_hotkey = match st.picker_hotkey {
                Some(v) => migrate_picker_hotkey(v, platform),
                None => PickerHotkey::default_for(platform),
            };
            let mut quick_pick_prefix = match st.quick_pick_prefix {
                Some(q) => q,
                None => QuickPickPrefix::default(),
            };
            match QuickPickPrefix::normalize_prefix(quick_pick_prefix.prefix.as_str()) {
                Ok(p) => {
                    quick_pick_prefix.prefix = p;
                },
                Err(_) => {
                    quick_pick_prefix.prefix = default_quick_pick_prefix_char();
                },
            }
            let stored_limits = match st.history_limits {
                Some(l) => l,
                None => HistoryLimits::default(),
            };
            let history_limits = match HistoryLimits::normalize(
                stored_limits.max_entries,
                stored_limits.use_max_age,
                stored_limits.max_age_days,
            ) {
                Ok(h) => h,
                Err(_) => HistoryLimits::default(),
            };
            Settings { picker_hotkey, quick_pick_prefix, history_limits }
        },
    }
}

/// What the settings screen shows.
#[derive(Clone, Debug)]
pub struct SettingsSnapshot {
    pub picker_hotkey: PickerHotkey,
    pub active_label: String,
    pub quick_pick_prefix_enabled: bool,
    pub quick_pick_prefix: String,
    pub history_max_entries: u32,
    pub history_use_max_age: bool,
    pub history_max_age_days: u32,
}

/// The snapshot of `cfg` that the settings screen shows, with the label of
/// its shortcut for `platform`.
pub fn snapshot(cfg: Settings, platform: Platform) -> (s: SettingsSnapshot)
    ensures
        s.picker_hotkey@ == cfg.picker_hotkey@,
        s.active_label@ == display_label_of(cfg.picker_hotkey@, platform),
        s.quick_pick_prefix_enabled == cfg.quick_pick_prefix.enabled,
        s.quick_pick_prefix@ == cfg.quick_pick_prefix.prefix@,
        s.history_max_entries == cfg.history_limits.max_entries,
        s.history_use_max_age == cfg.history_limits.use_max_age,
        s.history_max_age_days == cfg.history_limits.max_age_days,
{
    let active_label = cfg.picker_hotkey.display_label(platform);
    SettingsSnapshot {
        active_label,
        picker_hotkey: cfg.picker_hotkey,
        quick_pick_prefix_enabled: cfg.quick_pick_prefix.enabled,
        quick_pick_prefix: cfg.quick_pick_prefix.prefix,
        history_max_entries: cfg.history_limits.max_entries,
        history_use_max_age: cfg.history_limits.use_max_age,
        history_max_age_days: cfg.history_limits.max_age_days,
    }
}

/// The OS-global shortcut currently registered, kept so that it can be
/// unregistered when the shortcut changes.
#[derive(Debug)]
pub struct PickerHotkeyState {
    pub registered: Option<String>,
}

/// What applying a new shortcut takes: unregistering the old one (if any)
/// and registering the new shortcut string.
#[derive(Debug)]
pub struct HotkeyChange {
    pub unregister: Option<String>,
    pub register: String,
}

impl PickerHotkeyState {
    /// No shortcut registered yet.
    pub fn new() -> (s: Self)
        ensures
            s.registered is None,
    {
        PickerHotkeyState { registered: None }
    }

    /// Notes that `shortcut` is now the registered shortcut.
    pub fn record_registered(&mut self, shortcut: String)
        ensures
            final(self).registered == Some(shortcut),
    {
        self.registered = Some(shortcut);
    }
}

/// The change that applying `hotkey` makes: the shortcut string to register
/// and the previously registered one to unregister; or the reason `hotkey`
/// has no shortcut string.
pub fn apply_picker_hotkey(state: &PickerHotkeyState, hotkey: &PickerHotkey) -> (r: Result<
    HotkeyChange,
    String,
>)
    ensures
        match r {
            Ok(c) => {
                &&& shortcut_string(hotkey@) == Ok::<Seq<char>, Seq<char>>(c.register@)
                &&& c.unregister == state.registered
            },
            Err(e) => shortcut_string(hotkey@) == Err::<Seq<char>, Seq<char>>(e@),
        },
{
    let register = match hotkey.to_shortcut_string() {
        Ok(s) => s,
        Err(e) => return Err(e),
    };
    let unregister = match &state.registered {
        Some(old) => Some(old.clone()),
        None => None,
    };
    Ok(HotkeyChange { unregister, register })
}

/// Settings that the settings screen would accept as they are: a prefix
/// that `normalize_prefix` keeps unchanged and limits that `normalize`
/// accepts.
pub open spec fn settings_valid(m: SettingsModel) -> bool {
    &&& normalized_prefix(m.prefix.prefix) == Ok::<Seq<char>, Seq<char>>(m.prefix.prefix)
    &&& limits_valid(m.limits)
}

/// A prefix that `normalize_prefix` accepts is accepted again unchanged.
pub proof fn law_normalized_prefix_is_stable(raw: Seq<char>)
    requires
        normalized_prefix(raw) is Ok,
    ensures
        normalized_prefix(normalized_prefix(raw)->Ok_0) == normalized_prefix(raw),
{
    lemma_trim_idempotent(raw);
}

/// Loading never yields invalid settings: whatever a settings file holds,
/// the loaded prefix is normalized and the loaded limits are in range.
pub proof fn law_loaded_settings_are_valid(stored: Option<StoredSettings>, platform: Platform)
    ensures
        settings_valid(loaded_settings(stored, platform)),
{
    reveal_strlit(".");
    let dot = "."@;
    assert(dot =~= seq!['.']);
    assert(seq!['.'].drop_last() =~= Seq::<char>::empty());
    assert(trim(dot) =~= dot);
    assert(dot.drop_last() =~= Seq::<char>::empty());
    assert(utf8_len(Seq::<char>::empty()) == 0);
    assert(dot.last() == '.');
    assert(utf8_len(dot) == 1);
    assert(normalized_prefix(dot) == Ok::<Seq<char>, Seq<char>>(dot));
    let m = loaded_settings(stored, platform);
    let raw = match stored {
        None => dot,
        Some(st) => match st.quick_pick_prefix {
            Some(q) => q.prefix@,
            None => dot,
        },
    };
    if normalized_prefix(raw) is Ok {
        law_normalized_prefix_is_stable(raw);
    }
}

/// Valid settings load back unchanged: a settings file that stores a
/// shortcut object, a prefix and limits that are valid yields exactly them.
pub proof fn law_valid_settings_load_back(
    hotkey: PickerHotkey,
    prefix: QuickPickPrefix,
    limits: HistoryLimits,
    platform: Platform,
)
    requires
        settings_valid(SettingsModel { hotkey: hotkey@, prefix: prefix@, limits }),
    ensures
        loaded_settings(
            Some(
                StoredSettings {
                    picker_hotkey: Some(StoredHotkey::Object(Some(hotkey))),
                    quick_pick_prefix: Some(prefix),
                    history_limits: Some(limits),
                },
            ),
            platform,
        ) == (SettingsModel { hotkey: hotkey@, prefix: prefix@, limits }),
{
}

/// Accepted limits are returned unchanged, and limits are accepted exactly
/// when the entry count is 1 to 50,000 and, with age eviction on, the day
/// count is 1 to 3,650 (the day count is not checked, and kept, when age
/// eviction is off).
pub proof fn law_normalize_keeps_accepted_limits(e: u32, u: bool, d: u32)
    ensures
        normalized_limits(e, u, d) is Ok <==> (1 <= e <= 50_000 && (!u || 1 <= d <= 3650)),
        normalized_limits(e, u, d) is Ok ==> normalized_limits(e, u, d) == Ok::<
            HistoryLimits,
            Seq<char>,
        >(HistoryLimits { max_entries: e, use_max_age: u, max_age_days: d }),
{
}

/// A digit is exactly one of the ten characters `0` to `9`.
pub proof fn law_digits_are_zero_to_nine(c: char)
    ensures
        is_ascii_digit(c) <==> 48 <= (c as u32) <= 57,
{
}

/// A trimmed prefix of 1 to 8 bytes is accepted unchanged exactly when none
/// of its characters is one of `0` to `9`.
pub proof fn law_prefix_accepted_without_digits(t: Seq<char>)
    requires
        trim(t) == t,
        t.len() > 0,
        utf8_len(t) <= 8,
    ensures
        normalized_prefix(t) == Ok::<Seq<char>, Seq<char>>(t) <==> forall|j: int|
            0 <= j < t.len() ==> !(48 <= (#[trigger] t[j] as u32) <= 57),
{
    if normalized_prefix(t) == Ok::<Seq<char>, Seq<char>>(t) {
        assert forall|j: int| 0 <= j < t.len() implies !(48 <= (#[trigger] t[j] as u32) <= 57) by {
            law_digits_are_zero_to_nine(t[j]);
        }
    }
    if forall|j: int| 0 <= j < t.len() ==> !(48 <= (#[trigger] t[j] as u32) <= 57) {
        assert forall|j: int| 0 <= j < t.len() implies !is_ascii_digit(#[trigger] t[j]) by {
            law_digits_are_zero_to_nine(t[j]);
        }
    }
}

} // verus!
