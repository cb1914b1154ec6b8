//! Application configuration and the rules that read parts of it.

use crate::date::Weekday;
use crate::ops::join_path;
use crate::text::{chars_of, starts_with, string_from_chars, trim, trimmed};
use vstd::prelude::*;

verus! {

/// Application configuration, loaded from config.toml.
#[derive(Debug, Clone, PartialEq)]
pub struct Config {
    pub general: GeneralConfig,
    pub display: DisplayConfig,
    pub migration: MigrationConfig,
    pub theme: ThemeConfig,
}

#[derive(Debug, Clone, PartialEq)]
pub struct GeneralConfig {
    /// Where daily logs are stored (e.g., ~/.local/share/bulletd/logs)
    pub data_dir: String,
    /// Default number of days to look back for open tasks
    pub lookback_days: u32,
}

#[derive(Debug, Clone, PartialEq)]
pub struct DisplayConfig {
    /// Date format for TUI display
    pub date_format: String,
    /// Whether the TUI displays bullet IDs
    pub show_ids: bool,
}

/// Icon set for TUI status display.
///
/// Purely visual — the on-disk markdown format always uses the
/// canonical emojis regardless of which icon set is active.
#[derive(Debug, Clone, PartialEq)]
pub struct IconsConfig {
    pub open: String,
    pub done: String,
    pub migrated: String,
    pub cancelled: String,
    pub backlogged: String,
}

impl IconsConfig {
    /// Minimal TUI-friendly icons (single-width Unicode).
    pub fn minimal() -> (r: Self)
        ensures
            r.open@ == seq!['\u{25CB}'],
            r.done@ == seq!['\u{2713}'],
            r.migrated@ == seq!['\u{2192}'],
            r.cancelled@ == seq!['\u{2717}'],
            r.backlogged@ == seq!['\u{25BC}'],
    {
        proof {
            reveal_strlit("\u{25CB}");
            reveal_strlit("\u{2713}");
            reveal_strlit("\u{2192}");
            reveal_strlit("\u{2717}");
            reveal_strlit("\u{25BC}");
        }
        Self {
            open: String::from_str("\u{25CB}"),
            done: String::from_str("\u{2713}"),
            migrated: String::from_str("\u{2192}"),
            cancelled: String::from_str("\u{2717}"),
            backlogged: String::from_str("\u{25BC}"),
        }
    }

    /// Emoji icons, as the files on disk write them.
    pub fn emoji() -> (r: Self)
        ensures
            r.open@ == crate::model::status_emoji(crate::model::BulletStatus::Open),
            r.done@ == crate::model::status_emoji(crate::model::BulletStatus::Done),
            r.migrated@ == crate::model::status_emoji(crate::model::BulletStatus::Migrated),
            r.cancelled@ == crate::model::status_emoji(crate::model::BulletStatus::Cancelled),
            r.backlogged@ == crate::model::status_emoji(crate::model::BulletStatus::Backlogged),
    {
        proof {
            reveal_strlit("\u{1F4CC}");
            reveal_strlit("\u{2705}");
            reveal_strlit("\u{27A1}\u{FE0F}");
            reveal_strlit("\u{274C}");
            reveal_strlit("\u{1F4E5}");
        }
        Self {
            open: String::from_str("\u{1F4CC}"),
            done: String::from_str("\u{2705}"),
            migrated: String::from_str("\u{27A1}\u{FE0F}"),
            cancelled: String::from_str("\u{274C}"),
            backlogged: String::from_str("\u{1F4E5}"),
        }
    }
}

#[derive(Debug, Clone, PartialEq)]
pub struct MigrationConfig {
    /// Days before a task is flagged as stale during review
    pub stale_threshold: u32,
    /// Weekdays that count as work days for the `m` migrate action.
    /// Defaults to Mon–Fri when absent. Must be non-empty.
    pub work_days: Vec<Weekday>,
}

#[derive(Debug, Clone, PartialEq)]
pub struct ThemeConfig {
    pub background: String,
    pub foreground: String,
    pub accent: String,
    pub success: String,
    pub warning: String,
    pub error: String,
    pub muted: String,
}

// ---------------------------------------------------------------------------
// Work days in the configuration

/// Monday to Friday, the work days when the configuration names none.
pub fn default_work_days() -> (r: Vec<Weekday>)
    ensures
        r@ == seq![Weekday::Mon, Weekday::Tue, Weekday::Wed, Weekday::Thu, Weekday::Fri],
{
    vec![Weekday::Mon, Weekday::Tue, Weekday::Wed, Weekday::Thu, Weekday::Fri]
}

/// The weekday that a lower-case name or three-letter abbreviation stands for.
pub open spec fn weekday_named(t: Seq<char>) -> Option<Weekday> {
    if t == "mon"@ || t == "monday"@ {
        Some(Weekday::Mon)
    } else if t == "tue"@ || t == "tuesday"@ {
        Some(Weekday::Tue)
    } else if t == "wed"@ || t == "wednesday"@ {
        Some(Weekday::Wed)
    } else if t == "thu"@ || t == "thursday"@ {
        Some(Weekday::Thu)
    } else if t == "fri"@ || t == "friday"@ {
        Some(Weekday::Fri)
    } else if t == "sat"@ || t == "saturday"@ {
        Some(Weekday::Sat)
    } else if t == "sun"@ || t == "sunday"@ {
        Some(Weekday::Sun)
    } else {
        None
    }
}

/// The three-letter name a weekday is written as.
pub open spec fn short_name(w: Weekday) -> Seq<char> {
    match w {
        Weekday::Mon => "Mon"@,
        Weekday::Tue => "Tue"@,
        Weekday::Wed => "Wed"@,
        Weekday::Thu => "Thu"@,
        Weekday::Fri => "Fri"@,
        Weekday::Sat => "Sat"@,
        Weekday::Sun => "Sun"@,
    }
}

pub open spec fn is_ascii_text(s: Seq<char>) -> bool {
    forall|k: int| 0 <= k < s.len() ==> (#[trigger] s[k] as u32) < 128
}

/// `s` with each ASCII capital replaced by its small letter.
pub open spec fn ascii_lowercase(s: Seq<char>) -> Seq<char> {
    s.map_values(|c: char| crate::format::ascii_lower(c))
}

/// What `str::to_lowercase` gives for a text.
pub uninterp spec fn lowercase_of(s: Seq<char>) -> Seq<char>;

/// Calls `str::to_lowercase`. The result is named by `lowercase_of`; on ASCII
/// text, which the documentation says maps each capital to its small
/// letter, it is the ASCII lowercase.
#[verifier::external_body]
fn to_lowercase(s: &str) -> (r: String)
    ensures
        r@ == lowercase_of(s@),
        is_ascii_text(s@) ==> r@ == ascii_lowercase(s@),
{
    s.to_lowercase()
}

/// What `str::to_lowercase` gives for a text: on ASCII text, each capital
/// turned into its small letter.
pub open spec fn lowercase_text(s: Seq<char>) -> Seq<char> {
    if is_ascii_text(s) {
        ascii_lowercase(s)
    } else {
        lowercase_of(s)
    }
}

/// What `format!("{:?}", s)` gives for a text: it quoted, with escapes.
pub uninterp spec fn debug_text(s: Seq<char>) -> Seq<char>;

/// Calls `format!("{:?}", s)` on a `&str`. The result is named by `debug_text`.
#[verifier::external_body]
fn debug_quoted(s: &str) -> (r: String)
    ensures
        r@ == debug_text(s@),
{
    format!("{s:?}")
}

/// The message for a weekday name that is not one.
pub open spec fn unknown_weekday_message(s: Seq<char>) -> Seq<char> {
    "unknown weekday: "@ + debug_text(lowercase_text(trim(s)))
}

/// The weekday a configured name stands for: the name is trimmed and read
/// in any case, as an abbreviation or in full.
pub fn parse_weekday(s: &str) -> (r: Result<Weekday, String>)
    ensures
        match weekday_named(lowercase_text(trim(s@))) {
            Some(w) => r matches Ok(x) && x == w,
            None => r matches Err(m) && m@ == unknown_weekday_message(s@),
        },
{
    let t = string_from_chars(&trimmed(&chars_of(s)));
    let l = to_lowercase(t.as_str());
    if l == String::from_str("mon") || l == String::from_str("monday") {
        Ok(Weekday::Mon)
    } else if l == String::from_str("tue") || l == String::from_str("tuesday") {
        Ok(Weekday::Tue)
    } else if l == String::from_str("wed") || l == String::from_str("wednesday") {
        Ok(Weekday::Wed)
    } else if l == String::from_str("thu") || l == String::from_str("thursday") {
        Ok(Weekday::Thu)
    } else if l == String::from_str("fri") || l == String::from_str("friday") {
        Ok(Weekday::Fri)
    } else if l == String::from_str("sat") || l == String::from_str("saturday") {
        Ok(Weekday::Sat)
    } else if l == String::from_str("sun") || l == String::from_str("sunday") {
        Ok(Weekday::Sun)
    } else {
        let mut m = String::from_str("unknown weekday: ");
        m.append(debug_quoted(l.as_str()).as_str());
        Err(m)
    }
}

/// The three-letter name a weekday is written as in the configuration.
pub fn weekday_short(w: Weekday) -> (r: &'static str)
    ensures
        r@ == short_name(w),
{
    match w {
        Weekday::Mon => "Mon",
        Weekday::Tue => "Tue",
        Weekday::Wed => "Wed",
        Weekday::Thu => "Thu",
        Weekday::Fri => "Fri",
        Weekday::Sat => "Sat",
        Weekday::Sun => "Sun",
    }
}

/// The work days that a list of names gives: each name read as a weekday,
/// each weekday kept once, in the order of its first name. The first name
/// that is no weekday is the error.
pub open spec fn work_days_from(names: Seq<Seq<char>>) -> Result<Seq<Weekday>, Seq<char>>
    decreases names.len(),
{
    if names.len() == 0 {
        Ok(seq![])
    } else {
        match work_days_from(names.drop_last()) {
            Err(e) => Err(e),
            Ok(ws) => match weekday_named(lowercase_text(trim(names.last()))) {
                None => Err(unknown_weekday_message(names.last())),
                Some(w) => if ws.contains(w) {
                    Ok(ws)
                } else {
                    Ok(ws.push(w))
                },
            },
        }
    }
}

pub open spec fn empty_work_days_message() -> Seq<char> {
    "work_days must not be empty"@
}

/// The configured work days, which must not be empty.
pub open spec fn work_days_spec(names: Seq<Seq<char>>) -> Result<Seq<Weekday>, Seq<char>> {
    match work_days_from(names) {
        Err(e) => Err(e),
        Ok(ws) => if ws.len() == 0 {
            Err(empty_work_days_message())
        } else {
            Ok(ws)
        },
    }
}

/// Whether no weekday occurs twice in `ws`.
pub open spec fn no_repeats(ws: Seq<Weekday>) -> bool {
    forall|i: int, j: int| 0 <= i < j < ws.len() ==> #[trigger] ws[i] != #[trigger] ws[j]
}

/// An error in the first names is the error of all of them.
pub proof fn lemma_work_days_error_stays(names: Seq<Seq<char>>, k: int)
    requires
        0 <= k <= names.len(),
        work_days_from(names.take(k)) is Err,
    ensures
        work_days_from(names) == work_days_from(names.take(k)),
    decreases names.len(),
{
    if k == names.len() {
        assert(names.take(k) =~= names);
    } else {
        let d = names.drop_last();
        assert(d.take(k) =~= names.take(k));
        lemma_work_days_error_stays(d, k);
    }
}

/// The work days of the `work_days` setting, read from its names.
pub fn normalize_work_days(names: &Vec<String>) -> (r: Result<Vec<Weekday>, String>)
    ensures
        match work_days_spec(crate::model::strings_view(names@)) {
            Ok(ws) => r matches Ok(v) && v@ == ws,
            Err(e) => r matches Err(m) && m@ == e,
        },
        r matches Ok(v) ==> v.len() > 0 && no_repeats(v@),
{
    let ghost ns = crate::model::strings_view(names@);
    let mut out: Vec<Weekday> = Vec::new();
    let mut k: usize = 0;
    while k < names.len()
        invariant
            k <= names.len(),
            ns == crate::model::strings_view(names@),
            work_days_from(ns.take(k as int)) == Ok::<Seq<Weekday>, Seq<char>>(out@),
            no_repeats(out@),
        decreases names.len() - k,
    {
        assert(ns.take(k + 1).drop_last() =~= ns.take(k as int));
        assert(ns.take(k + 1).last() == names@[k as int]@);
        let w = match parse_weekday(names[k].as_str()) {
            Ok(w) => w,
            Err(m) => {
                proof {
                    lemma_work_days_error_stays(ns, k + 1);
                }
                return Err(m);
            },
        };
        let mut seen = false;
        let mut j: usize = 0;
        while j < out.len()
            invariant
                j <= out.len(),
                seen == exists|i: int| 0 <= i < j && out@[i] == w,
            decreases out.len() - j,
        {
            if out[j] == w {
                seen = true;
            }
            j = j + 1;
        }
        assert(seen == out@.contains(w));
        if !seen {
            out.push(w);
        }
        k = k + 1;
    }
    assert(ns.take(names.len() as int) =~= ns);
    if out.len() == 0 {
        return Err(String::from_str("work_days must not be empty"));
    }
    Ok(out)
}

// ---------------------------------------------------------------------------
// Paths

/// `rest` inside `base`; a `rest` that starts at the root stands alone.
pub open spec fn path_join(base: Seq<char>, rest: Seq<char>) -> Seq<char> {
    if rest.len() > 0 && rest[0] == '/' {
        rest
    } else {
        join_path(base, rest)
    }
}

/// The data directory with a leading `~/` read as the home directory
/// `home`, when there is one.
pub open spec fn resolved_dir(data_dir: Seq<char>, home: Option<Seq<char>>) -> Seq<char> {
    match home {
        Some(h) => if starts_with(data_dir, "~/"@) {
            path_join(h, data_dir.skip(2))
        } else {
            data_dir
        },
        None => data_dir,
    }
}

pub open spec fn opt_text(s: Option<String>) -> Option<Seq<char>> {
    match s {
        Some(t) => Some(t@),
        None => None,
    }
}

fn join_dir(base: &str, rest: &str) -> (r: String)
    ensures
        r@ == path_join(base@, rest@),
{
    let n = rest.unicode_len();
    if n > 0 && rest.get_char(0) == '/' {
        return String::from_str(rest);
    }
    let mut r = String::from_str(base);
    let m = base.unicode_len();
    if m > 0 && base.get_char(m - 1) != '/' {
        proof {
            reveal_strlit("/");
        }
        r.append("/");
    }
    r.append(rest);
    r
}

/// The data directory with a leading `~/` read as the home directory `home`.
pub fn resolve_data_dir_in(data_dir: &str, home: Option<String>) -> (r: String)
    ensures
        r@ == resolved_dir(data_dir@, opt_text(home)),
{
    match home {
        Some(h) => {
            let v = chars_of(data_dir);
            if v.len() >= 2 && v[0] == '~' && v[1] == '/' {
                let rest = crate::text::string_of(&v, 2, v.len());
                proof {
                    assert(v@.subrange(2, v@.len() as int) =~= data_dir@.skip(2));
                    assert(starts_with(data_dir@, "~/"@)) by {
                        reveal_strlit("~/");
                        assert(data_dir@.take(2) =~= "~/"@);
                    }
                }
                join_dir(h.as_str(), rest.as_str())
            } else {
                proof {
                    reveal_strlit("~/");
                    if starts_with(data_dir@, "~/"@) {
                        assert(data_dir@.take(2) =~= "~/"@);
                        assert(data_dir@[0] == "~/"@[0]);
                        assert(data_dir@[1] == "~/"@[1]);
                    }
                }
                String::from_str(data_dir)
            }
        },
        None => String::from_str(data_dir),
    }
}

/// Calls `dirs::home_dir`, the text of the path lossily. What it gives
/// depends on the environment; the contract states nothing of it.
#[verifier::external_body]
fn home_dir() -> (r: Option<String>) {
    dirs::home_dir().map(|p| p.to_string_lossy().into_owned())
}

/// Resolve the data directory path, expanding ~ to the home directory.
pub fn resolve_data_dir(data_dir: &str) -> (r: String)
    ensures
        exists|home: Option<Seq<char>>| r@ == resolved_dir(data_dir@, home),
{
    let home = home_dir();
    resolve_data_dir_in(data_dir, home)
}

/// Where the configuration file is: under `xdg` when it is given (the
/// value of `XDG_CONFIG_HOME`), else under the system's configuration
/// directory `config_dir`, else under `~/.config`.
pub open spec fn config_path_spec(xdg: Option<Seq<char>>, config_dir: Option<Seq<char>>) -> Seq<
    char,
> {
    let base = match xdg {
        Some(x) => x,
        None => match config_dir {
            Some(c) => c,
            None => "~/.config"@,
        },
    };
    path_join(path_join(base, "bulletd"@), "config.toml"@)
}

/// The configuration file's path from `XDG_CONFIG_HOME` (when set) and the
/// system's configuration directory (when known).
pub fn config_path_from(xdg: Option<String>, config_dir: Option<String>) -> (r: String)
    ensures
        r@ == config_path_spec(opt_text(xdg), opt_text(config_dir)),
{
    let base = match xdg {
        Some(x) => x,
        None => match config_dir {
            Some(c) => c,
            None => String::from_str("~/.config"),
        },
    };
    let dir = join_dir(base.as_str(), "bulletd");
    join_dir(dir.as_str(), "config.toml")
}

/// Calls `dirs::config_dir`, the text of the path lossily. What it gives
/// depends on the environment; the contract states nothing of it.
#[verifier::external_body]
fn system_config_dir() -> (r: Option<String>) {
    dirs::config_dir().map(|p| p.to_string_lossy().into_owned())
}

/// The configuration file's path, given the value of `XDG_CONFIG_HOME`.
pub fn config_path_with(xdg: Option<String>) -> (r: String)
    ensures
        exists|c: Option<Seq<char>>| r@ == config_path_spec(opt_text(xdg), c),
{
    let c = system_config_dir();
    config_path_from(xdg, c)
}

// ---------------------------------------------------------------------------
// Theme colours

/// The value of an ASCII hex digit.
pub open spec fn hex_value(c: char) -> Option<int> {
    if '0' <= c && c <= '9' {
        Some(c as int - '0' as int)
    } else if 'a' <= c && c <= 'f' {
        Some(c as int - 'a' as int + 10)
    } else if 'A' <= c && c <= 'F' {
        Some(c as int - 'A' as int + 10)
    } else {
        None
    }
}

/// Whether `s` is `#` and six hex digits.
pub open spec fn hex_color_text(s: Seq<char>) -> bool {
    s.len() == 7 && s[0] == '#' && forall|k: int| 1 <= k < 7 ==> #[trigger] hex_value(s[k]) is Some
}

fn hex_digit(c: char) -> (r: Option<u8>)
    ensures
        match hex_value(c) {
            Some(v) => r == Some(v as u8),
            None => r is None,
        },
{
    if '0' <= c && c <= '9' {
        Some(((c as u32) - ('0' as u32)) as u8)
    } else if 'a' <= c && c <= 'f' {
        Some(((c as u32) - ('a' as u32) + 10) as u8)
    } else if 'A' <= c && c <= 'F' {
        Some(((c as u32) - ('A' as u32) + 10) as u8)
    } else {
        None
    }
}

/// Whether a text is a hex colour: `#` and exactly six hex digits.
pub fn is_valid_hex_color(s: &str) -> (r: bool)
    ensures
        r == hex_color_text(s@),
{
    let v = chars_of(s);
    if v.len() != 7 || v[0] != '#' {
        return false;
    }
    let mut k: usize = 1;
    while k < 7
        invariant
            1 <= k <= 7,
            v@ == s@,
            v.len() == 7,
            forall|m: int| 1 <= m < k ==> #[trigger] hex_value(v@[m]) is Some,
        decreases 7 - k,
    {
        if hex_digit(v[k]).is_none() {
            return false;
        }
        k = k + 1;
    }
    true
}

/// The byte that two characters give when read as `u8::from_str_radix(_, 16)`
/// reads them: an optional `+` and then hex digits.
pub open spec fn hex_byte(a: char, b: char) -> Option<u8> {
    if a == '+' {
        match hex_value(b) {
            Some(y) => Some(y as u8),
            None => None,
        }
    } else {
        match (hex_value(a), hex_value(b)) {
            (Some(x), Some(y)) => Some((16 * x + y) as u8),
            _ => None,
        }
    }
}

/// The colour a `#rrggbb` text names: red, green and blue.
pub open spec fn hex_rgb(s: Seq<char>) -> Option<(u8, u8, u8)> {
    if s.len() == 7 && s[0] == '#' && is_ascii_text(s) {
        match (hex_byte(s[1], s[2]), hex_byte(s[3], s[4]), hex_byte(s[5], s[6])) {
            (Some(r), Some(g), Some(b)) => Some((r, g, b)),
            _ => None,
        }
    } else {
        None
    }
}

fn parse_hex_byte(a: char, b: char) -> (r: Option<u8>)
    ensures
        r == hex_byte(a, b),
{
    if a == '+' {
        return hex_digit(b);
    }
    match (hex_digit(a), hex_digit(b)) {
        (Some(x), Some(y)) => Some(16 * x + y),
        _ => None,
    }
}

/// Parse a hex color string like "#1a1b26" into its red, green and blue.
pub fn parse_hex(hex: &str) -> (r: Option<(u8, u8, u8)>)
    ensures
        r == hex_rgb(hex@),
{
    let v = chars_of(hex);
    if v.len() != 7 || v[0] != '#' {
        return None;
    }
    let mut k: usize = 0;
    while k < 7
        invariant
            k <= 7,
            v@ == hex@,
            v.len() == 7,
            forall|m: int| 0 <= m < k ==> (#[trigger] v@[m] as u32) < 128,
        decreases 7 - k,
    {
        if (v[k] as u32) >= 128 {
            return None;
        }
        k = k + 1;
    }
    match (parse_hex_byte(v[1], v[2]), parse_hex_byte(v[3], v[4]), parse_hex_byte(v[5], v[6])) {
        (Some(r), Some(g), Some(b)) => Some((r, g, b)),
        _ => None,
    }
}

// ---------------------------------------------------------------------------
// The setup wizard

/// Whether an answer says yes: `yes` in any case, blanks around it aside.
pub fn answer_is_yes(answer: &str) -> (r: bool)
    ensures
        r == (lowercase_text(trim(answer@)) == "yes"@),
{
    let t = string_from_chars(&trimmed(&chars_of(answer)));
    let lower = to_lowercase(t.as_str());
    lower == String::from_str("yes")
}

/// The data directory an answer names: the answer without the blanks
/// around it, or nothing when nothing is left.
pub fn data_dir_answer(answer: &str) -> (r: Option<String>)
    ensures
        r is Some <==> trim(answer@).len() > 0,
        r matches Some(d) ==> d@ == trim(answer@),
{
    let t = trimmed(&chars_of(answer));
    if t.len() > 0 {
        Some(string_from_chars(&t))
    } else {
        None
    }
}

impl Config {
    /// The configuration the setup wizard writes: the answers given, dates
    /// shown as `%Y-%m-%d`, and Monday to Friday as work days.
    pub fn from_answers(
        data_dir: String,
        lookback_days: u32,
        stale_threshold: u32,
        show_ids: bool,
        theme: ThemeConfig,
    ) -> (r: Self)
        ensures
            r.general.data_dir == data_dir,
            r.general.lookback_days == lookback_days,
            r.display.date_format@ == "%Y-%m-%d"@,
            r.display.show_ids == show_ids,
            r.migration.stale_threshold == stale_threshold,
            r.migration.work_days@ == seq![
                Weekday::Mon,
                Weekday::Tue,
                Weekday::Wed,
                Weekday::Thu,
                Weekday::Fri,
            ],
            r.theme == theme,
    {
        Config {
            general: GeneralConfig { data_dir, lookback_days },
            display: DisplayConfig { date_format: String::from_str("%Y-%m-%d"), show_ids },
            migration: MigrationConfig { stale_threshold, work_days: default_work_days() },
            theme,
        }
    }
}

} // verus!
