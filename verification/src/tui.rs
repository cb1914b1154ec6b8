//! The decisions behind the terminal interface: the bullet form, the
//! migrate picker and the theme colours. Drawing and reading keys is left
//! to the interface itself.

use crate::config::{hex_rgb, parse_hex, ThemeConfig};
use crate::date::Date;
use crate::model::{bullets_view, strings_view, Bullet, BulletStatus, BulletView};
use crate::text::{chars_of, is_blank, string_from_chars, trim, trimmed};
use vstd::prelude::*;

verus! {

// ---------------------------------------------------------------------------
// The bullet form

/// Which field is focused in the form.
#[derive(Debug, Clone, Copy, PartialEq, Eq, Structural)]
pub enum FormField {
    Text,
    Notes,
}

impl FormField {
    /// The field that Tab moves to.
    pub fn next(self) -> (r: Self)
        ensures
            r == match self {
                FormField::Text => FormField::Notes,
                FormField::Notes => FormField::Text,
            },
    {
        match self {
            FormField::Text => FormField::Notes,
            FormField::Notes => FormField::Text,
        }
    }
}

/// Whether the form adds a bullet or edits one.
#[derive(Debug, Clone, PartialEq, Eq)]
pub enum FormMode {
    Add,
    Edit { bullet_id: String },
}

/// Result of the form after submission.
#[derive(Debug, Clone, PartialEq, Eq)]
pub struct FormResult {
    pub text: String,
    pub notes: Vec<String>,
}

/// The lines of `ls` that are not blank, in their order.
pub open spec fn non_blank(ls: Seq<Seq<char>>) -> Seq<Seq<char>>
    decreases ls.len(),
{
    if ls.len() == 0 {
        seq![]
    } else {
        let rest = non_blank(ls.drop_last());
        if trim(ls.last()).len() > 0 {
            rest.push(ls.last())
        } else {
            rest
        }
    }
}

/// What a submitted form gives: the bullet text trimmed, and the note lines
/// that are not blank, as they were typed.
pub fn form_result(text_buffer: &str, note_lines: &Vec<String>) -> (r: FormResult)
    ensures
        r.text@ == trim(text_buffer@),
        strings_view(r.notes@) == non_blank(strings_view(note_lines@)),
{
    let text = string_from_chars(&trimmed(&chars_of(text_buffer)));
    let ghost ls = strings_view(note_lines@);
    let mut notes: Vec<String> = Vec::new();
    let mut k: usize = 0;
    while k < note_lines.len()
        invariant
            k <= note_lines.len(),
            ls == strings_view(note_lines@),
            strings_view(notes@) == non_blank(ls.take(k as int)),
        decreases note_lines.len() - k,
    {
        assert(ls.take(k + 1).drop_last() =~= ls.take(k as int));
        assert(ls.take(k + 1).last() == note_lines@[k as int]@);
        let ghost before = notes@;
        if !is_blank(&chars_of(note_lines[k].as_str())) {
            notes.push(note_lines[k].clone());
            assert(strings_view(notes@) =~= strings_view(before).push(note_lines@[k as int]@));
        }
        k = k + 1;
    }
    assert(ls.take(note_lines.len() as int) =~= ls);
    FormResult { text, notes }
}

/// Whether the form may be submitted: the bullet text is not blank.
pub fn can_submit(text_buffer: &str) -> (r: bool)
    ensures
        r == (trim(text_buffer@).len() > 0),
{
    !is_blank(&chars_of(text_buffer))
}

/// The keys the bullet form reads; `Save` is Ctrl+S, `Tab` either tab.
#[derive(Debug, Clone, Copy, PartialEq, Eq, Structural)]
pub enum FormKey {
    Esc,
    Save,
    Tab,
    Char(char),
    Backspace,
    Other,
}

/// What became of a key given to the form.
#[derive(Debug, Clone, Copy, PartialEq, Eq, Structural)]
pub enum FormInput {
    /// The form used it.
    Taken,
    /// The form had no use for it.
    Ignored,
    /// The notes field has the focus: the key is for its editor.
    ToNotes,
}

/// The bullet form, but for its notes editor.
pub struct FormState {
    /// Whether the form adds a bullet or edits one.
    pub mode: FormMode,
    /// The bullet text typed so far.
    pub text: Vec<char>,
    /// Which field is focused.
    pub focused: FormField,
    /// Set by Ctrl+S when the text is not blank.
    pub submitted: bool,
    /// Set by Esc.
    pub cancelled: bool,
}

/// The form after `key`: Esc cancels, Ctrl+S submits a text that is not
/// blank, Tab moves the focus, and the focused text field takes characters
/// and Backspace.
pub open spec fn form_after(f: FormState, key: FormKey) -> FormState {
    match key {
        FormKey::Esc => FormState { cancelled: true, ..f },
        FormKey::Save => FormState { submitted: f.submitted || trim(f.text@).len() > 0, ..f },
        FormKey::Tab => FormState {
            focused: match f.focused {
                FormField::Text => FormField::Notes,
                FormField::Notes => FormField::Text,
            },
            ..f
        },
        _ => f,
    }
}

impl FormState {
    /// An empty form for a new bullet.
    pub fn new_add() -> (r: Self)
        ensures
            r.mode == FormMode::Add,
            r.text@ == Seq::<char>::empty(),
            r.focused == FormField::Text,
            !r.submitted,
            !r.cancelled,
    {
        FormState {
            mode: FormMode::Add,
            text: Vec::new(),
            focused: FormField::Text,
            submitted: false,
            cancelled: false,
        }
    }

    /// A form on the bullet `bullet_id`, holding its text.
    pub fn new_edit(bullet_id: String, text: &str) -> (r: Self)
        ensures
            r.mode == (FormMode::Edit { bullet_id }),
            r.text@ == text@,
            r.focused == FormField::Text,
            !r.submitted,
            !r.cancelled,
    {
        FormState {
            mode: FormMode::Edit { bullet_id },
            text: chars_of(text),
            focused: FormField::Text,
            submitted: false,
            cancelled: false,
        }
    }

    /// The bullet text typed so far.
    pub fn text_buffer(&self) -> (r: String)
        ensures
            r@ == self.text@,
    {
        string_from_chars(&self.text)
    }

    /// Handle a key; say whether it was used or is for the notes editor.
    pub fn handle_key(&mut self, key: FormKey) -> (r: FormInput)
        ensures
            final(self).mode == old(self).mode,
            match key {
                FormKey::Esc | FormKey::Save | FormKey::Tab => {
                    &&& *final(self) == form_after(*old(self), key)
                    &&& r == FormInput::Taken
                },
                _ => match old(self).focused {
                    FormField::Notes => *final(self) == *old(self) && r == FormInput::ToNotes,
                    FormField::Text => {
                        &&& final(self).focused == old(self).focused
                        &&& final(self).submitted == old(self).submitted
                        &&& final(self).cancelled == old(self).cancelled
                        &&& match key {
                            FormKey::Char(c) => final(self).text@ == old(self).text@.push(c)
                                && r == FormInput::Taken,
                            FormKey::Backspace => final(self).text@ == (if old(self).text@.len()
                                > 0 {
                                old(self).text@.drop_last()
                            } else {
                                old(self).text@
                            }) && r == FormInput::Taken,
                            _ => final(self).text@ == old(self).text@ && r == FormInput::Ignored,
                        }
                    },
                },
            },
    {
        match key {
            FormKey::Esc => {
                self.cancelled = true;
                return FormInput::Taken;
            },
            FormKey::Save => {
                if !is_blank(&self.text) {
                    self.submitted = true;
                }
                return FormInput::Taken;
            },
            FormKey::Tab => {
                self.focused = self.focused.next();
                return FormInput::Taken;
            },
            _ => {},
        }
        match self.focused {
            FormField::Notes => FormInput::ToNotes,
            FormField::Text => match key {
                FormKey::Char(c) => {
                    self.text.push(c);
                    FormInput::Taken
                },
                FormKey::Backspace => {
                    if self.text.len() > 0 {
                        self.text.pop();
                    }
                    FormInput::Taken
                },
                _ => FormInput::Ignored,
            },
        }
    }
}

// ---------------------------------------------------------------------------
// The migrate picker

/// The keys the migrate picker reads.
#[derive(Debug, Clone, Copy, PartialEq, Eq, Structural)]
pub enum PickerKey {
    Esc,
    Enter,
    Up,
    Down,
    Home,
    End,
    PageUp,
    PageDown,
    Other,
}

/// Where a key moves the cursor of a list of `len` entries.
pub open spec fn cursor_after(c: int, len: int, key: PickerKey) -> int {
    match key {
        PickerKey::Up => if c > 0 {
            c - 1
        } else {
            c
        },
        PickerKey::Down => if len > 0 && c + 1 < len {
            c + 1
        } else {
            c
        },
        PickerKey::Home => 0,
        PickerKey::End => if len > 0 {
            len - 1
        } else {
            c
        },
        PickerKey::PageDown => {
            let max = if len > 0 {
                len - 1
            } else {
                0
            };
            if c + 10 < max {
                c + 10
            } else {
                max
            }
        },
        PickerKey::PageUp => if c >= 10 {
            c - 10
        } else {
            0
        },
        _ => c,
    }
}

/// The picker after `key`: the cursor moved, Enter submitting the
/// highlighted day (or cancelling when there is none), Esc cancelling.
pub open spec fn picker_after(p: MigratePicker, key: PickerKey) -> MigratePicker {
    MigratePicker {
        cursor: cursor_after(p.cursor as int, p.dates.len() as int, key) as usize,
        cancelled: p.cancelled || key == PickerKey::Esc || (key == PickerKey::Enter
            && p.dates.len() == 0),
        submitted: p.submitted || (key == PickerKey::Enter && p.dates.len() > 0),
        ..p
    }
}

/// Modal picker for choosing a future work day to migrate to.
pub struct MigratePicker {
    /// The bullet ID being migrated (captured at open time).
    pub bullet_id: String,
    /// Pre-computed list of upcoming work days.
    pub dates: Vec<Date>,
    /// Currently highlighted index.
    pub cursor: usize,
    /// Set on Enter.
    pub submitted: bool,
    /// Set on Esc.
    pub cancelled: bool,
}

impl MigratePicker {
    /// The cursor is on an entry, or at 0 when there is none.
    pub open spec fn well_formed(&self) -> bool {
        self.cursor == 0 || self.cursor < self.dates.len()
    }

    pub fn new(bullet_id: String, dates: Vec<Date>) -> (r: Self)
        ensures
            r.well_formed(),
            r.cursor == 0,
            r.bullet_id == bullet_id,
            r.dates == dates,
            !r.submitted,
            !r.cancelled,
    {
        MigratePicker { bullet_id, dates, cursor: 0, submitted: false, cancelled: false }
    }

    /// The highlighted date, if there is one.
    pub fn selected_date(&self) -> (r: Option<Date>)
        ensures
            r == (if 0 <= self.cursor < self.dates.len() {
                Some(self.dates@[self.cursor as int])
            } else {
                None
            }),
    {
        if self.cursor < self.dates.len() {
            Some(self.dates[self.cursor])
        } else {
            None
        }
    }

    /// Handle a key event. Returns true if the picker consumed it.
    pub fn handle_key(&mut self, key: PickerKey) -> (r: bool)
        requires
            old(self).well_formed(),
        ensures
            final(self).well_formed(),
            r == (key != PickerKey::Other),
            *final(self) == picker_after(*old(self), key),
    {
        let len = self.dates.len();
        match key {
            PickerKey::Esc => {
                self.cancelled = true;
                true
            },
            PickerKey::Enter => {
                if len == 0 {
                    self.cancelled = true;
                } else {
                    self.submitted = true;
                }
                true
            },
            PickerKey::Up => {
                if self.cursor > 0 {
                    self.cursor = self.cursor - 1;
                }
                true
            },
            PickerKey::Down => {
                if len > 0 && self.cursor + 1 < len {
                    self.cursor = self.cursor + 1;
                }
                true
            },
            PickerKey::Home => {
                self.cursor = 0;
                true
            },
            PickerKey::End => {
                if len > 0 {
                    self.cursor = len - 1;
                }
                true
            },
            PickerKey::PageDown => {
                let max = if len > 0 {
                    len - 1
                } else {
                    0
                };
                if self.cursor < max && max - self.cursor > 10 {
                    self.cursor = self.cursor + 10;
                } else {
                    self.cursor = max;
                }
                true
            },
            PickerKey::PageUp => {
                if self.cursor >= 10 {
                    self.cursor = self.cursor - 10;
                } else {
                    self.cursor = 0;
                }
                true
            },
            PickerKey::Other => false,
        }
    }
}

// ---------------------------------------------------------------------------
// Theme colours

/// Red, green and blue.
pub type Rgb = (u8, u8, u8);

/// The theme's colours as red, green and blue.
#[derive(Debug, Clone, Copy, PartialEq, Eq)]
pub struct RgbTheme {
    pub background: Rgb,
    pub foreground: Rgb,
    pub accent: Rgb,
    pub success: Rgb,
    pub warning: Rgb,
    pub error: Rgb,
    pub muted: Rgb,
}

pub open spec fn default_rgb_theme() -> RgbTheme {
    RgbTheme {
        background: (26, 27, 38),
        foreground: (192, 202, 245),
        accent: (122, 162, 247),
        success: (158, 206, 106),
        warning: (224, 175, 104),
        error: (247, 118, 142),
        muted: (86, 95, 137),
    }
}

/// The colour a setting names, or `fallback` when it names none.
pub open spec fn color_or(setting: Seq<char>, fallback: Rgb) -> Rgb {
    match hex_rgb(setting) {
        Some(c) => c,
        None => fallback,
    }
}

fn color_setting(setting: &String, fallback: Rgb) -> (r: Rgb)
    ensures
        r == color_or(setting@, fallback),
{
    match parse_hex(setting.as_str()) {
        Some(c) => c,
        None => fallback,
    }
}

impl RgbTheme {
    /// The built-in colours.
    pub fn default_colors() -> (r: Self)
        ensures
            r == default_rgb_theme(),
    {
        RgbTheme {
            background: (26, 27, 38),
            foreground: (192, 202, 245),
            accent: (122, 162, 247),
            success: (158, 206, 106),
            warning: (224, 175, 104),
            error: (247, 118, 142),
            muted: (86, 95, 137),
        }
    }

    /// Load theme from config, falling back to defaults for any invalid colors.
    pub fn from_config(config: &ThemeConfig) -> (r: Self)
        ensures
            r.background == color_or(config.background@, default_rgb_theme().background),
            r.foreground == color_or(config.foreground@, default_rgb_theme().foreground),
            r.accent == color_or(config.accent@, default_rgb_theme().accent),
            r.success == color_or(config.success@, default_rgb_theme().success),
            r.warning == color_or(config.warning@, default_rgb_theme().warning),
            r.error == color_or(config.error@, default_rgb_theme().error),
            r.muted == color_or(config.muted@, default_rgb_theme().muted),
    {
        let d = Self::default_colors();
        RgbTheme {
            background: color_setting(&config.background, d.background),
            foreground: color_setting(&config.foreground, d.foreground),
            accent: color_setting(&config.accent, d.accent),
            success: color_setting(&config.success, d.success),
            warning: color_setting(&config.warning, d.warning),
            error: color_setting(&config.error, d.error),
            muted: color_setting(&config.muted, d.muted),
        }
    }
}

// ---------------------------------------------------------------------------
// The grouped view

/// The positions of the bullets of `bs` that have status `s`, in order.
pub open spec fn positions_with(bs: Seq<BulletView>, s: BulletStatus) -> Seq<int>
    decreases bs.len(),
{
    if bs.len() == 0 {
        seq![]
    } else {
        let rest = positions_with(bs.drop_last(), s);
        if bs.last().status == s {
            rest.push(bs.len() - 1)
        } else {
            rest
        }
    }
}

/// The positions of the bullets in the order of the grouped view: the open
/// ones, then the done, migrated, cancelled and backlogged ones, each group
/// in the order of the log.
pub open spec fn grouped_positions(bs: Seq<BulletView>) -> Seq<int> {
    positions_with(bs, BulletStatus::Open) + positions_with(bs, BulletStatus::Done)
        + positions_with(bs, BulletStatus::Migrated) + positions_with(bs, BulletStatus::Cancelled)
        + positions_with(bs, BulletStatus::Backlogged)
}

pub open spec fn positions_view(v: Seq<usize>) -> Seq<int> {
    v.map_values(|i: usize| i as int)
}

/// The positions of the bullets that have status `s`, in order.
pub fn positions_of_status(bullets: &Vec<Bullet>, s: BulletStatus) -> (r: Vec<usize>)
    ensures
        positions_view(r@) == positions_with(bullets_view(bullets@), s),
        forall|j: int| 0 <= j < r.len() ==> r@[j] < bullets.len(),
{
    let ghost bs = bullets_view(bullets@);
    let mut r: Vec<usize> = Vec::new();
    let mut k: usize = 0;
    while k < bullets.len()
        invariant
            k <= bullets.len(),
            bs == bullets_view(bullets@),
            positions_view(r@) == positions_with(bs.take(k as int), s),
            forall|j: int| 0 <= j < r.len() ==> r@[j] < k,
        decreases bullets.len() - k,
    {
        assert(bs.take(k + 1).drop_last() =~= bs.take(k as int));
        assert(bs.take(k + 1).last() == bs[k as int]);
        let ghost before = r@;
        if bullets[k].status == s {
            r.push(k);
            assert(positions_view(r@) =~= positions_view(before).push(k as int));
        }
        k = k + 1;
    }
    assert(bs.take(bullets.len() as int) =~= bs);
    r
}

/// The positions of the bullets in the order the grouped view shows them.
pub fn grouped_indices(bullets: &Vec<Bullet>) -> (r: Vec<usize>)
    ensures
        positions_view(r@) == grouped_positions(bullets_view(bullets@)),
{
    let mut r = positions_of_status(bullets, BulletStatus::Open);
    let mut d = positions_of_status(bullets, BulletStatus::Done);
    let mut m = positions_of_status(bullets, BulletStatus::Migrated);
    let mut c = positions_of_status(bullets, BulletStatus::Cancelled);
    let mut b = positions_of_status(bullets, BulletStatus::Backlogged);
    let ghost (r0, d0, m0, c0, b0) = (r@, d@, m@, c@, b@);
    r.append(&mut d);
    r.append(&mut m);
    r.append(&mut c);
    r.append(&mut b);
    assert(r@ == r0 + d0 + m0 + c0 + b0);
    assert(positions_view(r@) =~= positions_view(r0) + positions_view(d0) + positions_view(m0)
        + positions_view(c0) + positions_view(b0));
    r
}

} // verus!
