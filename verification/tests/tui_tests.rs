use bulletd_core::config::ThemeConfig;
use bulletd_core::date::Date;
use bulletd_core::tui::{
    can_submit, form_result, FormField, FormInput, FormKey, FormMode, FormState, MigratePicker,
    PickerKey, RgbTheme,
};

fn ymd(y: i32, m: u32, d: u32) -> Date {
    Date::from_ymd_opt(y, m, d).unwrap()
}

fn picker_with_n(n: usize) -> MigratePicker {
    let dates = (1..=n).map(|i| ymd(2026, 5, i as u32)).collect();
    MigratePicker::new("BL-001".to_string(), dates)
}

#[test]
fn cursor_starts_at_zero_and_moves() {
    let mut p = picker_with_n(5);
    assert_eq!(p.cursor, 0);
    p.handle_key(PickerKey::Down);
    assert_eq!(p.cursor, 1);
    p.handle_key(PickerKey::Down);
    assert_eq!(p.cursor, 2);
    p.handle_key(PickerKey::Up);
    assert_eq!(p.cursor, 1);
}

#[test]
fn cursor_clamps_at_boundaries() {
    let mut p = picker_with_n(3);
    p.handle_key(PickerKey::Up); // already at 0
    assert_eq!(p.cursor, 0);
    p.handle_key(PickerKey::End);
    assert_eq!(p.cursor, 2);
    p.handle_key(PickerKey::Down); // already at last
    assert_eq!(p.cursor, 2);
}

#[test]
fn enter_submits_and_selected_date_is_correct() {
    let mut p = picker_with_n(5);
    p.handle_key(PickerKey::Down);
    p.handle_key(PickerKey::Down);
    p.handle_key(PickerKey::Enter);
    assert!(p.submitted);
    assert!(!p.cancelled);
    assert_eq!(p.selected_date(), Some(ymd(2026, 5, 3)));
}

#[test]
fn esc_cancels() {
    let mut p = picker_with_n(5);
    p.handle_key(PickerKey::Esc);
    assert!(p.cancelled);
    assert!(!p.submitted);
}

#[test]
fn empty_dates_treats_enter_as_cancel() {
    let mut p = MigratePicker::new("BL-001".to_string(), vec![]);
    p.handle_key(PickerKey::Enter);
    assert!(p.cancelled);
    assert!(!p.submitted);
}

#[test]
fn page_keys_jump_by_ten() {
    let mut p = picker_with_n(30);
    p.handle_key(PickerKey::PageDown);
    assert_eq!(p.cursor, 10);
    p.handle_key(PickerKey::PageDown);
    assert_eq!(p.cursor, 20);
    p.handle_key(PickerKey::PageUp);
    assert_eq!(p.cursor, 10);
}

#[test]
fn page_down_stops_at_the_last_date_and_other_keys_pass() {
    let mut p = picker_with_n(12);
    p.handle_key(PickerKey::PageDown);
    p.handle_key(PickerKey::PageDown);
    assert_eq!(p.cursor, 11);
    p.handle_key(PickerKey::Home);
    assert_eq!(p.cursor, 0);
    assert!(!p.handle_key(PickerKey::Other));
}

#[test]
fn form_fields_alternate() {
    assert_eq!(FormField::Text.next(), FormField::Notes);
    assert_eq!(FormField::Notes.next(), FormField::Text);
}

#[test]
fn form_result_trims_text_and_drops_blank_notes() {
    let lines = vec!["first".to_string(), "   ".to_string(), " second ".to_string(), String::new()];
    let r = form_result("  Fix it  ", &lines);
    assert_eq!(r.text, "Fix it");
    assert_eq!(r.notes, vec!["first".to_string(), " second ".to_string()]);
    assert!(can_submit(" x "));
    assert!(!can_submit("   "));
}

#[test]
fn theme_default_is_valid() {
    let theme = RgbTheme::default_colors();
    assert_eq!(theme.background, (26, 27, 38));
    assert_eq!(theme.foreground, (192, 202, 245));
}

fn theme_config(background: &str) -> ThemeConfig {
    ThemeConfig {
        background: background.to_string(),
        foreground: "#00ff00".to_string(),
        accent: "#0000ff".to_string(),
        success: "#ffffff".to_string(),
        warning: "#000000".to_string(),
        error: "#123456".to_string(),
        muted: "#abcdef".to_string(),
    }
}

#[test]
fn theme_from_config_with_valid_colors() {
    let theme = RgbTheme::from_config(&theme_config("#ff0000"));
    assert_eq!(theme.background, (255, 0, 0));
    assert_eq!(theme.foreground, (0, 255, 0));
}

#[test]
fn theme_from_config_falls_back_on_invalid() {
    let theme = RgbTheme::from_config(&theme_config("not a color"));
    // Invalid background should fall back to default
    assert_eq!(theme.background, RgbTheme::default_colors().background);
    // Valid foreground should use config value
    assert_eq!(theme.foreground, (0, 255, 0));
}

#[test]
fn form_state_types_and_erases_in_the_text_field() {
    let mut f = FormState::new_add();
    assert_eq!(f.handle_key(FormKey::Char('h')), FormInput::Taken);
    f.handle_key(FormKey::Char('i'));
    f.handle_key(FormKey::Char('!'));
    assert_eq!(f.text_buffer(), "hi!");
    f.handle_key(FormKey::Backspace);
    assert_eq!(f.text_buffer(), "hi");
    assert_eq!(f.handle_key(FormKey::Other), FormInput::Ignored);
}

#[test]
fn form_state_backspace_on_empty_text_keeps_it_empty() {
    let mut f = FormState::new_add();
    assert_eq!(f.handle_key(FormKey::Backspace), FormInput::Taken);
    assert_eq!(f.text_buffer(), "");
}

#[test]
fn form_state_tab_hands_keys_to_the_notes() {
    let mut f = FormState::new_edit("a1".to_string(), "Fix it");
    assert_eq!(f.mode, FormMode::Edit { bullet_id: "a1".to_string() });
    assert_eq!(f.handle_key(FormKey::Tab), FormInput::Taken);
    assert_eq!(f.focused, FormField::Notes);
    assert_eq!(f.handle_key(FormKey::Char('x')), FormInput::ToNotes);
    assert_eq!(f.text_buffer(), "Fix it");
    f.handle_key(FormKey::Tab);
    assert_eq!(f.focused, FormField::Text);
}

#[test]
fn form_state_saves_only_text_that_is_not_blank() {
    let mut f = FormState::new_edit("a1".to_string(), "   ");
    f.handle_key(FormKey::Save);
    assert!(!f.submitted);
    f.handle_key(FormKey::Char('a'));
    f.handle_key(FormKey::Save);
    assert!(f.submitted);
}

#[test]
fn form_state_esc_cancels() {
    let mut f = FormState::new_add();
    assert_eq!(f.handle_key(FormKey::Esc), FormInput::Taken);
    assert!(f.cancelled);
    assert!(!f.submitted);
}
