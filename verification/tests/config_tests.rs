use bulletd_core::config::{
    answer_is_yes, config_path_from, data_dir_answer, default_work_days, is_valid_hex_color,
    normalize_work_days, parse_hex, parse_weekday, resolve_data_dir, resolve_data_dir_in,
    weekday_short, Config, IconsConfig, ThemeConfig,
};
use bulletd_core::text::parse_u32;
use bulletd_core::date::Weekday::{self, Fri, Mon, Sat, Sun, Thu, Tue, Wed};

fn names(ns: &[&str]) -> Vec<String> {
    ns.iter().map(|s| s.to_string()).collect()
}

#[test]
fn resolve_data_dir_with_tilde() {
    let resolved = resolve_data_dir("~/.local/share/bulletd/logs");
    assert!(!resolved.starts_with('~'));
    assert!(resolved.ends_with(".local/share/bulletd/logs"));
}

#[test]
fn resolve_data_dir_absolute() {
    let resolved = resolve_data_dir("/tmp/bulletd/logs");
    assert_eq!(resolved, "/tmp/bulletd/logs");
}

#[test]
fn resolve_data_dir_with_given_home() {
    assert_eq!(
        resolve_data_dir_in("~/logs", Some("/home/me".to_string())),
        "/home/me/logs"
    );
    assert_eq!(
        resolve_data_dir_in("~/logs", Some("/home/me/".to_string())),
        "/home/me/logs"
    );
    assert_eq!(resolve_data_dir_in("~/logs", None), "~/logs");
    assert_eq!(resolve_data_dir_in("~logs", Some("/h".to_string())), "~logs");
    assert_eq!(resolve_data_dir_in("~//etc", Some("/h".to_string())), "/etc");
}

#[test]
fn config_path_choices() {
    assert_eq!(
        config_path_from(Some("/x".to_string()), Some("/c".to_string())),
        "/x/bulletd/config.toml"
    );
    assert_eq!(
        config_path_from(None, Some("/c/".to_string())),
        "/c/bulletd/config.toml"
    );
    assert_eq!(config_path_from(None, None), "~/.config/bulletd/config.toml");
}

#[test]
fn work_days_default_applied_when_absent() {
    assert_eq!(default_work_days(), vec![Mon, Tue, Wed, Thu, Fri]);
}

#[test]
fn work_days_empty_list_rejected() {
    let r = normalize_work_days(&names(&[]));
    assert_eq!(r, Err("work_days must not be empty".to_string()));
}

#[test]
fn work_days_case_insensitive_abbreviations() {
    assert_eq!(
        normalize_work_days(&names(&["mon", "TUE", "Wed"])),
        Ok(vec![Mon, Tue, Wed])
    );
}

#[test]
fn work_days_full_names_accepted() {
    assert_eq!(
        normalize_work_days(&names(&["Monday", "Friday", "Saturday"])),
        Ok(vec![Mon, Fri, Sat])
    );
}

#[test]
fn work_days_unknown_name_rejected() {
    assert!(normalize_work_days(&names(&["Funday"])).is_err());
    let r = normalize_work_days(&names(&["Mon", "Funday"]));
    assert_eq!(r, Err("unknown weekday: \"funday\"".to_string()));
}

#[test]
fn work_days_duplicates_deduplicated() {
    assert_eq!(
        normalize_work_days(&names(&["Mon", "Mon", "Tue"])),
        Ok(vec![Mon, Tue])
    );
}

#[test]
fn work_days_serialize_uses_canonical_short_form() {
    let written: Vec<&str> = [Mon, Thu, Fri].iter().map(|w| weekday_short(*w)).collect();
    assert_eq!(written, vec!["Mon", "Thu", "Fri"]);
    assert!(!written.contains(&"Monday"));
    assert!(!written.contains(&"Thursday"));
}

#[test]
fn work_days_round_trip_irregular() {
    let written: Vec<String> =
        [Mon, Thu, Fri].iter().map(|w| weekday_short(*w).to_string()).collect();
    assert_eq!(normalize_work_days(&written), Ok(vec![Mon, Thu, Fri]));
}

#[test]
fn weekday_names_read_back() {
    let all: [Weekday; 7] = [Mon, Tue, Wed, Thu, Fri, Sat, Sun];
    for w in all {
        assert_eq!(parse_weekday(weekday_short(w)), Ok(w));
    }
    assert_eq!(parse_weekday("  sunday "), Ok(Sun));
    assert_eq!(weekday_short(Thu), "Thu");
}

#[test]
fn valid_hex_colors() {
    assert!(is_valid_hex_color("#1a1b26"));
    assert!(is_valid_hex_color("#FFFFFF"));
    assert!(is_valid_hex_color("#000000"));
    assert!(is_valid_hex_color("#c0caf5"));
}

#[test]
fn invalid_hex_colors() {
    assert!(!is_valid_hex_color("1a1b26")); // missing #
    assert!(!is_valid_hex_color("#1a1b2")); // too short
    assert!(!is_valid_hex_color("#1a1b26f")); // too long
    assert!(!is_valid_hex_color("#gggggg")); // invalid hex
    assert!(!is_valid_hex_color("")); // empty
    assert!(!is_valid_hex_color("#")); // just hash
}

#[test]
fn parse_hex_valid() {
    assert_eq!(parse_hex("#1a1b26"), Some((26, 27, 38)));
    assert_eq!(parse_hex("#ffffff"), Some((255, 255, 255)));
    assert_eq!(parse_hex("#000000"), Some((0, 0, 0)));
    assert_eq!(parse_hex("#FF0000"), Some((255, 0, 0)));
}

#[test]
fn parse_hex_invalid() {
    assert_eq!(parse_hex("1a1b26"), None); // missing #
    assert_eq!(parse_hex("#1a1b2"), None); // too short
    assert_eq!(parse_hex("#1a1b26f"), None); // too long
    assert_eq!(parse_hex("#gggggg"), None); // invalid hex
    assert_eq!(parse_hex(""), None);
    assert_eq!(parse_hex("#"), None);
    assert_eq!(parse_hex("#αβγ"), None); // multi-byte UTF-8, 6 bytes but not 6 ASCII chars
}

#[test]
fn parse_hex_reads_a_plus_sign_as_radix_parsing_does() {
    assert_eq!(parse_hex("#+f0a0b"), Some((15, 10, 11)));
    assert_eq!(parse_hex("#f+0a0b"), None);
}

#[test]
fn icon_sets() {
    let m = IconsConfig::minimal();
    assert_eq!(m.open, "○");
    let e = IconsConfig::emoji();
    assert_eq!(e.migrated, "➡️");
}

#[test]
fn yes_answers() {
    assert!(answer_is_yes("yes"));
    assert!(answer_is_yes(" YES "));
    assert!(answer_is_yes("Yes"));
    assert!(!answer_is_yes("y"));
    assert!(!answer_is_yes("no"));
    assert!(!answer_is_yes(""));
}

#[test]
fn data_dir_answers() {
    assert_eq!(data_dir_answer("  ~/logs \t"), Some("~/logs".to_string()));
    assert_eq!(data_dir_answer("   "), None);
    assert_eq!(data_dir_answer(""), None);
}

#[test]
fn numbers_read_like_str_parse() {
    assert_eq!(parse_u32("7"), Some(7));
    assert_eq!(parse_u32("+7"), Some(7));
    assert_eq!(parse_u32("007"), Some(7));
    assert_eq!(parse_u32("4294967295"), Some(u32::MAX));
    assert_eq!(parse_u32("4294967296"), None);
    assert_eq!(parse_u32("-1"), None);
    assert_eq!(parse_u32("12a"), None);
    assert_eq!(parse_u32(""), None);
    assert_eq!(parse_u32("+"), None);
}

#[test]
fn config_from_wizard_answers() {
    let theme = ThemeConfig {
        background: "#000000".to_string(),
        foreground: "#ffffff".to_string(),
        accent: "#111111".to_string(),
        success: "#222222".to_string(),
        warning: "#333333".to_string(),
        error: "#444444".to_string(),
        muted: "#555555".to_string(),
    };
    let c = Config::from_answers("~/logs".to_string(), 7, 3, true, theme.clone());
    assert_eq!(c.general.data_dir, "~/logs");
    assert_eq!(c.general.lookback_days, 7);
    assert_eq!(c.display.date_format, "%Y-%m-%d");
    assert!(c.display.show_ids);
    assert_eq!(c.migration.stale_threshold, 3);
    assert_eq!(c.migration.work_days, default_work_days());
    assert_eq!(c.theme, theme);
}
