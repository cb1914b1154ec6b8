use bulletd_core::config::IconsConfig;
use bulletd_core::model::{BulletStatus, STATUS_GROUP_ORDER};

#[test]
fn status_emoji_round_trip() {
    let statuses = [
        BulletStatus::Open,
        BulletStatus::Done,
        BulletStatus::Migrated,
        BulletStatus::Cancelled,
        BulletStatus::Backlogged,
    ];

    for status in &statuses {
        let emoji = status.as_emoji();
        let parsed = BulletStatus::from_emoji(emoji).unwrap();
        assert_eq!(*status, parsed, "round-trip failed for {emoji}");
    }
}

#[test]
fn status_from_emoji_with_whitespace_all_variants() {
    let cases = [
        (" 📌 ", BulletStatus::Open),
        ("  ✅  ", BulletStatus::Done),
        (" ➡️ ", BulletStatus::Migrated),
        ("  ❌  ", BulletStatus::Cancelled),
        (" 📥 ", BulletStatus::Backlogged),
    ];

    for (input, expected) in &cases {
        let parsed = BulletStatus::from_emoji(input).unwrap();
        assert_eq!(
            *expected, parsed,
            "whitespace parsing failed for input: {input:?}"
        );
    }
}

#[test]
fn status_from_emoji_unknown() {
    let result = BulletStatus::from_emoji("🦀");
    assert!(result.is_err());
}

#[test]
fn migrated_emoji_all_variants_with_whitespace() {
    let cases = ["➡️", "➡", " ➡️ ", "  ➡  ", "  ➡️  "];

    for input in &cases {
        let parsed = BulletStatus::from_emoji(input).unwrap();
        assert_eq!(
            BulletStatus::Migrated,
            parsed,
            "migrated parsing failed for input: {input:?}"
        );
    }
}

#[test]
fn unknown_emoji_error_carries_trimmed_text() {
    match BulletStatus::from_emoji("  🦀 ") {
        Err(bulletd_core::error::Error::UnknownStatusEmoji { emoji }) => assert_eq!(emoji, "🦀"),
        other => panic!("expected UnknownStatusEmoji, got {other:?}"),
    }
}

#[test]
fn display_names_are_lowercase_words() {
    assert_eq!(BulletStatus::Open.display_name(), "open");
    assert_eq!(BulletStatus::Done.display_name(), "done");
    assert_eq!(BulletStatus::Migrated.display_name(), "migrated");
    assert_eq!(BulletStatus::Cancelled.display_name(), "cancelled");
    assert_eq!(BulletStatus::Backlogged.display_name(), "backlogged");
}

#[test]
fn display_icons_follow_the_icon_set() {
    let minimal = IconsConfig::minimal();
    assert_eq!(BulletStatus::Open.display_icon(&minimal), "○");
    assert_eq!(BulletStatus::Done.display_icon(&minimal), "✓");
    assert_eq!(BulletStatus::Migrated.display_icon(&minimal), "→");
    assert_eq!(BulletStatus::Cancelled.display_icon(&minimal), "✗");
    assert_eq!(BulletStatus::Backlogged.display_icon(&minimal), "▼");
    let emoji = IconsConfig::emoji();
    for status in &STATUS_GROUP_ORDER {
        assert_eq!(status.display_icon(&emoji), status.as_emoji());
    }
}
