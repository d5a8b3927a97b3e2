use std::str::FromStr;
use stump::database::{
    database_url, reset_decision, CountQueryReturn, JournalMode, JournalModeQueryResult,
    ResetDecision, FORCE_RESET_KEY,
};

#[test]
fn journal_mode_parses_ignoring_case() {
    assert_eq!(JournalMode::parse("wal"), Ok(JournalMode::WAL));
    assert_eq!(JournalMode::parse("Delete"), Ok(JournalMode::DELETE));
    assert_eq!(JournalMode::from_str("WAL"), Ok(JournalMode::WAL));
    assert_eq!(
        JournalMode::parse("memory"),
        Err("Invalid or unsupported journal mode: memory".to_string())
    );
}

#[test]
fn journal_mode_names() {
    assert_eq!(JournalMode::WAL.as_str(), "WAL");
    assert_eq!(JournalMode::DELETE.as_str(), "DELETE");
    let name: &str = JournalMode::DELETE.as_ref();
    assert_eq!(name, "DELETE");
    assert_eq!(JournalMode::default(), JournalMode::WAL);
}

#[test]
fn journal_mode_from_the_query_column() {
    assert_eq!(JournalModeQueryResult::from_column(Some("delete".to_string())).journal_mode, JournalMode::DELETE);
    assert_eq!(JournalModeQueryResult::from_column(Some("truncate".to_string())).journal_mode, JournalMode::WAL);
    assert_eq!(JournalModeQueryResult::from_column(None).journal_mode, JournalMode::WAL);
}

#[test]
fn count_defaults_to_zero() {
    assert_eq!(CountQueryReturn::default().count, 0);
}

#[test]
fn database_url_prefers_the_configured_directory() {
    assert_eq!(
        database_url(Some("/data"), true, "/src/core", "/home/u/.stump"),
        "sqlite:///data/stump.db?mode=rwc"
    );
    assert_eq!(
        database_url(None, true, "/src/core", "/home/u/.stump"),
        "sqlite:///src/core/dev.db?mode=rwc"
    );
    assert_eq!(
        database_url(None, false, "/src/core", "/home/u/.stump"),
        "sqlite:///home/u/.stump/stump.db?mode=rwc"
    );
}

#[test]
fn forced_reset_only_in_debug_builds() {
    assert_eq!(FORCE_RESET_KEY, "FORCE_DB_RESET");
    assert_eq!(reset_decision(Some("true"), true), ResetDecision::Reset);
    assert_eq!(reset_decision(Some("true"), false), ResetDecision::NotAllowed);
    assert_eq!(reset_decision(Some("TRUE"), true), ResetDecision::Keep);
    assert_eq!(reset_decision(None, true), ResetDecision::Keep);
}
