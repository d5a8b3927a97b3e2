use stump::pool::SlotCounter;
use stump::web::{relative_favicon_path, serve_client_shell, ASSETS, DIST, FAVICON};

fn background_limit(total_pool_size: u32) -> u32 {
    (total_pool_size as f32 * 0.8) as u32
}

#[test]
fn test_basic_acquisition() {
    let mut monitor = SlotCounter::new(background_limit(50));
    assert_eq!(monitor.connections_count(), 0);
    assert_eq!(monitor.max_connections(), 40);
    assert!(monitor.try_acquire());
    assert_eq!(monitor.connections_count(), 1);
    monitor.release();
    assert_eq!(monitor.connections_count(), 0);
}

#[test]
fn test_backpressure() {
    let mut monitor = SlotCounter::new(background_limit(5));
    let max_allowed = monitor.max_connections();
    for _ in 0..max_allowed {
        assert!(monitor.try_acquire());
    }
    assert_eq!(monitor.connections_count(), max_allowed);
    assert!(!monitor.try_acquire(), "Should timeout waiting for slot");
    assert_eq!(monitor.available_background_slots(), 0);
    monitor.release();
    assert_eq!(monitor.connections_count(), max_allowed - 1);
    assert!(monitor.try_acquire(), "Should acquire slot after release");
}

#[test]
fn test_multiple_releases() {
    let mut monitor = SlotCounter::new(background_limit(100));
    for _ in 0..10 {
        assert!(monitor.try_acquire());
    }
    assert_eq!(monitor.connections_count(), 10);
    assert_eq!(monitor.available_background_slots(), 70);
    for _ in 0..10 {
        monitor.release();
    }
    assert_eq!(monitor.connections_count(), 0);
}

#[test]
fn favicon_lives_under_the_assets() {
    assert_eq!(relative_favicon_path(), "/assets/favicon.ico");
    assert_eq!(format!("{ASSETS}{FAVICON}"), relative_favicon_path());
    assert_eq!(DIST, "/dist");
}

#[test]
fn the_client_shell_answers_only_missing_files() {
    assert!(serve_client_shell(404));
    assert!(!serve_client_shell(200));
    assert!(!serve_client_shell(304));
}

use stump::content_rules::{column_is_unset, comma_list_contains, lowercase_all, media_filter, MetadataColumn, MetadataTable};
use stump::session::expiry_cleanup_enabled;
use stump::web::{first_thumbnail_source, next_thumbnail_source, page_error, ApiError, ThumbnailSource};

#[test]
fn list_column_sql() {
    let (sql, bound) = comma_list_contains(MetadataTable::MediaMetadata.name(), MetadataColumn::Genres.name(), "Horror");
    assert_eq!(
        sql,
        "instr(',' || COALESCE(ulower(REPLACE(\"media_metadata\".\"genres\", ', ', ',')), '') || ',', ',' || ? || ',') > 0"
    );
    assert_eq!(bound, "horror");
    assert_eq!(
        column_is_unset(MetadataTable::SeriesMetadata.name(), MetadataColumn::Publisher.name()),
        "COALESCE(\"series_metadata\".\"publisher\", '') = ''"
    );
}

#[test]
fn list_value_is_bound_lowercased() {
    let (_, bound) = comma_list_contains("series_metadata", "genres", "Фэнтези");
    assert_eq!(bound, "фэнтези");
    let (_, bound) = comma_list_contains("series_metadata", "genres", "Sci_Fi");
    assert_eq!(bound, "sci_fi");
    assert_eq!(
        lowercase_all(&vec!["ЭКСМО".to_string(), "Tor".to_string()]),
        vec!["эксмо".to_string(), "tor".to_string()]
    );
}

#[test]
fn no_rules_means_no_filter() {
    assert!(media_filter(&[]).is_none());
}

#[test]
fn thumbnails_fall_back_in_order() {
    assert_eq!(first_thumbnail_source(true), ThumbnailSource::Saved);
    assert_eq!(first_thumbnail_source(false), ThumbnailSource::Generated);
    assert_eq!(next_thumbnail_source(ThumbnailSource::Saved), Some(ThumbnailSource::Generated));
    assert_eq!(next_thumbnail_source(ThumbnailSource::Generated), Some(ThumbnailSource::FirstPage));
    assert_eq!(next_thumbnail_source(ThumbnailSource::FirstPage), None);
}

#[test]
fn page_errors() {
    assert_eq!(page_error(true, "x".to_string()), ApiError::NotFound("Page not found".to_string()));
    assert_eq!(page_error(false, "boom".to_string()), ApiError::InternalServerError("boom".to_string()));
}

#[test]
fn session_cleanup_can_be_turned_off() {
    assert!(!expiry_cleanup_enabled(0));
    assert!(expiry_cleanup_enabled(60));
}
