use stump::list::ActiveValue;
use stump::opf::{BookMetadata, FileError};
use stump::writeback::{
    backup_path, metadata_entry_path, rebuild_temp_name, refresh_file_state, tally_outcomes,
    write_back_plan, write_failure_message, write_metadata_blocking, writeback_description,
    writeback_task_output, BookWriteResult, MetadataWritebackOutput, WritebackOutcome,
};

fn metadata(title: Option<&str>) -> BookMetadata {
    BookMetadata {
        title: title.map(str::to_string),
        writers: None,
        publisher: None,
        language: None,
        summary: None,
        genres: None,
        year: None,
        month: None,
        day: None,
        series: None,
        number: None,
    }
}

#[test]
fn only_books_with_something_to_write_are_written() {
    assert!(write_back_plan(None).is_none());
    assert!(write_back_plan(Some(&metadata(None))).is_none());
    let plan = write_back_plan(Some(&metadata(Some("T")))).expect("a title to write");
    assert_eq!(plan.title.as_deref(), Some("T"));
}

#[test]
fn written_books_refresh_their_file_state() {
    let update = refresh_file_state(true, false, 4_096, Some(77i64), Some("h".to_string()), None);
    assert_eq!(update.size, ActiveValue::SetTo(4_096));
    assert_eq!(update.modified_at, ActiveValue::SetTo(Some(77)));
    assert_eq!(update.hash, ActiveValue::SetTo(Some("h".to_string())));
    assert_eq!(update.koreader_hash, ActiveValue::NotSet);
    let unknown_time = refresh_file_state::<i64>(false, true, 1, None, None, Some("k".to_string()));
    assert_eq!(unknown_time.modified_at, ActiveValue::NotSet);
    assert_eq!(unknown_time.hash, ActiveValue::NotSet);
    assert_eq!(unknown_time.koreader_hash, ActiveValue::SetTo(Some("k".to_string())));
}

#[test]
fn outcomes_are_counted_and_added() {
    let batch = vec![WritebackOutcome::Written, WritebackOutcome::Skipped, WritebackOutcome::Written, WritebackOutcome::Failed];
    let counted = tally_outcomes(&batch);
    assert_eq!(counted, MetadataWritebackOutput { written: 2, skipped: 1, failed: 1 });
    let mut total = MetadataWritebackOutput::default();
    total.update(counted);
    total.update(tally_outcomes(&vec![WritebackOutcome::Skipped]));
    assert_eq!(total, MetadataWritebackOutput { written: 2, skipped: 2, failed: 1 });
    total.record(WritebackOutcome::Failed);
    assert_eq!(total.failed, 2);
}

#[test]
fn job_texts() {
    assert_eq!(writeback_description("lib1", true), "Write metadata into epub files, library lib1, backup: true");
    assert_eq!(writeback_description("lib1", false), "Write metadata into epub files, library lib1, backup: false");
    assert_eq!(write_failure_message("disk full"), "Failed to write metadata: disk full");
    assert_eq!(rebuild_temp_name("book.epub"), ".book.epub.stump-tmp");
    assert_eq!(backup_path("/b/book.epub"), "/b/book.epub.bak");
}

#[test]
fn metadata_writes_go_into_archives_only() {
    assert!(write_metadata_blocking("CBZ").is_ok());
    assert!(write_metadata_blocking("epub").is_ok());
    assert!(write_metadata_blocking("zip").is_ok());
    match write_metadata_blocking("PDF") {
        Err(FileError::UnsupportedFileType(m)) => {
            assert_eq!(m, "File with extension pdf is not supported for this operation")
        },
        other => panic!("expected an unsupported type, got {other:?}"),
    }
    assert_eq!(metadata_entry_path("cbz", None), "ComicInfo.xml");
    assert_eq!(metadata_entry_path("zip", Some("meta/ComicInfo.xml".to_string())), "meta/ComicInfo.xml");
}

#[test]
fn writeback_batch_logs_one_error_per_failed_book() {
    let results = vec![
        BookWriteResult { path: "/a.epub".to_string(), result: Ok(true) },
        BookWriteResult { path: "/b.cbz".to_string(), result: Ok(false) },
        BookWriteResult { path: "/c.epub".to_string(), result: Err("disk full".to_string()) },
        BookWriteResult { path: "/d.epub".to_string(), result: Ok(true) },
    ];
    let out = writeback_task_output(&results);
    assert_eq!(out.output, MetadataWritebackOutput { written: 2, skipped: 1, failed: 1 });
    assert_eq!(out.logs.len(), 1);
    assert_eq!(out.logs[0].message, "Failed to write metadata: disk full");
    assert_eq!(out.logs[0].context, "/c.epub");
    assert!(out.subtasks.is_empty());
}
