use stump::series::{
    check_merge_sources, check_thumbnail_page, folder_media_pattern, plan_merge, plan_series_merge,
    plan_series_completion, plan_unmerge, validate_merge_request, PriorSession, SeriesChange,
    SeriesInfo, SeriesMergeRecord,
};

fn series(id: &str, library: Option<&str>) -> SeriesInfo {
    SeriesInfo {
        id: id.to_string(),
        name: format!("Series {id}"),
        path: format!("/comics/{id}"),
        library_id: library.map(str::to_string),
    }
}

#[test]
fn merge_requests_are_validated() {
    assert_eq!(
        validate_merge_request("t", &vec![]),
        Err("At least one source series is required".to_string())
    );
    assert_eq!(
        validate_merge_request("t", &vec!["a".to_string(), "t".to_string()]),
        Err("A series cannot be merged into itself".to_string())
    );
    assert_eq!(validate_merge_request("t", &vec!["a".to_string()]), Ok(()));
}

#[test]
fn merge_sources_must_exist_and_share_the_library() {
    let target = series("t", Some("lib"));
    assert_eq!(
        check_merge_sources(&target, 2, &vec![series("a", Some("lib"))]),
        Err("One or more source series were not found".to_string())
    );
    assert_eq!(
        check_merge_sources(&target, 2, &vec![series("a", Some("lib")), series("b", Some("other"))]),
        Err("Series can only be merged within the same library".to_string())
    );
    assert_eq!(
        check_merge_sources(&target, 1, &vec![series("a", None)]),
        Err("Series can only be merged within the same library".to_string())
    );
    assert_eq!(check_merge_sources(&target, 1, &vec![series("a", Some("lib"))]), Ok(()));
}

#[test]
fn merge_moves_books_records_folders_and_deletes_sources() {
    let target = series("t", Some("lib"));
    let plan = plan_merge(&target, &vec![series("a", Some("lib")), series("b", Some("lib"))]);
    assert_eq!(plan.len(), 8);
    assert!(matches!(&plan[0], SeriesChange::MoveMedia { from, to } if from == "a" && to == "t"));
    assert!(matches!(&plan[1], SeriesChange::RepointMerges { from, to } if from == "a" && to == "t"));
    assert!(matches!(&plan[2], SeriesChange::RecordMerge { target, source_path, source_name }
        if target == "t" && source_path == "/comics/a" && source_name == "Series a"));
    assert!(matches!(&plan[3], SeriesChange::DeleteSeries { id } if id == "a"));
    assert!(matches!(&plan[7], SeriesChange::DeleteSeries { id } if id == "b"));
}

#[test]
fn folder_patterns_escape_like_wildcards() {
    assert_eq!(folder_media_pattern("/comics/Spider_Man"), "/comics/Spider\\_Man/%");
    assert_eq!(folder_media_pattern("/comics/100%/"), "/comics/100\\%/%");
    assert_eq!(folder_media_pattern("C:\\comics\\x"), "C:\\\\comics\\\\x\\\\%");
    assert_eq!(folder_media_pattern("plain"), "plain\\\\%");
}

#[test]
fn unmerge_restores_each_folder() {
    let target = series("t", Some("lib"));
    assert_eq!(
        plan_unmerge(&target, &vec![], &vec![]).err(),
        Some("This series has no merged folders to restore".to_string())
    );
    let merges = vec![SeriesMergeRecord {
        target_series_id: "t".to_string(),
        source_path: "/comics/a_b".to_string(),
        source_name: "A B".to_string(),
    }];
    let plan = plan_unmerge(&target, &merges, &vec!["n1".to_string()]).ok().unwrap();
    assert_eq!(plan.len(), 3);
    assert!(matches!(&plan[0], SeriesChange::CreateSeries { id, name, path, library_id, status }
        if id == "n1" && name == "A B" && path == "/comics/a_b" && library_id.as_deref() == Some("lib")
            && status == "READY"));
    assert!(matches!(&plan[1], SeriesChange::MoveMediaMatching { from, to, pattern }
        if from == "t" && to == "n1" && pattern == "/comics/a\\_b/%"));
    assert!(matches!(&plan[2], SeriesChange::ForgetMerges { target } if target == "t"));
}

#[test]
fn completion_keeps_the_last_prior_session() {
    let prior = vec![
        PriorSession { media_id: "b1".to_string(), started_at: 10i64, elapsed_seconds: Some(5), device_id: None },
        PriorSession { media_id: "b1".to_string(), started_at: 20i64, elapsed_seconds: Some(7), device_id: Some("ipad".to_string()) },
    ];
    let records = plan_series_completion("u", &vec!["b1".to_string(), "b2".to_string()], &prior, 99i64);
    assert_eq!(records.len(), 2);
    assert_eq!(records[0].media_id, "b1");
    assert_eq!(records[0].started_at, 20);
    assert_eq!(records[0].elapsed_seconds, Some(7));
    assert_eq!(records[0].device_id.as_deref(), Some("ipad"));
    assert_eq!(records[0].completed_at, 99);
    assert_eq!(records[1].media_id, "b2");
    assert_eq!(records[1].started_at, 99);
    assert_eq!(records[1].elapsed_seconds, None);
    assert_eq!(records[1].user_id, "u");
}

#[test]
fn epub_thumbnails_come_from_the_first_page() {
    assert_eq!(check_thumbnail_page("epub", 2), Err("Cannot set thumbnail from EPUB chapter".to_string()));
    assert_eq!(check_thumbnail_page("epub", 1), Ok(()));
    assert_eq!(check_thumbnail_page("cbz", 5), Ok(()));
    assert_eq!(check_thumbnail_page("EPUB", 5), Ok(()));
}

#[test]
fn unmerge_restores_what_merge_took() {
    let target = series("t", Some("lib"));
    let sources = vec![series("a", Some("lib")), series("b", Some("lib"))];
    let merged = plan_merge(&target, &sources);
    let merges: Vec<SeriesMergeRecord> = merged
        .iter()
        .filter_map(|change| match change {
            SeriesChange::RecordMerge { target, source_path, source_name } => Some(SeriesMergeRecord {
                target_series_id: target.clone(),
                source_path: source_path.clone(),
                source_name: source_name.clone(),
            }),
            _ => None,
        })
        .collect();
    let restored = plan_unmerge(&target, &merges, &vec!["n1".to_string(), "n2".to_string()]).ok().unwrap();
    for (i, source) in sources.iter().enumerate() {
        match &restored[2 * i] {
            SeriesChange::CreateSeries { name, path, library_id, .. } => {
                assert_eq!(name, &source.name);
                assert_eq!(path, &source.path);
                assert_eq!(library_id, &source.library_id);
            },
            _ => panic!("each merged folder becomes a series again"),
        }
    }
}

#[test]
fn merge_checks_run_in_order() {
    let t = series("t", Some("lib"));
    let a = series("a", Some("lib"));
    let ids = vec!["a".to_string()];
    assert_eq!(
        plan_series_merge("t", &vec![], None, &vec![]).err(),
        Some("At least one source series is required".to_string())
    );
    assert_eq!(
        plan_series_merge("t", &vec!["t".to_string()], None, &vec![]).err(),
        Some("A series cannot be merged into itself".to_string())
    );
    assert_eq!(plan_series_merge("t", &ids, None, &vec![a.clone()]).err(), Some("Target series not found".to_string()));
    assert_eq!(
        plan_series_merge("t", &ids, Some(&t), &vec![]).err(),
        Some("One or more source series were not found".to_string())
    );
    assert_eq!(
        plan_series_merge("t", &ids, Some(&t), &vec![series("a", Some("other"))]).err(),
        Some("Series can only be merged within the same library".to_string())
    );
    assert_eq!(plan_series_merge("t", &ids, Some(&t), &vec![a]).ok().map(|p| p.len()), Some(4));
}
