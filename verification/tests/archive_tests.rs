use stump::zip_edit::{ArchiveEntry, EntryKind, UpdateMetadata, ZipEditPlan, ZipOp};

fn entry(name: &str, kind: EntryKind) -> ArchiveEntry {
    ArchiveEntry { name: name.to_string(), enclosed_name: Some(name.to_string()), kind }
}

#[test]
fn test_zip_replace_comic_info() {
    let src = vec![
        entry("pages/", EntryKind::Directory),
        entry("pages/001.jpg", EntryKind::File),
        entry("ComicInfo.xml", EntryKind::File),
        entry("pages/002.jpg", EntryKind::File),
    ];
    let mut plan = ZipEditPlan::new();
    plan.replace(&src, vec![("ComicInfo.xml".to_string(), b"<ComicInfo/>".to_vec())]);
    assert_eq!(plan.ops.len(), 4);
    assert!(matches!(plan.ops[0], ZipOp::AddDirectory { index: 0 }));
    assert!(matches!(plan.ops[1], ZipOp::CopyFile { index: 1 }));
    assert!(matches!(plan.ops[2], ZipOp::CopyFile { index: 3 }));
    match &plan.ops[3] {
        ZipOp::WriteFile { path, options_of, contents } => {
            assert_eq!(path, "ComicInfo.xml");
            assert_eq!(*options_of, Some(2));
            assert_eq!(contents, &b"<ComicInfo/>".to_vec());
        },
        _ => panic!("the new ComicInfo.xml is written last"),
    }
}

#[test]
fn test_zip_insert_comic_info() {
    let src = vec![entry("001.jpg", EntryKind::File), entry("002.jpg", EntryKind::File)];
    let mut plan = ZipEditPlan::new();
    plan.replace(&src, vec![("ComicInfo.xml".to_string(), b"<ComicInfo/>".to_vec())]);
    assert_eq!(plan.ops.len(), 3);
    match &plan.ops[2] {
        ZipOp::WriteFile { path, options_of, .. } => {
            assert_eq!(path, "ComicInfo.xml");
            assert_eq!(*options_of, None);
        },
        _ => panic!("the new ComicInfo.xml is written last"),
    }
}

#[test]
fn unsupported_and_unsafe_entries() {
    let src = vec![
        ArchiveEntry { name: "../evil".to_string(), enclosed_name: None, kind: EntryKind::File },
        entry("link", EntryKind::Other),
    ];
    let mut plan = ZipEditPlan::new();
    let kept = plan.copy_partial(&src, &vec!["../evil".to_string()]);
    // an entry without a safe path is still copied; other kinds are skipped
    assert_eq!(plan.ops.len(), 1);
    assert!(matches!(plan.ops[0], ZipOp::CopyFile { index: 0 }));
    assert!(kept.is_empty());
}
