use stump::opf::{
    epub_rebuild_plan, EpubRebuildStep, check_writeback_target, format_date, locate_opf_path, rewrite_opf, should_copy_entry,
    split_list, BookMetadata, FileError, OpfWriteback,
};

const OPF: &str = r#"<?xml version="1.0" encoding="UTF-8"?>
<package xmlns="http://www.idpf.org/2007/opf" version="2.0">
<metadata xmlns:dc="http://purl.org/dc/elements/1.1/" xmlns:opf="http://www.idpf.org/2007/opf">
<dc:title>Old Title</dc:title>
<dc:creator opf:role="aut">Old Author</dc:creator>
<dc:language>ru</dc:language>
<meta name="calibre:series" content="Old Series"/>
<meta name="cover" content="cover-image"/>
</metadata>
<manifest><item id="cover-image" href="cover.jpg" media-type="image/jpeg"/></manifest>
</package>
"#;

fn empty_metadata() -> BookMetadata {
    BookMetadata {
        title: None,
        writers: None,
        publisher: None,
        language: None,
        summary: None,
        genres: None,
        year: None,
        month: None,
        day: None,
        series: None,
        number: None,
    }
}

fn writeback_with_title(title: &str) -> OpfWriteback {
    let mut wb = OpfWriteback::default();
    wb.title = Some(title.to_string());
    wb
}

#[test]
fn split_list_trims_and_drops_empty_entries() {
    assert_eq!(
        split_list(&Some(" Автор Один, ,Автор Два ,".to_string())),
        vec!["Автор Один".to_string(), "Автор Два".to_string()]
    );
    assert!(split_list(&None).is_empty());
}

#[test]
fn dates_are_zero_padded() {
    assert_eq!(format_date(2024, Some(5), Some(1)), "2024-05-01");
    assert_eq!(format_date(2024, Some(5), None), "2024-05");
    assert_eq!(format_date(987, None, None), "0987");
    assert_eq!(format_date(2024, None, Some(3)), "2024");
}

#[test]
fn writeback_from_stored_metadata() {
    let mut m = empty_metadata();
    m.title = Some("Новое название".to_string());
    m.writers = Some("Автор Один, Автор Два".to_string());
    m.genres = Some("Фантастика,Приключения".to_string());
    m.year = Some(2024);
    m.month = Some(5);
    m.day = Some(1);
    m.number = Some("3".to_string());
    let wb = OpfWriteback::from_metadata(&m);
    assert_eq!(wb.title.as_deref(), Some("Новое название"));
    assert_eq!(wb.creators, vec!["Автор Один".to_string(), "Автор Два".to_string()]);
    assert_eq!(wb.subjects, vec!["Фантастика".to_string(), "Приключения".to_string()]);
    assert_eq!(wb.date.as_deref(), Some("2024-05-01"));
    assert_eq!(wb.series_index.as_deref(), Some("3"));
    assert!(!wb.is_empty());
    assert!(OpfWriteback::from_metadata(&empty_metadata()).is_empty());
}

#[test]
fn rewrite_replaces_only_owned_elements() {
    let mut wb = writeback_with_title("Новое название");
    wb.creators = vec!["Автор Один".to_string(), "Автор Два".to_string()];
    wb.series = Some("Saga & Co".to_string());
    let out = String::from_utf8(rewrite_opf(OPF, &wb).ok().expect("rewrite ok")).unwrap();
    assert!(out.contains("<dc:title>Новое название</dc:title>"), "{out}");
    assert!(out.contains("<dc:creator>Автор Один</dc:creator><dc:creator>Автор Два</dc:creator>"), "{out}");
    assert!(out.contains("<meta name=\"calibre:series\" content=\"Saga &amp; Co\"/>"), "{out}");
    assert!(!out.contains("Old Title"), "{out}");
    assert!(!out.contains("Old Author"), "{out}");
    assert!(!out.contains("Old Series"), "{out}");
    // untouched values survive
    assert!(out.contains("<dc:language>ru</dc:language>"), "{out}");
    assert!(out.contains("<meta name=\"cover\" content=\"cover-image\"/>"), "{out}");
    assert!(out.contains("<manifest>"), "{out}");
    // the new values sit right before the end of the metadata block
    let end = out.find("</metadata>").unwrap();
    let title = out.find("<dc:title>").unwrap();
    assert!(title < end);
}

#[test]
fn rewrite_with_only_a_title_keeps_the_rest() {
    let wb = writeback_with_title("Only Title Changed");
    let out = String::from_utf8(rewrite_opf(OPF, &wb).ok().expect("rewrite ok")).unwrap();
    assert!(out.contains("Only Title Changed"));
    assert!(out.contains("Old Author"));
    assert!(out.contains("Old Series"));
    assert!(!out.contains("Old Title"));
}

#[test]
fn rewrite_reports_broken_xml() {
    let wb = writeback_with_title("x");
    match rewrite_opf("<package><metadata></package>", &wb) {
        Err(FileError::EpubReadError(_)) => {},
        other => panic!("expected a read error, got {other:?}"),
    }
}

#[test]
fn locates_the_package_document() {
    let container = r#"<?xml version="1.0"?>
<container version="1.0" xmlns="urn:oasis:names:tc:opendocument:xmlns:container">
  <rootfiles>
    <rootfile full-path="OEBPS/content.opf" media-type="application/oebps-package+xml"/>
  </rootfiles>
</container>"#;
    assert_eq!(locate_opf_path(container).ok(), Some("OEBPS/content.opf".to_string()));
    assert!(matches!(
        locate_opf_path("<container><rootfiles/></container>"),
        Err(FileError::EpubReadError(_))
    ));
}

#[test]
fn empty_writeback_is_a_noop() {
    assert_eq!(check_writeback_target("/books/a.epub", &OpfWriteback::default()).ok(), Some(false));
}

#[test]
fn only_epub_files_are_written() {
    let wb = writeback_with_title("t");
    assert_eq!(check_writeback_target("/books/A.EPUB", &wb).ok(), Some(true));
    match check_writeback_target("/books/a.cbz", &wb) {
        Err(FileError::UnsupportedFileType(m)) => {
            assert_eq!(m, "Metadata writeback only supports epub files")
        },
        other => panic!("expected unsupported type, got {other:?}"),
    }
}

#[test]
fn rebuilt_archive_copies_everything_but_mimetype_and_opf() {
    assert!(!should_copy_entry("mimetype", "OEBPS/content.opf"));
    assert!(!should_copy_entry("OEBPS/content.opf", "OEBPS/content.opf"));
    assert!(should_copy_entry("OEBPS/cover.jpg", "OEBPS/content.opf"));
}

#[test]
fn rebuild_writes_mimetype_first_and_the_package_last() {
    let names = vec![
        "META-INF/container.xml".to_string(),
        "mimetype".to_string(),
        "OEBPS/content.opf".to_string(),
        "OEBPS/cover.jpg".to_string(),
    ];
    assert_eq!(
        epub_rebuild_plan(&names, "OEBPS/content.opf", true),
        vec![
            EpubRebuildStep::Mimetype,
            EpubRebuildStep::Copy { index: 0 },
            EpubRebuildStep::Copy { index: 3 },
            EpubRebuildStep::PackageDocument,
        ]
    );
    assert_eq!(
        epub_rebuild_plan(&vec![], "content.opf", false),
        vec![EpubRebuildStep::PackageDocument]
    );
}

#[test]
fn an_empty_writeback_rewrites_the_document_unchanged() {
    let out = rewrite_opf(OPF, &OpfWriteback::default()).ok().expect("rewrite ok");
    assert_eq!(String::from_utf8(out).unwrap(), OPF);
}
