use stump::comic_info::{
    build_metadata_map, comic_info_source, map_get, merge_metadata_into_document,
    merge_metadata_into_xml, SHELL_COMIC_INFO,
};
use stump::opf::BookMetadata;
use quick_xml::events::Event;
use quick_xml::Reader;

/// Read a ComicInfo document back: every event, and the text of its `Title`.
fn parsed_title(xml: &str) -> Option<String> {
    let mut reader = Reader::from_str(xml);
    let mut in_title = false;
    let mut title = None;
    loop {
        match reader.read_event().expect("Should have properly parsed xml_string") {
            Event::Start(e) => in_title = e.name().as_ref() == b"Title",
            Event::Text(t) if in_title => title = Some(t.unescape().expect("escaped text").into_owned()),
            Event::End(_) => in_title = false,
            Event::Eof => return title,
            _ => {},
        }
    }
}

fn metadata(title: Option<&str>, series: Option<&str>) -> BookMetadata {
    BookMetadata {
        title: title.map(str::to_string),
        writers: None,
        publisher: None,
        language: None,
        summary: None,
        genres: None,
        year: None,
        month: None,
        day: None,
        series: series.map(str::to_string),
        number: None,
    }
}

#[test]
fn test_basic_conversion() {
    let existing_xml = r#"<?xml version="1.0"?>
<ComicInfo xmlns:xsi="http://www.w3.org/2001/XMLSchema-instance" xmlns:xsd="http://www.w3.org/2001/XMLSchema">
    <Title>Invincible 001</Title>
</ComicInfo>
"#;
    let m = metadata(Some("Invincible #1"), None);
    let xml_string = merge_metadata_into_xml(&m, &vec![], existing_xml)
        .ok()
        .expect("Should have converted comic info");
    assert!(xml_string.contains("Invincible #1"));
    assert!(xml_string.contains("<Title>Invincible #1</Title>"), "{xml_string}");
    assert!(!xml_string.contains("Invincible 001"));
    assert_eq!(m.title, parsed_title(&xml_string));
}

#[test]
fn test_full_conversion() {
    let existing_xml = r#"<?xml version="1.0"?>
<ComicInfo xmlns:xsi="http://www.w3.org/2001/XMLSchema-instance" xmlns:xsd="http://www.w3.org/2001/XMLSchema">
  <Title>Heist Part Two</Title>
  <Series>The Amazing Spider-Man</Series>
  <Number>9</Number>
  <Volume>5</Volume>
  <Summary>There's been a major theft the likes of which we've never seen and for once, The Black Cat didn't do it.

But Spider-Man might need the help of his once-foe-once-friend-once-crime-boss Felicia Hardy, the Black Cat!

*List of covers and their creators:*
 Cover | Name                                                | Creator(s)                                | Sidebar Location |
-------------------------------------------------------------------------------------------------------------------------
 Reg   | Regular Cover                                       | Humberto Ramos &amp; Edgar Delgado            | 1                |
 Var   | Uncanny X-Men Variant Cover                         | Clayton Crain                             | 8                |
 Var   | Variant Cover                                       | Mike Wieringo, Tim Townsend &amp; Jason Keith | 2                |
 Var   | Virgin Variant Cover                                | Mike Wieringo, Tim Townsend &amp; Jason Keith | 9-10             |
 RE    | ComicXposure Variant Cover                          | Jeff Dekal                                | 3                |
 RE    | ComicXposure Virgin Variant Cover                   | Jeff Dekal                                | 4                |
 RE    | Unknown Comic Books Connecting Variant Cover        | Mico Suayan                               | 5                |
 RE    | Unknown Comic Books Connecting Virgin Variant Cover | Mico Suayan                               | 6                |
 2nd   | Second Printing Variant Cover                       | Humberto Ramos                            | 7                |
Note: Unknown Comic Books variant by Mico Suayan connects with Venom #8, Web of Venom: Carnage Born #1, and Amazing Spider-Man #10.</Summary>
  <Notes>Tagged with the ninjas.walk.alone fork of ComicTagger 1.3.4 using info from Comic Vine on 2022-02-09 10:38:41.  [Issue ID 692056]</Notes>
  <Year>2019</Year>
  <Month>01</Month>
  <Day>01</Day>
  <Writer>Nick Spencer</Writer>
  <Penciller>Humberto Ramos, Michele Bandini</Penciller>
  <Inker>Michele Bandini, Victor Olazaba</Inker>
  <Colorist>Edgar Delgado, Erick Arciniega</Colorist>
  <Letterer>Joe Caramagna</Letterer>
  <CoverArtist>Clayton Crain, Edgar Delgado, Humberto Ramos, Jason Keith, Jeff Dekal, Mike Wieringo, Tim Townsend</CoverArtist>
  <Editor>Kathleen Wisneski, Nick Lowe</Editor>
  <Publisher>Marvel</Publisher>
  <Web>https://comicvine.gamespot.com/the-amazing-spider-man-9-heist-part-two/4000-692056/</Web>
  <PageCount>24</PageCount>
  <Characters>Armadillo, Black Cat, Captain America, Carlie Cooper, Hawkeye, Human Torch, Iron Man, Jarvis, Kate Bishop, Mary Jane, Odessa Drake, Spider-Man, Squirrel Girl, Thing, Thor, Walter Hardy, Wasp</Characters>
  <Teams>Thieves Guild</Teams>
  <Pages>
						<Page Image="0" Type="FrontCover" ImageSize="741291" />
						<Page Image="1" ImageSize="1383958" />
						<Page Image="2" ImageSize="1897301" />
						<Page Image="3" ImageSize="1956592" />
						<Page Image="4" ImageSize="1348064" />
						<Page Image="5" ImageSize="2050915" />
						<Page Image="6" ImageSize="1570591" />
						<Page Image="7" ImageSize="1868853" />
						<Page Image="8" ImageSize="1703356" />
						<Page Image="9" ImageSize="1835994" />
						<Page Image="10" ImageSize="1600821" />
						<Page Image="11" ImageSize="2207163" />
						<Page Image="12" ImageSize="2401548" />
						<Page Image="13" ImageSize="1891242" />
						<Page Image="14" ImageSize="2012601" />
						<Page Image="15" ImageSize="1761542" />
						<Page Image="16" ImageSize="1797303" />
						<Page Image="17" ImageSize="2332849" />
						<Page Image="18" ImageSize="2023561" />
						<Page Image="19" ImageSize="2239700" />
						<Page Image="20" ImageSize="2271632" />
						<Page Image="21" ImageSize="1879935" />
						<Page Image="22" ImageSize="1663028" />
						<Page Image="23" ImageSize="750766" />
  </Pages>
</ComicInfo>"#;
    let m = metadata(None, None);
    let result = merge_metadata_into_xml(&m, &vec![], existing_xml)
        .ok()
        .expect("Should have converted comic info");
    // managed fields without a value are dropped, everything else stays
    assert!(!result.contains("Heist Part Two"), "{result}");
    assert!(!result.contains("<Series>"), "{result}");
    assert!(result.contains("<Writer>Nick Spencer</Writer>"), "{result}");
    assert!(result.contains("<Publisher>Marvel</Publisher>"), "{result}");
    assert!(result.contains(r#"<Page Image="0" Type="FrontCover" ImageSize="741291" />"#), "{result}");
    assert!(result.contains(r#"<Page Image="23" ImageSize="750766" />"#), "{result}");
    assert!(merge_metadata_into_document(&m, &vec![], existing_xml).is_some());
    assert_eq!(parsed_title(&result), None);
}

#[test]
fn self_closing_managed_tags_are_merged() {
    let with_title = merge_metadata_into_xml(&metadata(Some("T & U"), None), &vec![], "<ComicInfo><Title/><Page Image=\"1\"/></ComicInfo>")
        .ok()
        .unwrap();
    assert_eq!(with_title, "<ComicInfo><Title>T &amp; U</Title><Page Image=\"1\"/></ComicInfo>");
    let without = merge_metadata_into_xml(&metadata(None, None), &vec![], "<ComicInfo><Title/></ComicInfo>")
        .ok()
        .unwrap();
    assert_eq!(without, "<ComicInfo></ComicInfo>");
    assert!(merge_metadata_into_document(&metadata(None, None), &vec![], "<ComicInfo><a></ComicInfo>").is_none());
}

#[test]
fn metadata_map_holds_title_and_series() {
    let map = build_metadata_map(&metadata(Some("T"), Some("S")), &vec![]);
    assert_eq!(map_get(&map, &"Title".to_string()), Some(Some("T".to_string())));
    assert_eq!(map_get(&map, &"Series".to_string()), Some(Some("S".to_string())));
    assert_eq!(map_get(&map, &"Writer".to_string()), None);
}

#[test]
fn comic_info_source_defaults_to_an_empty_document() {
    assert_eq!(comic_info_source(None), SHELL_COMIC_INFO);
    assert_eq!(comic_info_source(Some(b"<ComicInfo/>")), "<ComicInfo/>");
}
