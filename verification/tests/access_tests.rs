use stump::content_rules::{
    library_filter, media_filter, series_filter, AccessLeaf, ContentAccessRule,
    ContentRuleDimension, ContentRuleMode, MetadataColumn, MetadataTable, RuleCondition,
};
use stump::shared_access::{
    get_access_condition_for_user, get_search_condition, AccessCondition, SharedAccessRole,
};

fn rule(
    dimension: ContentRuleDimension,
    mode: ContentRuleMode,
    values: &[&str],
    restrict_on_unset: bool,
) -> ContentAccessRule {
    ContentAccessRule {
        id: 1,
        user_id: "user".to_string(),
        dimension,
        mode,
        values: values.iter().map(|v| v.to_string()).collect(),
        restrict_on_unset,
    }
}

#[test]
fn exclude_tag_rule_hides_books_tagged_anywhere_up_the_tree() {
    let f = media_filter(&[rule(ContentRuleDimension::Tag, ContentRuleMode::Exclude, &["nsfw"], false)])
        .expect("a media filter");
    assert_eq!(f.conditions.len(), 1);
    match &f.conditions[0] {
        RuleCondition::NoneOf(leaves) => {
            assert_eq!(leaves.len(), 3);
            assert!(matches!(&leaves[0], AccessLeaf::MediaTagged(v) if v == &vec!["nsfw".to_string()]));
            assert!(matches!(&leaves[1], AccessLeaf::SeriesTagged(_)));
            assert!(matches!(&leaves[2], AccessLeaf::SeriesLibraryTagged(_)));
        },
        _ => panic!("an exclude rule admits rows matching none of its values"),
    }
}

#[test]
fn only_rule_lets_unset_books_through_unless_restricted() {
    let lenient = media_filter(&[rule(ContentRuleDimension::Publisher, ContentRuleMode::Only, &["Marvel"], false)])
        .unwrap();
    match &lenient.conditions[0] {
        RuleCondition::AnyOfOrAllOf(any, unset) => {
            assert_eq!(any.len(), 2);
            assert!(matches!(&unset[0], AccessLeaf::ColumnUnset(MetadataTable::MediaMetadata, MetadataColumn::Publisher)));
            assert!(matches!(&unset[1], AccessLeaf::ColumnUnset(MetadataTable::SeriesMetadata, MetadataColumn::Publisher)));
        },
        _ => panic!("a lenient only-rule also admits rows without a publisher"),
    }
    let strict = media_filter(&[rule(ContentRuleDimension::Publisher, ContentRuleMode::Only, &["Marvel"], true)])
        .unwrap();
    assert!(matches!(&strict.conditions[0], RuleCondition::AnyOf(any) if any.len() == 2));
}

#[test]
fn genre_rule_checks_each_genre_in_book_and_series_metadata() {
    let f = media_filter(&[rule(ContentRuleDimension::Genre, ContentRuleMode::Exclude, &["Horror", "Gore"], false)])
        .unwrap();
    match &f.conditions[0] {
        RuleCondition::NoneOf(leaves) => {
            assert_eq!(leaves.len(), 4);
            assert!(matches!(&leaves[0], AccessLeaf::GenreListed(MetadataTable::MediaMetadata, g) if g == "Horror"));
            assert!(matches!(&leaves[1], AccessLeaf::GenreListed(MetadataTable::SeriesMetadata, g) if g == "Horror"));
            assert!(matches!(&leaves[3], AccessLeaf::GenreListed(MetadataTable::SeriesMetadata, g) if g == "Gore"));
        },
        _ => panic!("expected an exclude condition"),
    }
}

#[test]
fn rules_without_values_are_ignored() {
    let f = media_filter(&[rule(ContentRuleDimension::Tag, ContentRuleMode::Only, &[], true)]).unwrap();
    assert!(f.conditions.is_empty());
    let s = series_filter(&[
        rule(ContentRuleDimension::Tag, ContentRuleMode::Exclude, &["a"], false),
        rule(ContentRuleDimension::Genre, ContentRuleMode::Exclude, &[], false),
    ])
    .unwrap();
    assert_eq!(s.conditions.len(), 1);
}

#[test]
fn libraries_are_only_filtered_by_tags() {
    assert!(library_filter(&[rule(ContentRuleDimension::Genre, ContentRuleMode::Exclude, &["x"], false)]).is_none());
    assert!(library_filter(&[]).is_none());
    let f = library_filter(&[rule(ContentRuleDimension::Tag, ContentRuleMode::Only, &["kids"], true)]).unwrap();
    assert!(matches!(&f.conditions[0], RuleCondition::AnyOf(l) if matches!(&l[0], AccessLeaf::LibraryTagged(_))));
}

#[test]
fn access_condition_by_query_mode() {
    let user = "u1".to_string();
    match get_access_condition_for_user(&user, false, false) {
        Some(AccessCondition::Readable { user_id, min_role }) => {
            assert_eq!(user_id, "u1");
            assert_eq!(min_role, SharedAccessRole::Reader);
        },
        _ => panic!("by default everything readable is listed"),
    }
    assert!(matches!(get_access_condition_for_user(&user, true, true), Some(AccessCondition::CreatedBy(u)) if u == "u1"));
    assert!(get_access_condition_for_user(&user, true, false).is_none());
}

#[test]
fn empty_search_is_no_search() {
    assert!(get_search_condition(Some(String::new())).is_none());
    assert!(get_search_condition(None).is_none());
    assert_eq!(get_search_condition(Some("dune".to_string())).unwrap().term, "dune");
}

#[test]
fn role_levels_are_ordered() {
    assert!(SharedAccessRole::Reader.level() < SharedAccessRole::Writer.level());
    assert!(SharedAccessRole::Writer.level() < SharedAccessRole::CoCreator.level());
}
