use sea_query::{Alias, Condition, Expr, Func, LikeExpr, Query, SqliteQueryBuilder};
use stump::filter::{
    apply_numeric_filter, apply_string_filter, lower_escaped, ulower_value, Comparison,
    NumericCondition, NumericFilter, NumericRange, StringCondition, StringLikeFilter,
    UNICODE_LOWER_FN,
};

fn escaped_like(condition: StringCondition) -> String {
    match condition {
        StringCondition::LowerLikeEscaped(p) => p,
        _ => panic!("expected a case-folded LIKE with escapes"),
    }
}

/// The condition a string filter puts on `media.name`, rendered for SQLite.
fn render(filter: StringLikeFilter) -> String {
    let name = || Expr::col((Alias::new("media"), Alias::new("name")));
    let like = |p: String| {
        Expr::expr(Func::cust(Alias::new(UNICODE_LOWER_FN)).arg(name())).like(LikeExpr::new(p).escape('\\'))
    };
    let condition = match apply_string_filter(filter) {
        StringCondition::Equals(v) => Condition::all().add(name().eq(v)),
        StringCondition::LowerLikeEscaped(p) => Condition::all().add(like(p)),
        StringCondition::AnyLowerLikeEscaped(ps) => ps.into_iter().fold(Condition::any(), |c, p| c.add(like(p))),
        StringCondition::NoneLowerLikeEscaped(ps) => {
            ps.into_iter().fold(Condition::any(), |c, p| c.add(like(p))).not()
        },
        _ => panic!("expected an exact match or a case-folded LIKE"),
    };
    Query::select().from(Alias::new("media")).cond_where(condition).to_string(SqliteQueryBuilder)
}

#[test]
fn contains_folds_case_via_ulower() {
    let pattern = escaped_like(apply_string_filter(StringLikeFilter::Contains(
        "Рикман".to_string(),
    )));
    assert_eq!(pattern, "%рикман%");
    assert_eq!(UNICODE_LOWER_FN, "ulower");
    let sql = render(StringLikeFilter::Contains("Рикман".to_string()));
    assert!(sql.contains(r#"ulower("media"."name") LIKE '%рикман%' ESCAPE '\'"#), "{sql}");
}

#[test]
fn contains_escapes_like_metacharacters() {
    let pattern = escaped_like(apply_string_filter(StringLikeFilter::Contains(
        "100%_x".to_string(),
    )));
    assert_eq!(pattern, "%100\\%\\_x%");
    let sql = render(StringLikeFilter::Contains("100%_x".to_string()));
    assert!(sql.contains(r#"LIKE '%100\%\_x%' ESCAPE '\'"#), "{sql}");
}

#[test]
fn starts_and_ends_with_anchor_pattern() {
    let starts = escaped_like(apply_string_filter(StringLikeFilter::StartsWith(
        "Алан".to_string(),
    )));
    assert_eq!(starts, "алан%");
    let ends = escaped_like(apply_string_filter(StringLikeFilter::EndsWith(
        "Лилия".to_string(),
    )));
    assert_eq!(ends, "%лилия");
    let starts = render(StringLikeFilter::StartsWith("Алан".to_string()));
    assert!(starts.contains(r#"ulower("media"."name") LIKE 'алан%' ESCAPE '\'"#), "{starts}");
    let ends = render(StringLikeFilter::EndsWith("Лилия".to_string()));
    assert!(ends.contains(r#"ulower("media"."name") LIKE '%лилия' ESCAPE '\'"#), "{ends}");
}

#[test]
fn eq_is_left_exact() {
    match apply_string_filter(StringLikeFilter::Eq("Exact".to_string())) {
        StringCondition::Equals(v) => assert_eq!(v, "Exact"),
        _ => panic!("an exact match is neither lowercased nor a LIKE"),
    }
    let sql = render(StringLikeFilter::Eq("Exact".to_string()));
    assert!(sql.contains(r#""media"."name" = 'Exact'"#), "{sql}");
    assert!(!sql.contains("ulower"), "{sql}");
}

#[test]
fn test_string_like_any_of() {
    let filter = StringLikeFilter::LikeAnyOf(vec!["test".to_string(), "example".to_string()]);
    match apply_string_filter(filter) {
        StringCondition::AnyLowerLikeEscaped(patterns) => {
            assert_eq!(patterns, vec!["%test%".to_string(), "%example%".to_string()])
        },
        _ => panic!("expected one of several escaped LIKEs"),
    }
    let sql = render(StringLikeFilter::LikeAnyOf(vec!["test".to_string(), "example".to_string()]));
    assert_eq!(
        sql,
        r#"SELECT  FROM "media" WHERE ulower("media"."name") LIKE '%test%' ESCAPE '\' OR ulower("media"."name") LIKE '%example%' ESCAPE '\'"#
    );
}

#[test]
fn test_string_like_none_of() {
    let filter = StringLikeFilter::LikeNoneOf(vec!["test".to_string(), "example".to_string()]);
    match apply_string_filter(filter) {
        StringCondition::NoneLowerLikeEscaped(patterns) => {
            assert_eq!(patterns, vec!["%test%".to_string(), "%example%".to_string()])
        },
        _ => panic!("expected none of several escaped LIKEs"),
    }
    let sql = render(StringLikeFilter::LikeNoneOf(vec!["test".to_string(), "example".to_string()]));
    assert_eq!(
        sql,
        r#"SELECT  FROM "media" WHERE NOT (ulower("media"."name") LIKE '%test%' ESCAPE '\' OR ulower("media"."name") LIKE '%example%' ESCAPE '\')"#
    );
}

#[test]
fn ulower_folds_unicode() {
    let v = ulower_value(Some("ЭкСмО AbC".as_bytes()));
    assert_eq!(v, Some("эксмо abc".to_string()));
    let n = ulower_value(None);
    assert_eq!(n, None);
}

#[test]
fn ulower_replaces_invalid_utf8() {
    let v = ulower_value(Some(&[0x41, 0xff, 0x42]));
    assert_eq!(v, Some("a\u{fffd}b".to_string()));
}

#[test]
fn lower_escaped_escapes_backslash_percent_and_underscore() {
    assert_eq!(lower_escaped("A\\B%C_D"), "a\\\\b\\%c\\_d");
}

#[test]
fn like_and_excludes_keep_metacharacters_live() {
    match apply_string_filter(StringLikeFilter::Like("Foo%".to_string())) {
        StringCondition::LowerLike(p) => assert_eq!(p, "foo%"),
        _ => panic!("expected a plain LIKE"),
    }
    match apply_string_filter(StringLikeFilter::Excludes("B_r".to_string())) {
        StringCondition::LowerNotLike(p) => assert_eq!(p, "b_r"),
        _ => panic!("expected a NOT LIKE"),
    }
}

#[test]
fn any_of_and_none_of_are_exact_sets() {
    match apply_string_filter(StringLikeFilter::AnyOf(vec!["A".to_string()])) {
        StringCondition::In(v) => assert_eq!(v, vec!["A".to_string()]),
        _ => panic!("expected IN"),
    }
    match apply_string_filter(StringLikeFilter::NoneOf(vec!["A".to_string()])) {
        StringCondition::NotIn(v) => assert_eq!(v, vec!["A".to_string()]),
        _ => panic!("expected NOT IN"),
    }
    match apply_string_filter(StringLikeFilter::Neq("A".to_string())) {
        StringCondition::NotEquals(v) => assert_eq!(v, "A"),
        _ => panic!("expected <>"),
    }
}

#[test]
fn numeric_range_inclusive_and_exclusive() {
    match apply_numeric_filter(NumericFilter::Range(NumericRange { from: 1i32, to: 5, inclusive: true })) {
        NumericCondition::Both((Comparison::Gte, 1), (Comparison::Lte, 5)) => {},
        _ => panic!("an inclusive range is >= from and <= to"),
    }
    match apply_numeric_filter(NumericFilter::Range(NumericRange { from: 1i32, to: 5, inclusive: false })) {
        NumericCondition::Both((Comparison::Gt, 1), (Comparison::Lt, 5)) => {},
        _ => panic!("an exclusive range is > from and < to"),
    }
    match apply_numeric_filter(NumericFilter::Gte(3u64)) {
        NumericCondition::Compare(Comparison::Gte, 3) => {},
        _ => panic!("expected >="),
    }
    match apply_numeric_filter(NumericFilter::NoneOf(vec![1i64, 2])) {
        NumericCondition::NotIn(v) => assert_eq!(v, vec![1, 2]),
        _ => panic!("expected NOT IN"),
    }
}
