//! Per-user content access rules and the filters they induce on books,
//! series and libraries.
//!
//! A rule names a dimension (tag, publisher or genre), a mode and a list of
//! values:
//!
//! - `Exclude`: items matching at least one listed value are hidden
//! - `Only`: only items matching at least one listed value are shown; items
//!   with no value in that dimension are hidden when `restrict_on_unset` is set
//!
//! Multiple rules combine with AND (an item must pass every rule). Tags are
//! inherited: a book is matched against its own tags plus those of its series
//! and library. Values match ignoring case across the full Unicode range. The filters are built as plain conditions over a small set of
//! SQL predicates ([`AccessLeaf`]). The laws on filters hold for any truth
//! values of the predicates ([`RowFacts`]); [`leaf_holds`] gives each
//! predicate its meaning on a concrete row ([`RowData`]), where a NULL matches
//! no value.
use crate::text::{to_lowercase, unicode_lowercase};
use vstd::prelude::*;

verus! {

/// The dimension a content rule restricts.
#[derive(Clone, Copy, Debug, PartialEq, Eq, Structural)]
pub enum ContentRuleDimension {
    Tag,
    Publisher,
    Genre,
}

/// How a content rule restricts its dimension.
#[derive(Clone, Copy, Debug, PartialEq, Eq, Structural)]
pub enum ContentRuleMode {
    Exclude,
    Only,
}

/// A per-user content access rule.
pub struct ContentAccessRule {
    pub id: i32,
    pub user_id: String,
    pub dimension: ContentRuleDimension,
    pub mode: ContentRuleMode,
    /// The rule's values as a plain list of strings
    pub values: Vec<String>,
    pub restrict_on_unset: bool,
}

/// The metadata table a predicate reads.
#[derive(Clone, Copy, Debug, PartialEq, Eq, Structural)]
pub enum MetadataTable {
    MediaMetadata,
    SeriesMetadata,
}

/// The metadata column a predicate reads.
#[derive(Clone, Copy, Debug, PartialEq, Eq, Structural)]
pub enum MetadataColumn {
    Genres,
    Publisher,
}

/// A predicate on a row of a (joined) media, series or library query. Tag,
/// genre and publisher values match ignoring case across the full Unicode
/// range: both sides are lowercased as `ulower` does (see [`leaf_holds`]).
pub enum AccessLeaf {
    /// `media.id` is among the books carrying one of these tags (any case)
    MediaTagged(Vec<String>),
    /// `series.id` is among the series carrying one of these tags (any case)
    SeriesTagged(Vec<String>),
    /// `series.library_id` is among the libraries carrying one of these tags
    /// (any case)
    SeriesLibraryTagged(Vec<String>),
    /// `library.id` is among the libraries carrying one of these tags (any case)
    LibraryTagged(Vec<String>),
    /// `media.id` carries no tag at all
    MediaUntagged,
    /// `series.id` carries no tag at all
    SeriesUntagged,
    /// `series.library_id` carries no tag at all
    SeriesLibraryUntagged,
    /// `library.id` carries no tag at all
    LibraryUntagged,
    /// The comma-separated genres column of the table lists this value (any
    /// case)
    GenreListed(MetadataTable, String),
    /// The column of the table is NULL or empty
    ColumnUnset(MetadataTable, MetadataColumn),
    /// The publisher column of the table is one of these values (any case)
    PublisherIn(MetadataTable, Vec<String>),
}

/// The condition one rule contributes, as its mode shapes it.
pub enum RuleCondition {
    /// `Exclude`: none of the predicates holds
    NoneOf(Vec<AccessLeaf>),
    /// `Only` restricting unset items: one of the predicates holds
    AnyOf(Vec<AccessLeaf>),
    /// `Only` letting unset items through: one of the first predicates holds,
    /// or all of the second ones do
    AnyOfOrAllOf(Vec<AccessLeaf>, Vec<AccessLeaf>),
}

/// A filter: every rule condition must hold. On a concrete row its meaning is
/// `filter_holds(f@, row_facts(row))`.
pub struct AccessFilter {
    pub conditions: Vec<RuleCondition>,
}

/// The view of a predicate: values by their characters.
pub ghost enum LeafView {
    MediaTagged(Seq<Seq<char>>),
    SeriesTagged(Seq<Seq<char>>),
    SeriesLibraryTagged(Seq<Seq<char>>),
    LibraryTagged(Seq<Seq<char>>),
    MediaUntagged,
    SeriesUntagged,
    SeriesLibraryUntagged,
    LibraryUntagged,
    GenreListed(MetadataTable, Seq<char>),
    ColumnUnset(MetadataTable, MetadataColumn),
    PublisherIn(MetadataTable, Seq<Seq<char>>),
}

/// The view of a rule condition.
pub ghost enum ConditionView {
    NoneOf(Seq<LeafView>),
    AnyOf(Seq<LeafView>),
    AnyOfOrAllOf(Seq<LeafView>, Seq<LeafView>),
}

/// The characters of each string.
pub open spec fn strings_view(v: Seq<String>) -> Seq<Seq<char>> {
    v.map_values(|s: String| s@)
}

impl AccessLeaf {
    pub open spec fn view(&self) -> LeafView {
        match self {
            AccessLeaf::MediaTagged(v) => LeafView::MediaTagged(strings_view(v@)),
            AccessLeaf::SeriesTagged(v) => LeafView::SeriesTagged(strings_view(v@)),
            AccessLeaf::SeriesLibraryTagged(v) => LeafView::SeriesLibraryTagged(strings_view(v@)),
            AccessLeaf::LibraryTagged(v) => LeafView::LibraryTagged(strings_view(v@)),
            AccessLeaf::MediaUntagged => LeafView::MediaUntagged,
            AccessLeaf::SeriesUntagged => LeafView::SeriesUntagged,
            AccessLeaf::SeriesLibraryUntagged => LeafView::SeriesLibraryUntagged,
            AccessLeaf::LibraryUntagged => LeafView::LibraryUntagged,
            AccessLeaf::GenreListed(t, v) => LeafView::GenreListed(*t, v@),
            AccessLeaf::ColumnUnset(t, c) => LeafView::ColumnUnset(*t, *c),
            AccessLeaf::PublisherIn(t, v) => LeafView::PublisherIn(*t, strings_view(v@)),
        }
    }
}

/// The views of a sequence of predicates.
pub open spec fn leaves_view(leaves: Seq<AccessLeaf>) -> Seq<LeafView> {
    leaves.map_values(|l: AccessLeaf| l.view())
}

impl RuleCondition {
    pub open spec fn view(&self) -> ConditionView {
        match self {
            RuleCondition::NoneOf(l) => ConditionView::NoneOf(leaves_view(l@)),
            RuleCondition::AnyOf(l) => ConditionView::AnyOf(leaves_view(l@)),
            RuleCondition::AnyOfOrAllOf(m, u) => ConditionView::AnyOfOrAllOf(
                leaves_view(m@),
                leaves_view(u@),
            ),
        }
    }
}

impl AccessFilter {
    pub open spec fn view(&self) -> Seq<ConditionView> {
        self.conditions@.map_values(|c: RuleCondition| c.view())
    }
}

/// Which predicates hold for a row.
pub type RowFacts = spec_fn(LeafView) -> bool;

/// The metadata a row has in one table; `None` for a NULL column.
pub ghost struct MetadataRow {
    pub genres: Option<Seq<char>>,
    pub publisher: Option<Seq<char>>,
}

/// What the filters read of a row: the tag names of the book, of its series
/// and of its library (`None` when the row has no library), and its book and
/// series metadata (`None` when the left join found no metadata row).
pub ghost struct RowData {
    pub media_tags: Set<Seq<char>>,
    pub series_tags: Set<Seq<char>>,
    pub library_tags: Option<Set<Seq<char>>>,
    pub media_metadata: Option<MetadataRow>,
    pub series_metadata: Option<MetadataRow>,
}

/// A column of the row's metadata; `None` when it is NULL or the row has no
/// metadata in that table.
pub open spec fn column_value(row: RowData, table: MetadataTable, column: MetadataColumn) -> Option<Seq<char>> {
    let metadata = match table {
        MetadataTable::MediaMetadata => row.media_metadata,
        MetadataTable::SeriesMetadata => row.series_metadata,
    };
    match metadata {
        Some(m) => match column {
            MetadataColumn::Genres => m.genres,
            MetadataColumn::Publisher => m.publisher,
        },
        None => None,
    }
}

/// One of the tags is one of the values, ignoring case across the full
/// Unicode range (both sides Unicode-lowercased, as `ulower` does).
pub open spec fn tagged_with_one(tags: Set<Seq<char>>, values: Seq<Seq<char>>) -> bool {
    exists|i: int, name: Seq<char>|
        0 <= i < values.len() && tags.contains(name) && #[trigger] unicode_lowercase(name) == unicode_lowercase(
            #[trigger] values[i],
        )
}

/// The library carries one of the values; a row without a library carries none.
pub open spec fn library_tagged_with_one(row: RowData, values: Seq<Seq<char>>) -> bool {
    match row.library_tags {
        Some(t) => tagged_with_one(t, values),
        None => false,
    }
}

/// The library carries no tag; so does a row without a library.
pub open spec fn library_untagged(row: RowData) -> bool {
    match row.library_tags {
        Some(t) => t == Set::<Seq<char>>::empty(),
        None => true,
    }
}

/// The publisher column of the table is one of the values, ignoring case
/// across the full Unicode range (both sides Unicode-lowercased, as `ulower`
/// does); a NULL publisher is none of them.
pub open spec fn publisher_listed(row: RowData, table: MetadataTable, values: Seq<Seq<char>>) -> bool {
    match column_value(row, table, MetadataColumn::Publisher) {
        Some(p) => exists|i: int| 0 <= i < values.len() && unicode_lowercase(#[trigger] values[i]) == unicode_lowercase(p),
        None => false,
    }
}

/// What a predicate means on a row. Tag, genre and publisher values match
/// ignoring case across the full Unicode range (both sides lowercased as
/// `ulower` does); the genre list is tested as [`comma_list_contains`] does;
/// a NULL matches no value (a book without a publisher is in no publisher
/// list, a row without a library carries no library tag) and counts as
/// unset.
pub open spec fn leaf_holds(leaf: LeafView, row: RowData) -> bool {
    match leaf {
        LeafView::MediaTagged(vs) => tagged_with_one(row.media_tags, vs),
        LeafView::SeriesTagged(vs) => tagged_with_one(row.series_tags, vs),
        LeafView::SeriesLibraryTagged(vs) => library_tagged_with_one(row, vs),
        LeafView::LibraryTagged(vs) => library_tagged_with_one(row, vs),
        LeafView::MediaUntagged => row.media_tags == Set::<Seq<char>>::empty(),
        LeafView::SeriesUntagged => row.series_tags == Set::<Seq<char>>::empty(),
        LeafView::SeriesLibraryUntagged => library_untagged(row),
        LeafView::LibraryUntagged => library_untagged(row),
        LeafView::GenreListed(t, v) => comma_list_sql_holds(
            column_value(row, t, MetadataColumn::Genres),
            unicode_lowercase(v),
        ),
        LeafView::ColumnUnset(t, c) => match column_value(row, t, c) {
            Some(s) => s.len() == 0,
            None => true,
        },
        LeafView::PublisherIn(t, vs) => publisher_listed(row, t, vs),
    }
}

/// The predicates that hold for a row.
pub open spec fn row_facts(row: RowData) -> RowFacts {
    |leaf: LeafView| leaf_holds(leaf, row)
}

/// One of the predicates holds.
pub open spec fn any_holds(leaves: Seq<LeafView>, row: RowFacts) -> bool {
    exists|i: int| 0 <= i < leaves.len() && row(#[trigger] leaves[i])
}

/// All of the predicates hold.
pub open spec fn all_hold(leaves: Seq<LeafView>, row: RowFacts) -> bool {
    forall|i: int| 0 <= i < leaves.len() ==> row(#[trigger] leaves[i])
}

/// Whether a rule condition holds for a row.
pub open spec fn condition_holds(c: ConditionView, row: RowFacts) -> bool {
    match c {
        ConditionView::NoneOf(l) => !any_holds(l, row),
        ConditionView::AnyOf(l) => any_holds(l, row),
        ConditionView::AnyOfOrAllOf(m, u) => any_holds(m, row) || all_hold(u, row),
    }
}

/// Whether every rule condition of a filter holds for a row.
pub open spec fn filter_holds(conditions: Seq<ConditionView>, row: RowFacts) -> bool {
    forall|i: int| 0 <= i < conditions.len() ==> condition_holds(#[trigger] conditions[i], row)
}

/// The condition a rule contributes given its "matches one value" predicates
/// and its "has no value at all" predicates.
pub open spec fn mode_condition_spec(
    mode: ContentRuleMode,
    restrict_on_unset: bool,
    match_any: Seq<LeafView>,
    is_unset: Seq<LeafView>,
) -> ConditionView {
    match mode {
        ContentRuleMode::Exclude => ConditionView::NoneOf(match_any),
        ContentRuleMode::Only => if restrict_on_unset {
            ConditionView::AnyOf(match_any)
        } else {
            ConditionView::AnyOfOrAllOf(match_any, is_unset)
        },
    }
}

/// Apply a rule's mode to a "matches at least one value" condition, given a
/// condition describing "has no value at all in this dimension"
pub fn mode_condition(
    mode: ContentRuleMode,
    restrict_on_unset: bool,
    match_any: Vec<AccessLeaf>,
    is_unset: Vec<AccessLeaf>,
) -> (r: RuleCondition)
    ensures
        r.view() == mode_condition_spec(mode, restrict_on_unset, leaves_view(match_any@), leaves_view(is_unset@)),
{
    match mode {
        ContentRuleMode::Exclude => RuleCondition::NoneOf(match_any),
        ContentRuleMode::Only => if restrict_on_unset {
            RuleCondition::AnyOf(match_any)
        } else {
            RuleCondition::AnyOfOrAllOf(match_any, is_unset)
        },
    }
}


/// The characters of the rule's values.
pub open spec fn rule_values(rule: ContentAccessRule) -> Seq<Seq<char>> {
    strings_view(rule.values@)
}

/// One "genre listed" predicate per value, for each of the given tables in turn.
pub open spec fn genre_leaves(values: Seq<Seq<char>>, with_media: bool) -> Seq<LeafView>
    decreases values.len(),
{
    if values.len() == 0 {
        seq![]
    } else {
        let v = values.last();
        genre_leaves(values.drop_last(), with_media) + if with_media {
            seq![
                LeafView::GenreListed(MetadataTable::MediaMetadata, v),
                LeafView::GenreListed(MetadataTable::SeriesMetadata, v),
            ]
        } else {
            seq![LeafView::GenreListed(MetadataTable::SeriesMetadata, v)]
        }
    }
}

/// A book matches one of the rule's values: tags are matched with inheritance
/// (own + series + library); genre/publisher match the book's own metadata or
/// its series metadata.
pub open spec fn media_match_leaves(rule: ContentAccessRule) -> Seq<LeafView> {
    let vs = rule_values(rule);
    match rule.dimension {
        ContentRuleDimension::Tag => seq![
            LeafView::MediaTagged(vs),
            LeafView::SeriesTagged(vs),
            LeafView::SeriesLibraryTagged(vs),
        ],
        ContentRuleDimension::Genre => genre_leaves(vs, true),
        ContentRuleDimension::Publisher => seq![
            LeafView::PublisherIn(MetadataTable::MediaMetadata, vs),
            LeafView::PublisherIn(MetadataTable::SeriesMetadata, vs),
        ],
    }
}

/// A book has no value at all in the rule's dimension.
pub open spec fn media_unset_leaves(rule: ContentAccessRule) -> Seq<LeafView> {
    match rule.dimension {
        ContentRuleDimension::Tag => seq![
            LeafView::MediaUntagged,
            LeafView::SeriesUntagged,
            LeafView::SeriesLibraryUntagged,
        ],
        ContentRuleDimension::Genre => seq![
            LeafView::ColumnUnset(MetadataTable::MediaMetadata, MetadataColumn::Genres),
            LeafView::ColumnUnset(MetadataTable::SeriesMetadata, MetadataColumn::Genres),
        ],
        ContentRuleDimension::Publisher => seq![
            LeafView::ColumnUnset(MetadataTable::MediaMetadata, MetadataColumn::Publisher),
            LeafView::ColumnUnset(MetadataTable::SeriesMetadata, MetadataColumn::Publisher),
        ],
    }
}

/// A series matches one of the rule's values: its own tags plus its
/// library's, its own genres and publisher.
pub open spec fn series_match_leaves(rule: ContentAccessRule) -> Seq<LeafView> {
    let vs = rule_values(rule);
    match rule.dimension {
        ContentRuleDimension::Tag => seq![
            LeafView::SeriesTagged(vs),
            LeafView::SeriesLibraryTagged(vs),
        ],
        ContentRuleDimension::Genre => genre_leaves(vs, false),
        ContentRuleDimension::Publisher => seq![
            LeafView::PublisherIn(MetadataTable::SeriesMetadata, vs),
        ],
    }
}

/// A series has no value at all in the rule's dimension.
pub open spec fn series_unset_leaves(rule: ContentAccessRule) -> Seq<LeafView> {
    match rule.dimension {
        ContentRuleDimension::Tag => seq![LeafView::SeriesUntagged, LeafView::SeriesLibraryUntagged],
        ContentRuleDimension::Genre => seq![
            LeafView::ColumnUnset(MetadataTable::SeriesMetadata, MetadataColumn::Genres),
        ],
        ContentRuleDimension::Publisher => seq![
            LeafView::ColumnUnset(MetadataTable::SeriesMetadata, MetadataColumn::Publisher),
        ],
    }
}

/// The condition a rule contributes to the book filter.
pub open spec fn media_condition(rule: ContentAccessRule) -> ConditionView {
    mode_condition_spec(rule.mode, rule.restrict_on_unset, media_match_leaves(rule), media_unset_leaves(rule))
}

/// The condition a rule contributes to the series filter.
pub open spec fn series_condition(rule: ContentAccessRule) -> ConditionView {
    mode_condition_spec(rule.mode, rule.restrict_on_unset, series_match_leaves(rule), series_unset_leaves(rule))
}

/// The condition a tag rule contributes to the library filter.
pub open spec fn library_condition(rule: ContentAccessRule) -> ConditionView {
    mode_condition_spec(
        rule.mode,
        rule.restrict_on_unset,
        seq![LeafView::LibraryTagged(rule_values(rule))],
        seq![LeafView::LibraryUntagged],
    )
}

/// Which filter is being built.
#[derive(Clone, Copy, Debug, PartialEq, Eq, Structural)]
pub enum FilterTarget {
    Media,
    Series,
    Library,
}

/// Whether a rule contributes to the filter of `target`: rules without values
/// never do, and only tag rules apply to libraries.
pub open spec fn rule_applies(target: FilterTarget, rule: ContentAccessRule) -> bool {
    rule.values@.len() > 0 && (target != FilterTarget::Library || rule.dimension
        == ContentRuleDimension::Tag)
}

/// The condition a rule contributes to the filter of `target`.
pub open spec fn target_condition(target: FilterTarget, rule: ContentAccessRule) -> ConditionView {
    match target {
        FilterTarget::Media => media_condition(rule),
        FilterTarget::Series => series_condition(rule),
        FilterTarget::Library => library_condition(rule),
    }
}

/// The conditions of the applying rules, in order.
pub open spec fn filter_conditions(target: FilterTarget, rules: Seq<ContentAccessRule>) -> Seq<ConditionView>
    decreases rules.len(),
{
    if rules.len() == 0 {
        seq![]
    } else {
        filter_conditions(target, rules.drop_last()) + if rule_applies(target, rules.last()) {
            seq![target_condition(target, rules.last())]
        } else {
            seq![]
        }
    }
}

fn clone_strings(v: &Vec<String>) -> (r: Vec<String>)
    ensures
        strings_view(r@) == strings_view(v@),
{
    let mut r: Vec<String> = Vec::new();
    let mut i: usize = 0;
    while i < v.len()
        invariant
            i <= v@.len(),
            strings_view(r@) == strings_view(v@.subrange(0, i as int)),
        decreases v@.len() - i,
    {
        r.push(v[i].clone());
        assert(strings_view(v@.subrange(0, i + 1)) =~= strings_view(v@.subrange(0, i as int)).push(v@[i as int]@));
        assert(strings_view(r@) =~= strings_view(v@.subrange(0, i + 1)));
        i = i + 1;
    }
    assert(v@.subrange(0, v@.len() as int) =~= v@);
    r
}

fn genre_leaves_exec(values: &Vec<String>, with_media: bool) -> (r: Vec<AccessLeaf>)
    ensures
        leaves_view(r@) == genre_leaves(strings_view(values@), with_media),
{
    let mut r: Vec<AccessLeaf> = Vec::new();
    let mut i: usize = 0;
    while i < values.len()
        invariant
            i <= values@.len(),
            leaves_view(r@) == genre_leaves(strings_view(values@.subrange(0, i as int)), with_media),
        decreases values@.len() - i,
    {
        let ghost prefix = strings_view(values@.subrange(0, i + 1));
        assert(prefix.drop_last() =~= strings_view(values@.subrange(0, i as int)));
        assert(prefix.last() == values@[i as int]@);
        if with_media {
            r.push(AccessLeaf::GenreListed(MetadataTable::MediaMetadata, values[i].clone()));
        }
        r.push(AccessLeaf::GenreListed(MetadataTable::SeriesMetadata, values[i].clone()));
        assert(leaves_view(r@) =~= genre_leaves(prefix, with_media));
        i = i + 1;
    }
    assert(values@.subrange(0, values@.len() as int) =~= values@);
    r
}

/// The condition a rule contributes to the filter of `target`.
pub fn rule_condition(target: FilterTarget, rule: &ContentAccessRule) -> (r: RuleCondition)
    ensures
        r.view() == target_condition(target, *rule),
{
    let (match_any, is_unset) = match target {
        FilterTarget::Media => match rule.dimension {
            ContentRuleDimension::Tag => (
                vec![
                    AccessLeaf::MediaTagged(clone_strings(&rule.values)),
                    AccessLeaf::SeriesTagged(clone_strings(&rule.values)),
                    AccessLeaf::SeriesLibraryTagged(clone_strings(&rule.values)),
                ],
                vec![AccessLeaf::MediaUntagged, AccessLeaf::SeriesUntagged, AccessLeaf::SeriesLibraryUntagged],
            ),
            ContentRuleDimension::Genre => (
                genre_leaves_exec(&rule.values, true),
                vec![
                    AccessLeaf::ColumnUnset(MetadataTable::MediaMetadata, MetadataColumn::Genres),
                    AccessLeaf::ColumnUnset(MetadataTable::SeriesMetadata, MetadataColumn::Genres),
                ],
            ),
            ContentRuleDimension::Publisher => (
                vec![
                    AccessLeaf::PublisherIn(MetadataTable::MediaMetadata, clone_strings(&rule.values)),
                    AccessLeaf::PublisherIn(MetadataTable::SeriesMetadata, clone_strings(&rule.values)),
                ],
                vec![
                    AccessLeaf::ColumnUnset(MetadataTable::MediaMetadata, MetadataColumn::Publisher),
                    AccessLeaf::ColumnUnset(MetadataTable::SeriesMetadata, MetadataColumn::Publisher),
                ],
            ),
        },
        FilterTarget::Series => match rule.dimension {
            ContentRuleDimension::Tag => (
                vec![
                    AccessLeaf::SeriesTagged(clone_strings(&rule.values)),
                    AccessLeaf::SeriesLibraryTagged(clone_strings(&rule.values)),
                ],
                vec![AccessLeaf::SeriesUntagged, AccessLeaf::SeriesLibraryUntagged],
            ),
            ContentRuleDimension::Genre => (
                genre_leaves_exec(&rule.values, false),
                vec![AccessLeaf::ColumnUnset(MetadataTable::SeriesMetadata, MetadataColumn::Genres)],
            ),
            ContentRuleDimension::Publisher => (
                vec![AccessLeaf::PublisherIn(MetadataTable::SeriesMetadata, clone_strings(&rule.values))],
                vec![AccessLeaf::ColumnUnset(MetadataTable::SeriesMetadata, MetadataColumn::Publisher)],
            ),
        },
        FilterTarget::Library => (
            vec![AccessLeaf::LibraryTagged(clone_strings(&rule.values))],
            vec![AccessLeaf::LibraryUntagged],
        ),
    };
    proof {
        assert(leaves_view(match_any@) =~= match target {
            FilterTarget::Media => media_match_leaves(*rule),
            FilterTarget::Series => series_match_leaves(*rule),
            FilterTarget::Library => seq![LeafView::LibraryTagged(rule_values(*rule))],
        });
        assert(leaves_view(is_unset@) =~= match target {
            FilterTarget::Media => media_unset_leaves(*rule),
            FilterTarget::Series => series_unset_leaves(*rule),
            FilterTarget::Library => seq![LeafView::LibraryUntagged],
        });
    }
    mode_condition(rule.mode, rule.restrict_on_unset, match_any, is_unset)
}

/// The filter of `target` for a set of rules: `None` when there is no rule
/// (media and series) or no applying rule (libraries).
pub open spec fn filter_spec(target: FilterTarget, rules: Seq<ContentAccessRule>) -> Option<Seq<ConditionView>> {
    if rules.len() == 0 || (target == FilterTarget::Library && filter_conditions(target, rules).len() == 0) {
        None
    } else {
        Some(filter_conditions(target, rules))
    }
}

fn build_filter(target: FilterTarget, rules: &[ContentAccessRule]) -> (r: Option<AccessFilter>)
    ensures
        match filter_spec(target, rules@) {
            Some(c) => r matches Some(f) && f.view() == c,
            None => r is None,
        },
{
    if rules.len() == 0 {
        return None;
    }
    let mut conditions: Vec<RuleCondition> = Vec::new();
    let mut i: usize = 0;
    assert(rules@.subrange(0, 0) =~= Seq::<ContentAccessRule>::empty());
    while i < rules.len()
        invariant
            i <= rules@.len(),
            conditions@.map_values(|c: RuleCondition| c.view()) == filter_conditions(
                target,
                rules@.subrange(0, i as int),
            ),
        decreases rules@.len() - i,
    {
        let rule = &rules[i];
        let ghost prefix = rules@.subrange(0, i + 1);
        assert(prefix.drop_last() =~= rules@.subrange(0, i as int));
        assert(prefix.last() == *rule);
        let applies = rule.values.len() > 0 && (match target {
            FilterTarget::Library => match rule.dimension {
                ContentRuleDimension::Tag => true,
                _ => false,
            },
            _ => true,
        });
        if applies {
            let c = rule_condition(target, rule);
            let ghost before = conditions@;
            conditions.push(c);
            assert(conditions@.map_values(|c: RuleCondition| c.view()) =~= before.map_values(
                |c: RuleCondition| c.view(),
            ).push(c.view()));
        } else {
            assert(filter_conditions(target, prefix) =~= filter_conditions(target, prefix.drop_last()));
        }
        i = i + 1;
    }
    assert(rules@.subrange(0, rules@.len() as int) =~= rules@);
    if conditions.len() == 0 {
        match target {
            FilterTarget::Library => {
                return None;
            },
            _ => {},
        }
    }
    Some(AccessFilter { conditions })
}

/// Build the media-level filter for a set of rules. Assumes the query joins
/// `media_metadata` (left), `series` (inner) and `series_metadata` (left).
/// Tags are matched with inheritance (own + series + library); genre/publisher
/// match the book's own metadata or, when inherited, its series metadata
pub fn media_filter(rules: &[ContentAccessRule]) -> (r: Option<AccessFilter>)
    ensures
        match filter_spec(FilterTarget::Media, rules@) {
            Some(c) => r matches Some(f) && f.view() == c,
            None => r is None,
        },
{
    build_filter(FilterTarget::Media, rules)
}

/// Build the series-level filter. Assumes `series_metadata` is joined (left).
/// Tags match the series' own tags plus its library's tags
pub fn series_filter(rules: &[ContentAccessRule]) -> (r: Option<AccessFilter>)
    ensures
        match filter_spec(FilterTarget::Series, rules@) {
            Some(c) => r matches Some(f) && f.view() == c,
            None => r is None,
        },
{
    build_filter(FilterTarget::Series, rules)
}

/// Build the library-level filter. Only tag rules apply to libraries —
/// genre/publisher are book/series concepts and leave libraries visible
pub fn library_filter(rules: &[ContentAccessRule]) -> (r: Option<AccessFilter>)
    ensures
        match filter_spec(FilterTarget::Library, rules@) {
            Some(c) => r matches Some(f) && f.view() == c,
            None => r is None,
        },
{
    build_filter(FilterTarget::Library, rules)
}


/// Whether a rule admits a row, given its "matches one of the values"
/// predicates and its "has no value at all" predicates: `Exclude` hides rows
/// matching a value; `Only` shows rows matching a value, and rows with no
/// value at all unless `restrict_on_unset` is set.
pub open spec fn rule_admits(
    mode: ContentRuleMode,
    restrict_on_unset: bool,
    match_any: Seq<LeafView>,
    is_unset: Seq<LeafView>,
    row: RowFacts,
) -> bool {
    match mode {
        ContentRuleMode::Exclude => !any_holds(match_any, row),
        ContentRuleMode::Only => any_holds(match_any, row) || (!restrict_on_unset && all_hold(
            is_unset,
            row,
        )),
    }
}

/// The "matches one of the values" predicates of a rule for `target`.
pub open spec fn target_match_leaves(target: FilterTarget, rule: ContentAccessRule) -> Seq<LeafView> {
    match target {
        FilterTarget::Media => media_match_leaves(rule),
        FilterTarget::Series => series_match_leaves(rule),
        FilterTarget::Library => seq![LeafView::LibraryTagged(rule_values(rule))],
    }
}

/// The "has no value at all" predicates of a rule for `target`.
pub open spec fn target_unset_leaves(target: FilterTarget, rule: ContentAccessRule) -> Seq<LeafView> {
    match target {
        FilterTarget::Media => media_unset_leaves(rule),
        FilterTarget::Series => series_unset_leaves(rule),
        FilterTarget::Library => seq![LeafView::LibraryUntagged],
    }
}

/// A row passes every rule that applies to `target`.
pub open spec fn passes_every_rule(target: FilterTarget, rules: Seq<ContentAccessRule>, row: RowFacts) -> bool {
    forall|i: int|
        0 <= i < rules.len() && rule_applies(target, #[trigger] rules[i]) ==> rule_admits(
            rules[i].mode,
            rules[i].restrict_on_unset,
            target_match_leaves(target, rules[i]),
            target_unset_leaves(target, rules[i]),
            row,
        )
}

proof fn lemma_condition_admits(target: FilterTarget, rule: ContentAccessRule, row: RowFacts)
    ensures
        condition_holds(target_condition(target, rule), row) == rule_admits(
            rule.mode,
            rule.restrict_on_unset,
            target_match_leaves(target, rule),
            target_unset_leaves(target, rule),
            row,
        ),
{
}

/// Rules combine with AND: a row passes the filter of `target` exactly when it
/// passes every rule that applies — `Exclude` rules hide rows matching one of
/// their values, `Only` rules show only rows matching one of their values (and,
/// unless `restrict_on_unset`, rows with no value in the dimension).
pub proof fn law_rules_combine_with_and(target: FilterTarget, rules: Seq<ContentAccessRule>, row: RowFacts)
    ensures
        filter_holds(filter_conditions(target, rules), row) == passes_every_rule(target, rules, row),
    decreases rules.len(),
{
    if rules.len() > 0 {
        let init = rules.drop_last();
        let last = rules.last();
        law_rules_combine_with_and(target, init, row);
        lemma_condition_admits(target, last, row);
        let conds = filter_conditions(target, rules);
        let init_conds = filter_conditions(target, init);
        if filter_holds(conds, row) {
            assert forall|i: int|
                0 <= i < init_conds.len() implies condition_holds(#[trigger] init_conds[i], row) by {
                assert(conds[i] == init_conds[i]);
            }
            assert forall|i: int|
                0 <= i < rules.len() && rule_applies(target, #[trigger] rules[i]) implies rule_admits(
                rules[i].mode,
                rules[i].restrict_on_unset,
                target_match_leaves(target, rules[i]),
                target_unset_leaves(target, rules[i]),
                row,
            ) by {
                if i < init.len() {
                    assert(init[i] == rules[i]);
                } else {
                    assert(conds[init_conds.len() as int] == target_condition(target, last));
                }
            }
        }
        if passes_every_rule(target, rules, row) {
            assert forall|i: int|
                0 <= i < init.len() && rule_applies(target, #[trigger] init[i]) implies rule_admits(
                init[i].mode,
                init[i].restrict_on_unset,
                target_match_leaves(target, init[i]),
                target_unset_leaves(target, init[i]),
                row,
            ) by {
                assert(init[i] == rules[i]);
            }
            assert forall|i: int| 0 <= i < conds.len() implies condition_holds(#[trigger] conds[i], row) by {
                if i < init_conds.len() {
                    assert(conds[i] == init_conds[i]);
                } else {
                    assert(rules[rules.len() - 1] == last);
                }
            }
        }
    }
}

/// Adding a rule never makes more rows visible.
pub proof fn law_more_rules_show_no_more(
    target: FilterTarget,
    rules: Seq<ContentAccessRule>,
    extra: ContentAccessRule,
    row: RowFacts,
)
    ensures
        filter_holds(filter_conditions(target, rules.push(extra)), row) ==> filter_holds(
            filter_conditions(target, rules),
            row,
        ),
{
    law_rules_combine_with_and(target, rules, row);
    law_rules_combine_with_and(target, rules.push(extra), row);
    if passes_every_rule(target, rules.push(extra), row) {
        assert forall|i: int|
            0 <= i < rules.len() && rule_applies(target, #[trigger] rules[i]) implies rule_admits(
            rules[i].mode,
            rules[i].restrict_on_unset,
            target_match_leaves(target, rules[i]),
            target_unset_leaves(target, rules[i]),
            row,
        ) by {
            assert(rules.push(extra)[i] == rules[i]);
        }
    }
}

/// A rule without values has no effect on any filter.
pub proof fn law_rule_without_values_is_ignored(
    target: FilterTarget,
    rules: Seq<ContentAccessRule>,
    extra: ContentAccessRule,
)
    requires
        extra.values@.len() == 0,
    ensures
        filter_conditions(target, rules.push(extra)) == filter_conditions(target, rules),
{
    assert(rules.push(extra).drop_last() =~= rules);
    assert(filter_conditions(target, rules) + seq![] =~= filter_conditions(target, rules));
}

proof fn lemma_too_long_to_occur(text: Seq<char>, w: Seq<char>)
    requires
        text.len() < w.len(),
    ensures
        !occurs_in(text, w),
{
}

/// A missing value matches nothing: a NULL publisher (or no metadata row) is
/// in no publisher list, a NULL genre list lists no genre (whose lowercase is
/// not empty), and a
/// row without a library carries no library tag and counts as untagged.
pub proof fn law_missing_values_match_nothing(
    row: RowData,
    table: MetadataTable,
    values: Seq<Seq<char>>,
    genre: Seq<char>,
)
    ensures
        column_value(row, table, MetadataColumn::Publisher) is None ==> !leaf_holds(
            LeafView::PublisherIn(table, values),
            row,
        ),
        column_value(row, table, MetadataColumn::Genres) is None && unicode_lowercase(genre).len() > 0 ==> !leaf_holds(
            LeafView::GenreListed(table, genre),
            row,
        ),
        row.library_tags is None ==> !leaf_holds(LeafView::SeriesLibraryTagged(values), row) && leaf_holds(
            LeafView::SeriesLibraryUntagged,
            row,
        ),
{
    if column_value(row, table, MetadataColumn::Genres) is None && unicode_lowercase(genre).len() > 0 {
        assert(lowered_list(None) =~= seq![',', ',']);
        lemma_too_long_to_occur(lowered_list(None), seq![','] + unicode_lowercase(genre) + seq![',']);
    }
}

/// An `Exclude` publisher rule hides exactly the books whose own publisher or
/// whose series' publisher is one of its values, ignoring case across the
/// full Unicode range; a book without a publisher
/// (NULL, or no metadata row) is hidden only for its series' publisher.
pub proof fn law_publisher_exclusion_hides_only_listed(rule: ContentAccessRule, row: RowData)
    requires
        rule.dimension == ContentRuleDimension::Publisher,
        rule.mode == ContentRuleMode::Exclude,
    ensures
        condition_holds(media_condition(rule), row_facts(row)) <==> !publisher_listed(
            row,
            MetadataTable::MediaMetadata,
            rule_values(rule),
        ) && !publisher_listed(row, MetadataTable::SeriesMetadata, rule_values(rule)),
{
    let leaves = media_match_leaves(rule);
    let f = row_facts(row);
    assert(f(leaves[0]) == publisher_listed(row, MetadataTable::MediaMetadata, rule_values(rule)));
    assert(f(leaves[1]) == publisher_listed(row, MetadataTable::SeriesMetadata, rule_values(rule)));
}

/// One of the values is an entry of the table's genre list, ignoring case
/// across the full Unicode range (the list and the value Unicode-lowercased);
/// a NULL list has no entry.
pub open spec fn genre_listed(row: RowData, table: MetadataTable, values: Seq<Seq<char>>) -> bool {
    exists|k: int|
        0 <= k < values.len() && lists_entry(
            lowered_list(column_value(row, table, MetadataColumn::Genres)),
            unicode_lowercase(#[trigger] values[k]),
        )
}

#[verifier::rlimit(40)]
proof fn lemma_genre_leaves_hold(values: Seq<Seq<char>>, row: RowData)
    requires
        forall|k: int| 0 <= k < values.len() ==> !unicode_lowercase(#[trigger] values[k]).contains(','),
    ensures
        any_holds(genre_leaves(values, true), row_facts(row)) <==> genre_listed(
            row,
            MetadataTable::MediaMetadata,
            values,
        ) || genre_listed(row, MetadataTable::SeriesMetadata, values),
    decreases values.len(),
{
    if values.len() == 0 {
        assert(genre_leaves(values, true) =~= Seq::<LeafView>::empty());
    } else {
        let init = values.drop_last();
        let v = values.last();
        let f = row_facts(row);
        let media_list = lowered_list(column_value(row, MetadataTable::MediaMetadata, MetadataColumn::Genres));
        let series_list = lowered_list(column_value(row, MetadataTable::SeriesMetadata, MetadataColumn::Genres));
        assert forall|k: int| 0 <= k < init.len() implies !unicode_lowercase(#[trigger] init[k]).contains(',') by {
            assert(init[k] == values[k]);
        }
        lemma_genre_leaves_hold(init, row);
        law_list_test_is_membership(column_value(row, MetadataTable::MediaMetadata, MetadataColumn::Genres), v);
        law_list_test_is_membership(column_value(row, MetadataTable::SeriesMetadata, MetadataColumn::Genres), v);
        let leaves = genre_leaves(values, true);
        let head = genre_leaves(init, true);
        let tail = seq![
            LeafView::GenreListed(MetadataTable::MediaMetadata, v),
            LeafView::GenreListed(MetadataTable::SeriesMetadata, v),
        ];
        assert(leaves =~= head + tail);
        assert(values[values.len() - 1] == v);
        if any_holds(leaves, f) {
            let i = choose|i: int| 0 <= i < leaves.len() && f(#[trigger] leaves[i]);
            if i < head.len() {
                assert(leaves[i] == head[i]);
                if genre_listed(row, MetadataTable::MediaMetadata, init) {
                    let k = choose|k: int| 0 <= k < init.len() && lists_entry(media_list, unicode_lowercase(#[trigger] init[k]));
                    assert(init[k] == values[k]);
                } else {
                    let k = choose|k: int| 0 <= k < init.len() && lists_entry(series_list, unicode_lowercase(#[trigger] init[k]));
                    assert(init[k] == values[k]);
                }
            } else if i == head.len() {
                assert(leaves[i] == tail[0]);
                assert(lists_entry(media_list, unicode_lowercase(values[values.len() - 1])));
            } else {
                assert(leaves[i] == tail[1]);
                assert(lists_entry(series_list, unicode_lowercase(values[values.len() - 1])));
            }
        }
        if genre_listed(row, MetadataTable::MediaMetadata, values) {
            let k = choose|k: int| 0 <= k < values.len() && lists_entry(media_list, unicode_lowercase(#[trigger] values[k]));
            if k < init.len() {
                assert(init[k] == values[k]);
                let i = choose|i: int| 0 <= i < head.len() && f(#[trigger] head[i]);
                assert(leaves[i] == head[i]);
            } else {
                assert(leaves[head.len() as int] == tail[0]);
                assert(f(leaves[head.len() as int]));
            }
        }
        if genre_listed(row, MetadataTable::SeriesMetadata, values) {
            let k = choose|k: int| 0 <= k < values.len() && lists_entry(series_list, unicode_lowercase(#[trigger] values[k]));
            if k < init.len() {
                assert(init[k] == values[k]);
                let i = choose|i: int| 0 <= i < head.len() && f(#[trigger] head[i]);
                assert(leaves[i] == head[i]);
            } else {
                assert(leaves[head.len() as int + 1] == tail[1]);
                assert(f(leaves[head.len() as int + 1]));
            }
        }
    }
}

/// An `Exclude` genre rule hides exactly the books whose own genre list or
/// whose series' genre list has one of its values as an entry, ignoring case
/// across the full Unicode range (for values whose lowercase has no comma):
/// a rule excluding `фэнтези` hides a book listing `Фэнтези`. A book without
/// genres is hidden only for its series' genres.
pub proof fn law_genre_exclusion_hides_only_listed(rule: ContentAccessRule, row: RowData)
    requires
        rule.dimension == ContentRuleDimension::Genre,
        rule.mode == ContentRuleMode::Exclude,
        forall|k: int| 0 <= k < rule_values(rule).len() ==> !unicode_lowercase(#[trigger] rule_values(rule)[k]).contains(','),
    ensures
        condition_holds(media_condition(rule), row_facts(row)) <==> !genre_listed(
            row,
            MetadataTable::MediaMetadata,
            rule_values(rule),
        ) && !genre_listed(row, MetadataTable::SeriesMetadata, rule_values(rule)),
{
    lemma_genre_leaves_hold(rule_values(rule), row);
}

/// Genre and publisher rules leave libraries visible: when no tag rule with
/// values is present there is no library filter at all.
pub proof fn law_libraries_only_filtered_by_tags(rules: Seq<ContentAccessRule>)
    requires
        forall|i: int|
            0 <= i < rules.len() ==> (#[trigger] rules[i]).dimension != ContentRuleDimension::Tag
                || rules[i].values@.len() == 0,
    ensures
        filter_spec(FilterTarget::Library, rules) is None,
    decreases rules.len(),
{
    lemma_no_library_conditions(rules);
}

proof fn lemma_no_library_conditions(rules: Seq<ContentAccessRule>)
    requires
        forall|i: int|
            0 <= i < rules.len() ==> (#[trigger] rules[i]).dimension != ContentRuleDimension::Tag
                || rules[i].values@.len() == 0,
    ensures
        filter_conditions(FilterTarget::Library, rules).len() == 0,
    decreases rules.len(),
{
    if rules.len() > 0 {
        let init = rules.drop_last();
        assert forall|i: int|
            0 <= i < init.len() implies (#[trigger] init[i]).dimension != ContentRuleDimension::Tag
            || init[i].values@.len() == 0 by {
            assert(init[i] == rules[i]);
        }
        lemma_no_library_conditions(init);
        assert(rules[rules.len() - 1] == rules.last());
    }
}

impl MetadataTable {
    /// The table's name.
    pub fn name(self) -> (r: &'static str)
        ensures
            r@ == match self {
                MetadataTable::MediaMetadata => "media_metadata"@,
                MetadataTable::SeriesMetadata => "series_metadata"@,
            },
    {
        match self {
            MetadataTable::MediaMetadata => "media_metadata",
            MetadataTable::SeriesMetadata => "series_metadata",
        }
    }
}

impl MetadataColumn {
    /// The column's name.
    pub fn name(self) -> (r: &'static str)
        ensures
            r@ == match self {
                MetadataColumn::Genres => "genres"@,
                MetadataColumn::Publisher => "publisher"@,
            },
    {
        match self {
            MetadataColumn::Genres => "genres",
            MetadataColumn::Publisher => "publisher",
        }
    }
}

/// SQLite's `REPLACE(s, ', ', ',')`: each `, ` becomes `,`, left to right.
pub open spec fn squeeze_comma_space(s: Seq<char>) -> Seq<char>
    decreases s.len(),
{
    if s.len() == 0 {
        s
    } else if s.len() >= 2 && s[0] == ',' && s[1] == ' ' {
        seq![','] + squeeze_comma_space(s.skip(2))
    } else {
        seq![s[0]] + squeeze_comma_space(s.skip(1))
    }
}

/// The text the list test searches: the list column with `, ` squeezed to
/// `,` and Unicode-lowercased (`ulower`; a NULL column reads as empty),
/// between two commas.
pub open spec fn lowered_list(column: Option<Seq<char>>) -> Seq<char> {
    seq![','] + match column {
        Some(c) => unicode_lowercase(squeeze_comma_space(c)),
        None => Seq::<char>::empty(),
    } + seq![',']
}

/// Whether `w` occurs in `text` (SQLite's `instr(text, w) > 0`).
pub open spec fn occurs_in(text: Seq<char>, w: Seq<char>) -> bool {
    exists|i: int| 0 <= i && i + w.len() <= text.len() && #[trigger] text.subrange(i, i + w.len()) == w
}

/// Whether the SQL of [`comma_list_contains`], with `param` bound to its `?`,
/// holds on a row whose list column reads `column`: `,param,` occurs in the
/// lowered, comma-delimited list.
pub open spec fn comma_list_sql_holds(column: Option<Seq<char>>, param: Seq<char>) -> bool {
    occurs_in(lowered_list(column), seq![','] + param + seq![','])
}

/// The SQL testing whether the comma-separated list in `table.column`
/// (entries separated by `,` or `, `) holds the bound value as a whole entry,
/// both sides Unicode-lowercased.
pub open spec fn comma_list_contains_spec(table: Seq<char>, column: Seq<char>) -> Seq<char> {
    "instr(',' || COALESCE(ulower(REPLACE(\""@ + table + "\".\""@ + column
        + "\", ', ', ',')), '') || ',', ',' || ? || ',') > 0"@
}

/// A comma-separated-list membership test for one value of a TEXT column like
/// `media_metadata.genres` ("Fantasy, Horror"), ignoring case across the full
/// Unicode range: the SQL, with one `?`, and the value to bind to it, which
/// is the value lowercased as the column is (`ulower`, std's `to_lowercase`).
/// The value is compared as plain text, so `%` and `_` in it are no
/// wildcards.
pub fn comma_list_contains(table: &str, column: &str, value: &str) -> (r: (String, String))
    ensures
        r.0@ == comma_list_contains_spec(table@, column@),
        r.1@ == unicode_lowercase(value@),
{
    let mut sql = String::from_str("instr(',' || COALESCE(ulower(REPLACE(\"");
    sql.append(table);
    sql.append("\".\"");
    sql.append(column);
    sql.append("\", ', ', ',')), '') || ',', ',' || ? || ',') > 0");
    (sql, to_lowercase(value))
}

/// Whether the delimited list has an entry (the characters between two
/// consecutive commas) equal to `value`.
pub open spec fn lists_entry(list: Seq<char>, value: Seq<char>) -> bool {
    exists|i: int, j: int|
        0 <= i < j < list.len() && list[i] == ',' && list[j] == ',' && (forall|k: int|
            i < k < j ==> list[k] != ',') && #[trigger] list.subrange(i + 1, j) == value
}

/// The list test is a membership test that ignores case across the full
/// Unicode range: when the lowercased value has no comma, the test holds
/// exactly when one entry of the row's lowercased list equals the lowercased
/// value (so `Фэнтези` lists `фэнтези`, and `Sci_Fi` is no entry of
/// `SciXFi, Horror`).
pub proof fn law_list_test_is_membership(column: Option<Seq<char>>, value: Seq<char>)
    requires
        !unicode_lowercase(value).contains(','),
    ensures
        comma_list_sql_holds(column, unicode_lowercase(value)) <==> lists_entry(
            lowered_list(column),
            unicode_lowercase(value),
        ),
{
    let d = lowered_list(column);
    let l = unicode_lowercase(value);
    let w = seq![','] + l + seq![','];
    let n: int = l.len() as int;
    if occurs_in(d, w) {
        let i = choose|i: int| 0 <= i && i + w.len() <= d.len() && #[trigger] d.subrange(i, i + w.len()) == w;
        let j = i + n + 1;
        let sub = d.subrange(i, i + w.len());
        assert(sub[0] == w[0]);
        assert(sub[n + 1] == w[n + 1]);
        assert forall|k: int| i < k < j implies d[k] != ',' by {
            assert(sub[k - i] == w[k - i]);
            assert(w[k - i] == l[k - i - 1]);
            if d[k] == ',' {
                assert(l.contains(','));
            }
        }
        assert(d.subrange(i + 1, j) =~= l) by {
            assert forall|k: int| 0 <= k < n implies d.subrange(i + 1, j)[k] == l[k] by {
                assert(sub[k + 1] == w[k + 1]);
            }
        }
    }
    if lists_entry(d, l) {
        let (i, j) = choose|i: int, j: int|
            0 <= i < j < d.len() && d[i] == ',' && d[j] == ',' && (forall|k: int| i < k < j ==> d[k] != ',')
                && #[trigger] d.subrange(i + 1, j) == l;
        assert(d.subrange(i + 1, j).len() == n);
        assert(d.subrange(i, i + w.len()) =~= w) by {
            assert forall|k: int| 0 <= k < w.len() implies d.subrange(i, i + w.len())[k] == w[k] by {
                if 0 < k < w.len() - 1 {
                    assert(d.subrange(i + 1, j)[k - 1] == l[k - 1]);
                }
            }
        }
        assert(occurs_in(d, w));
    }
}

/// The values Unicode-lowercased (std's `to_lowercase`), as the tag and
/// publisher tests compare them with the `ulower` of the column.
pub fn lowercase_all(values: &Vec<String>) -> (r: Vec<String>)
    ensures
        r@.len() == values@.len(),
        forall|i: int| 0 <= i < values@.len() ==> (#[trigger] r@[i])@ == unicode_lowercase(values@[i]@),
{
    let mut r: Vec<String> = Vec::new();
    let mut i: usize = 0;
    while i < values.len()
        invariant
            i <= values@.len(),
            r@.len() == i,
            forall|k: int| 0 <= k < i ==> (#[trigger] r@[k])@ == unicode_lowercase(values@[k]@),
        decreases values@.len() - i,
    {
        r.push(to_lowercase(values[i].as_str()));
        i = i + 1;
    }
    r
}

/// The SQL testing whether `table.column` holds no value (NULL or empty).
pub open spec fn column_is_unset_spec(table: Seq<char>, column: Seq<char>) -> Seq<char> {
    "COALESCE(\""@ + table + "\".\""@ + column + "\", '') = ''"@
}

/// The SQL of "the column is unset".
pub fn column_is_unset(table: &str, column: &str) -> (r: String)
    ensures
        r@ == column_is_unset_spec(table@, column@),
{
    let mut sql = String::from_str("COALESCE(\"");
    sql.append(table);
    sql.append("\".\"");
    sql.append(column);
    sql.append("\", '') = ''");
    sql
}

} // verus!
