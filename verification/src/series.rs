//! Series management decisions: merging series into one and undoing it, and
//! marking every book of a series as read.
use crate::filter::{
    escape_like_chars, lemma_escaped_prefix_matches, lemma_percent_matches_all, like_escape, like_literal, like_matches,
    law_escaped_text_is_literal,
};
use crate::text::ascii_lowercase;
use crate::text::{chars_of, string_from_chars};
use vstd::prelude::*;
use vstd::string::*;

verus! {

/// The error message when no source series is given.
pub open spec fn no_sources_message() -> Seq<char> {
    "At least one source series is required"@
}

/// The error message when the target is among the sources.
pub open spec fn self_merge_message() -> Seq<char> {
    "A series cannot be merged into itself"@
}

/// The outcome of checking a merge request before anything is looked up.
pub open spec fn merge_request_spec(target_id: Seq<char>, source_ids: Seq<Seq<char>>) -> Result<
    (),
    Seq<char>,
> {
    if source_ids.len() == 0 {
        Err(no_sources_message())
    } else if source_ids.contains(target_id) {
        Err(self_merge_message())
    } else {
        Ok(())
    }
}

/// The views of a list of strings.
pub open spec fn ids_view(ids: Seq<String>) -> Seq<Seq<char>> {
    ids.map_values(|s: String| s@)
}

/// Check a merge request: at least one source, and the target not among
/// them.
pub fn validate_merge_request(target_id: &str, source_ids: &Vec<String>) -> (r: Result<(), String>)
    ensures
        match merge_request_spec(target_id@, ids_view(source_ids@)) {
            Ok(()) => r is Ok,
            Err(m) => r is Err && r->Err_0@ == m,
        },
{
    if source_ids.len() == 0 {
        return Err(String::from_str("At least one source series is required"));
    }
    let target = String::from_str(target_id);
    let mut i: usize = 0;
    while i < source_ids.len()
        invariant
            i <= source_ids@.len(),
            target@ == target_id@,
            forall|j: int| 0 <= j < i ==> source_ids@[j]@ != target_id@,
        decreases source_ids@.len() - i,
    {
        if source_ids[i] == target {
            assert(ids_view(source_ids@)[i as int] == target_id@);
            return Err(String::from_str("A series cannot be merged into itself"));
        }
        i = i + 1;
    }
    assert(!ids_view(source_ids@).contains(target_id@));
    Ok(())
}

/// What a merge reads of a series.
#[derive(Debug, Clone)]
pub struct SeriesInfo {
    pub id: String,
    pub name: String,
    pub path: String,
    pub library_id: Option<String>,
}

/// The library of a series, as text.
pub open spec fn library_view(library_id: Option<String>) -> Option<Seq<char>> {
    match library_id {
        Some(l) => Some(l@),
        None => None,
    }
}

fn same_library(a: &Option<String>, b: &Option<String>) -> (r: bool)
    ensures
        r == (library_view(*a) == library_view(*b)),
{
    match (a, b) {
        (Some(x), Some(y)) => *x == *y,
        (None, None) => true,
        _ => false,
    }
}

/// The libraries of a list of series.
pub open spec fn libraries_view(series: Seq<SeriesInfo>) -> Seq<Option<Seq<char>>> {
    series.map_values(|s: SeriesInfo| library_view(s.library_id))
}

/// The outcome of checking the looked-up sources of a merge: every requested
/// source was found, and all lie in the target's library.
pub open spec fn merge_sources_spec(
    target_library: Option<Seq<char>>,
    requested: nat,
    found_libraries: Seq<Option<Seq<char>>>,
) -> Result<(), Seq<char>> {
    if found_libraries.len() != requested {
        Err("One or more source series were not found"@)
    } else if exists|i: int| 0 <= i < found_libraries.len() && found_libraries[i] != target_library {
        Err("Series can only be merged within the same library"@)
    } else {
        Ok(())
    }
}

/// Check the sources a merge found against the request and the target.
pub fn check_merge_sources(target: &SeriesInfo, requested: usize, sources: &Vec<SeriesInfo>) -> (r:
    Result<(), String>)
    ensures
        match merge_sources_spec(
            library_view(target.library_id),
            requested as nat,
            libraries_view(sources@),
        ) {
            Ok(()) => r is Ok,
            Err(m) => r is Err && r->Err_0@ == m,
        },
{
    let ghost libs = libraries_view(sources@);
    assert(libs.len() == sources@.len());
    if sources.len() != requested {
        return Err(String::from_str("One or more source series were not found"));
    }
    let mut i: usize = 0;
    while i < sources.len()
        invariant
            i <= sources@.len(),
            libs == libraries_view(sources@),
            sources@.len() == requested,
            forall|j: int| 0 <= j < i ==> libs[j] == library_view(target.library_id),
        decreases sources@.len() - i,
    {
        if !same_library(&sources[i].library_id, &target.library_id) {
            assert(libs[i as int] != library_view(target.library_id));
            assert(exists|k: int| 0 <= k < libs.len() && libs[k] != library_view(target.library_id));
            return Err(String::from_str("Series can only be merged within the same library"));
        }
        i = i + 1;
    }
    Ok(())
}

/// One database change of a merge or an unmerge, in the order they run
/// inside one transaction.
#[derive(Debug)]
pub enum SeriesChange {
    /// Move every book of series `from` to series `to`.
    MoveMedia { from: String, to: String },
    /// Point every merge record aimed at `from` at `to`.
    RepointMerges { from: String, to: String },
    /// Remember that the folder `source_path` (once series `source_name`)
    /// was merged into `target`.
    RecordMerge { target: String, source_path: String, source_name: String },
    /// Delete series `id`.
    DeleteSeries { id: String },
    /// Create series `id` named `name` for folder `path` in `library_id`, with
    /// file status `status`.
    CreateSeries { id: String, name: String, path: String, library_id: Option<String>, status: String },
    /// Move the books of series `from` whose path matches the LIKE `pattern`
    /// (with `ESCAPE '\'`) to series `to`.
    MoveMediaMatching { from: String, to: String, pattern: String },
    /// Forget every merge record aimed at `target`.
    ForgetMerges { target: String },
}

/// The four changes that merge one source into the target.
pub open spec fn merge_changes_hold(changes: Seq<SeriesChange>, at: int, target: SeriesInfo, source: SeriesInfo) -> bool {
    &&& changes[at] matches SeriesChange::MoveMedia { from, to } && from@ == source.id@ && to@ == target.id@
    &&& changes[at + 1] matches SeriesChange::RepointMerges { from, to } && from@ == source.id@ && to@ == target.id@
    &&& changes[at + 2] matches SeriesChange::RecordMerge { target: t, source_path, source_name }
        && t@ == target.id@ && source_path@ == source.path@ && source_name@ == source.name@
    &&& changes[at + 3] matches SeriesChange::DeleteSeries { id } && id@ == source.id@
}

/// The changes merging `sources` into `target`: for each source in turn, its
/// books move to the target, merges into it are re-aimed at the target (so
/// chained merges stay resolvable), its folder is recorded, and it is
/// deleted.
pub fn plan_merge(target: &SeriesInfo, sources: &Vec<SeriesInfo>) -> (r: Vec<SeriesChange>)
    requires
        sources@.len() * 4 <= usize::MAX,
    ensures
        r@.len() == sources@.len() * 4,
        forall|i: int| 0 <= i < sources@.len() ==> merge_changes_hold(r@, 4 * i, *target, #[trigger] sources@[i]),
{
    let mut changes: Vec<SeriesChange> = Vec::new();
    let mut i: usize = 0;
    while i < sources.len()
        invariant
            i <= sources@.len(),
            changes@.len() == i * 4,
            forall|j: int| 0 <= j < i ==> merge_changes_hold(changes@, 4 * j, *target, #[trigger] sources@[j]),
        decreases sources@.len() - i,
    {
        let source = &sources[i];
        let ghost before = changes@;
        changes.push(SeriesChange::MoveMedia { from: source.id.clone(), to: target.id.clone() });
        changes.push(SeriesChange::RepointMerges { from: source.id.clone(), to: target.id.clone() });
        changes.push(
            SeriesChange::RecordMerge {
                target: target.id.clone(),
                source_path: source.path.clone(),
                source_name: source.name.clone(),
            },
        );
        changes.push(SeriesChange::DeleteSeries { id: source.id.clone() });
        assert forall|j: int| 0 <= j < i + 1 implies merge_changes_hold(changes@, 4 * j, *target, #[trigger] sources@[j]) by {
            if j < i {
                assert(changes@[4 * j] == before[4 * j]);
                assert(changes@[4 * j + 1] == before[4 * j + 1]);
                assert(changes@[4 * j + 2] == before[4 * j + 2]);
                assert(changes@[4 * j + 3] == before[4 * j + 3]);
            }
        }
        i = i + 1;
    }
    changes
}

/// The error message when the target series is missing (or not visible to
/// the user).
pub open spec fn target_not_found_message() -> Seq<char> {
    "Target series not found"@
}

/// The outcome of the checks of a merge, in the order they run: the request
/// itself, then the lookup of the target, then the lookup of the sources.
pub open spec fn merge_checks_spec(
    target_id: Seq<char>,
    source_ids: Seq<Seq<char>>,
    target: Option<SeriesInfo>,
    sources: Seq<SeriesInfo>,
) -> Result<(), Seq<char>> {
    match merge_request_spec(target_id, source_ids) {
        Err(m) => Err(m),
        Ok(()) => match target {
            None => Err(target_not_found_message()),
            Some(t) => merge_sources_spec(library_view(t.library_id), source_ids.len(), libraries_view(sources)),
        },
    }
}

/// Merge the series `source_ids` into `target_id`, given what the lookups
/// found (`target`: the target series if the user can see it; `sources`: the
/// visible series among `source_ids`). A failed check gives its error and no
/// change at all; otherwise the changes of [`plan_merge`].
pub fn plan_series_merge(
    target_id: &str,
    source_ids: &Vec<String>,
    target: Option<&SeriesInfo>,
    sources: &Vec<SeriesInfo>,
) -> (r: Result<Vec<SeriesChange>, String>)
    requires
        sources@.len() * 4 <= usize::MAX,
    ensures
        match merge_checks_spec(
            target_id@,
            ids_view(source_ids@),
            match target {
                Some(t) => Some(*t),
                None => None,
            },
            sources@,
        ) {
            Err(m) => r is Err && r->Err_0@ == m,
            Ok(()) => r matches Ok(changes) && target matches Some(t) && changes@.len() == sources@.len() * 4
                && forall|i: int| 0 <= i < sources@.len() ==> merge_changes_hold(changes@, 4 * i, *t, #[trigger] sources@[i]),
        },
{
    validate_merge_request(target_id, source_ids)?;
    let target = match target {
        Some(t) => t,
        None => {
            return Err(String::from_str("Target series not found"));
        },
    };
    assert(ids_view(source_ids@).len() == source_ids@.len());
    check_merge_sources(target, source_ids.len(), sources)?;
    Ok(plan_merge(target, sources))
}

/// A merge deletes only its sources: when the target is not among them (as
/// `validate_merge_request` ensures), no change of the plan deletes the
/// target.
pub proof fn law_merge_keeps_target(target: SeriesInfo, sources: Seq<SeriesInfo>, changes: Seq<SeriesChange>)
    requires
        changes.len() == sources.len() * 4,
        forall|i: int| 0 <= i < sources.len() ==> merge_changes_hold(changes, 4 * i, target, #[trigger] sources[i]),
        forall|i: int| 0 <= i < sources.len() ==> (#[trigger] sources[i]).id@ != target.id@,
    ensures
        forall|k: int| 0 <= k < changes.len() ==> !(#[trigger] changes[k] matches SeriesChange::DeleteSeries { id } && id@ == target.id@),
{
    assert forall|k: int| 0 <= k < changes.len() implies !(#[trigger] changes[k] matches SeriesChange::DeleteSeries { id } && id@ == target.id@) by {
        let i = k / 4;
        assert(0 <= i < sources.len());
        assert(merge_changes_hold(changes, 4 * i, target, sources[i]));
        assert(k == 4 * i || k == 4 * i + 1 || k == 4 * i + 2 || k == 4 * i + 3);
    }
}

/// A stored merge: the folder of a series merged into `target_series_id`.
#[derive(Debug, Clone)]
pub struct SeriesMergeRecord {
    pub target_series_id: String,
    pub source_path: String,
    pub source_name: String,
}

/// The folder prefix of a merged series' books: its path with a trailing
/// separator (`/` when the path holds one, else `\`).
pub open spec fn folder_prefix(path: Seq<char>) -> Seq<char> {
    if path.len() > 0 && (path.last() == '/' || path.last() == '\\') {
        path
    } else if path.contains('/') {
        path.push('/')
    } else {
        path.push('\\')
    }
}

/// The LIKE pattern (with `ESCAPE '\'`) of the books under a folder: the
/// escaped prefix followed by `%`.
pub open spec fn folder_pattern(path: Seq<char>) -> Seq<char> {
    like_escape(folder_prefix(path)).push('%')
}

/// The books moved back to a restored folder are those whose path starts with
/// the folder's path and a separator, taken literally: the pattern is that
/// prefix, escaped so no `_` or `%` of a folder name acts as a wildcard,
/// followed by a single `%`.
pub proof fn law_folder_pattern_is_literal_prefix(path: Seq<char>)
    ensures
        folder_pattern(path).last() == '%',
        like_literal(folder_pattern(path).drop_last()) == Some(folder_prefix(path)),
        folder_prefix(path).len() > 0,
        folder_prefix(path).last() == '/' || folder_prefix(path).last() == '\\',
        folder_prefix(path).subrange(0, path.len() as int) == path,
{
    law_escaped_text_is_literal(folder_prefix(path));
    assert(folder_pattern(path).drop_last() =~= like_escape(folder_prefix(path)));
    assert(folder_prefix(path).subrange(0, path.len() as int) =~= path);
}

/// The books an unmerge moves back to a folder are exactly those whose path
/// starts with the folder's path and a separator (ASCII case folded, as
/// SQLite's LIKE compares); a `_` or `%` in the folder name matches only
/// itself.
pub proof fn law_folder_pattern_selects_books_under_folder(path: Seq<char>, book_path: Seq<char>)
    ensures
        like_matches(folder_pattern(path), book_path) <==> (folder_prefix(path).len() <= book_path.len()
            && ascii_lowercase(book_path.take(folder_prefix(path).len() as int)) == ascii_lowercase(
            folder_prefix(path),
        )),
{
    let prefix = folder_prefix(path);
    assert(folder_pattern(path) =~= like_escape(prefix) + seq!['%']);
    lemma_escaped_prefix_matches(prefix, seq!['%'], book_path);
    if prefix.len() <= book_path.len() {
        lemma_percent_matches_all(book_path.skip(prefix.len() as int));
    }
}

/// The LIKE pattern matching the paths of the books under a merged folder.
pub fn folder_media_pattern(source_path: &str) -> (r: String)
    ensures
        r@ == folder_pattern(source_path@),
{
    let mut chars = chars_of(source_path);
    let n = chars.len();
    let ends_with_separator = n > 0 && (chars[n - 1] == '/' || chars[n - 1] == '\\');
    if !ends_with_separator {
        let mut has_slash = false;
        let mut i: usize = 0;
        while i < n
            invariant
                n == chars@.len(),
                chars@ == source_path@,
                i <= n,
                has_slash == (exists|j: int| 0 <= j < i && chars@[j] == '/'),
            decreases n - i,
        {
            if chars[i] == '/' {
                has_slash = true;
            }
            i = i + 1;
        }
        proof {
            if has_slash {
                let j = choose|j: int| 0 <= j < n && chars@[j] == '/';
                assert(source_path@[j] == '/');
            }
            if source_path@.contains('/') {
                let j = choose|j: int| 0 <= j < source_path@.len() && source_path@[j] == '/';
                assert(chars@[j] == '/');
            }
        }
        if has_slash {
            chars.push('/');
        } else {
            chars.push('\\');
        }
    }
    let mut pattern = escape_like_chars(chars.as_slice());
    pattern.push('%');
    string_from_chars(pattern.as_slice())
}

/// The error message when a series has nothing to unmerge.
pub open spec fn nothing_to_unmerge_message() -> Seq<char> {
    "This series has no merged folders to restore"@
}

/// The file status of a series restored by an unmerge: ready.
pub open spec fn ready_status() -> Seq<char> {
    "READY"@
}

/// The two changes that restore one merged folder as series `new_id` (a
/// ready series).
pub open spec fn unmerge_changes_hold(
    changes: Seq<SeriesChange>,
    at: int,
    target: SeriesInfo,
    merge: SeriesMergeRecord,
    new_id: Seq<char>,
) -> bool {
    &&& changes[at] matches SeriesChange::CreateSeries { id, name, path, library_id, status }
        && id@ == new_id && name@ == merge.source_name@ && path@ == merge.source_path@
        && library_view(library_id) == library_view(target.library_id) && status@ == ready_status()
    &&& changes[at + 1] matches SeriesChange::MoveMediaMatching { from, to, pattern }
        && from@ == target.id@ && to@ == new_id && pattern@ == folder_pattern(merge.source_path@)
}

/// The changes undoing every merge into `target`: each merged folder becomes
/// a series again, under its original name and in the target's library (with
/// the fresh id `new_ids[i]`), and takes back the books under it; then the
/// merge records are forgotten. A series with no merges is an error.
pub fn plan_unmerge(
    target: &SeriesInfo,
    merges: &Vec<SeriesMergeRecord>,
    new_ids: &Vec<String>,
) -> (r: Result<Vec<SeriesChange>, String>)
    requires
        new_ids@.len() == merges@.len(),
        merges@.len() * 2 + 1 <= usize::MAX,
    ensures
        merges@.len() == 0 ==> r is Err && r->Err_0@ == nothing_to_unmerge_message(),
        merges@.len() > 0 ==> r is Ok,
        r matches Ok(changes) ==> {
            &&& changes@.len() == merges@.len() * 2 + 1
            &&& forall|i: int| 0 <= i < merges@.len() ==> unmerge_changes_hold(changes@, 2 * i, *target, #[trigger] merges@[i], new_ids@[i]@)
            &&& (changes@.last() matches SeriesChange::ForgetMerges { target: t } && t@ == target.id@)
        },
{
    if merges.len() == 0 {
        return Err(String::from_str("This series has no merged folders to restore"));
    }
    let mut changes: Vec<SeriesChange> = Vec::new();
    let mut i: usize = 0;
    while i < merges.len()
        invariant
            i <= merges@.len(),
            new_ids@.len() == merges@.len(),
            changes@.len() == i * 2,
            forall|j: int| 0 <= j < i ==> unmerge_changes_hold(changes@, 2 * j, *target, #[trigger] merges@[j], new_ids@[j]@),
        decreases merges@.len() - i,
    {
        let merge = &merges[i];
        let ghost before = changes@;
        let library_id = match &target.library_id {
            Some(l) => Some(l.clone()),
            None => None,
        };
        changes.push(
            SeriesChange::CreateSeries {
                id: new_ids[i].clone(),
                name: merge.source_name.clone(),
                path: merge.source_path.clone(),
                library_id,
                status: String::from_str("READY"),
            },
        );
        changes.push(
            SeriesChange::MoveMediaMatching {
                from: target.id.clone(),
                to: new_ids[i].clone(),
                pattern: folder_media_pattern(merge.source_path.as_str()),
            },
        );
        assert forall|j: int| 0 <= j < i + 1 implies unmerge_changes_hold(changes@, 2 * j, *target, #[trigger] merges@[j], new_ids@[j]@) by {
            if j < i {
                assert(changes@[2 * j] == before[2 * j]);
                assert(changes@[2 * j + 1] == before[2 * j + 1]);
            }
        }
        i = i + 1;
    }
    changes.push(SeriesChange::ForgetMerges { target: target.id.clone() });
    assert forall|j: int| 0 <= j < merges@.len() implies unmerge_changes_hold(changes@, 2 * j, *target, #[trigger] merges@[j], new_ids@[j]@) by {
        assert(changes@[2 * j] == changes@.drop_last()[2 * j]);
        assert(changes@[2 * j + 1] == changes@.drop_last()[2 * j + 1]);
    }
    Ok(changes)
}

/// Unmerging gives back what merging took: when the merge records of a
/// series are those a merge of `sources` into it wrote (all sources in the
/// target's library, as `check_merge_sources` demands), undoing the merge
/// recreates each source under its original name and folder, in its original
/// library.
pub proof fn law_unmerge_restores_merged_sources(
    target: SeriesInfo,
    sources: Seq<SeriesInfo>,
    merge_changes: Seq<SeriesChange>,
    merges: Seq<SeriesMergeRecord>,
    new_ids: Seq<Seq<char>>,
    unmerge_changes: Seq<SeriesChange>,
)
    requires
        merge_changes.len() == sources.len() * 4,
        forall|i: int| 0 <= i < sources.len() ==> merge_changes_hold(merge_changes, 4 * i, target, #[trigger] sources[i]),
        forall|i: int| 0 <= i < sources.len() ==> library_view((#[trigger] sources[i]).library_id) == library_view(target.library_id),
        merges.len() == sources.len(),
        forall|i: int| 0 <= i < merges.len() ==> (merge_changes[4 * i + 2] matches SeriesChange::RecordMerge { target: t, source_path, source_name }
            && (#[trigger] merges[i]).target_series_id@ == t@ && merges[i].source_path@ == source_path@
            && merges[i].source_name@ == source_name@),
        new_ids.len() == merges.len(),
        forall|i: int| 0 <= i < merges.len() ==> unmerge_changes_hold(unmerge_changes, 2 * i, target, #[trigger] merges[i], new_ids[i]),
    ensures
        forall|i: int| 0 <= i < sources.len() ==> (unmerge_changes[2 * i] matches SeriesChange::CreateSeries { id, name, path, library_id, .. }
            && id@ == new_ids[i] && name@ == (#[trigger] sources[i]).name@ && path@ == sources[i].path@
            && library_view(library_id) == library_view(sources[i].library_id)),
{
    assert forall|i: int| 0 <= i < sources.len() implies (unmerge_changes[2 * i] matches SeriesChange::CreateSeries { id, name, path, library_id, .. }
            && id@ == new_ids[i] && name@ == (#[trigger] sources[i]).name@ && path@ == sources[i].path@
            && library_view(library_id) == library_view(sources[i].library_id)) by {
        assert(merge_changes_hold(merge_changes, 4 * i, target, sources[i]));
        assert(unmerge_changes_hold(unmerge_changes, 2 * i, target, merges[i], new_ids[i]));
    }
}

/// A series row as the changes of a merge or an unmerge see it.
pub ghost struct SeriesRow {
    pub name: Seq<char>,
    pub path: Seq<char>,
    pub library_id: Option<Seq<char>>,
}

/// A stored merge as the changes see it.
pub ghost struct MergeRow {
    pub target: Seq<char>,
    pub source_path: Seq<char>,
    pub source_name: Seq<char>,
}

/// The part of the database the changes of a merge or an unmerge touch:
/// series by id, the series and the path of each book by book id, and the
/// merge records.
pub ghost struct LibraryState {
    pub series: Map<Seq<char>, SeriesRow>,
    pub book_series: Map<Seq<char>, Seq<char>>,
    pub book_paths: Map<Seq<char>, Seq<char>>,
    pub merges: Seq<MergeRow>,
}

/// The books of series `from` that `moved` selects go to series `to`; every
/// other book stays where it is.
pub open spec fn move_books(
    book_series: Map<Seq<char>, Seq<char>>,
    from: Seq<char>,
    to: Seq<char>,
    moved: spec_fn(Seq<char>) -> bool,
) -> Map<Seq<char>, Seq<char>> {
    Map::new(
        |b: Seq<char>| book_series.dom().contains(b),
        |b: Seq<char>| if book_series[b] == from && moved(b) { to } else { book_series[b] },
    )
}

/// What one change does to the database, as the transaction runs it (the
/// pattern of a `MoveMediaMatching` is matched with SQLite's LIKE and
/// `ESCAPE '\'`).
pub open spec fn apply_change(s: LibraryState, c: SeriesChange) -> LibraryState {
    match c {
        SeriesChange::MoveMedia { from, to } => LibraryState {
            book_series: move_books(s.book_series, from@, to@, |b: Seq<char>| true),
            ..s
        },
        SeriesChange::RepointMerges { from, to } => LibraryState {
            merges: s.merges.map_values(
                |m: MergeRow| if m.target == from@ { MergeRow { target: to@, ..m } } else { m },
            ),
            ..s
        },
        SeriesChange::RecordMerge { target, source_path, source_name } => LibraryState {
            merges: s.merges.push(MergeRow { target: target@, source_path: source_path@, source_name: source_name@ }),
            ..s
        },
        SeriesChange::DeleteSeries { id } => LibraryState { series: s.series.remove(id@), ..s },
        SeriesChange::CreateSeries { id, name, path, library_id, .. } => LibraryState {
            series: s.series.insert(id@, SeriesRow { name: name@, path: path@, library_id: library_view(library_id) }),
            ..s
        },
        SeriesChange::MoveMediaMatching { from, to, pattern } => LibraryState {
            book_series: move_books(
                s.book_series,
                from@,
                to@,
                |b: Seq<char>| like_matches(pattern@, s.book_paths[b]),
            ),
            ..s
        },
        SeriesChange::ForgetMerges { target } => LibraryState {
            merges: s.merges.filter(|m: MergeRow| m.target != target@),
            ..s
        },
    }
}

/// The database after the changes, in order.
pub open spec fn apply_changes(s: LibraryState, changes: Seq<SeriesChange>) -> LibraryState
    decreases changes.len(),
{
    if changes.len() == 0 {
        s
    } else {
        apply_change(apply_changes(s, changes.drop_last()), changes.last())
    }
}

/// The first of the first `n` merged folders whose books include a book at
/// `path` (its pattern matches the path), if any.
pub open spec fn first_restored(merges: Seq<SeriesMergeRecord>, path: Seq<char>, n: int) -> Option<int>
    decreases n,
{
    if n <= 0 {
        None
    } else {
        match first_restored(merges, path, n - 1) {
            Some(i) => Some(i),
            None => if like_matches(folder_pattern(merges[n - 1].source_path@), path) {
                Some(n - 1)
            } else {
                None
            },
        }
    }
}

proof fn lemma_first_restored_in_range(merges: Seq<SeriesMergeRecord>, path: Seq<char>, n: int)
    ensures
        first_restored(merges, path, n) matches Some(i) ==> 0 <= i < n,
    decreases n,
{
    if n > 0 {
        lemma_first_restored_in_range(merges, path, n - 1);
    }
}

/// Where a book of the database `s` belongs once the first `n` folders are
/// restored: a book of the target under one of them goes to the first such
/// folder's new series; every other book stays.
pub open spec fn restored_series(
    s: LibraryState,
    target: Seq<char>,
    merges: Seq<SeriesMergeRecord>,
    new_ids: Seq<Seq<char>>,
    n: int,
    book: Seq<char>,
) -> Seq<char> {
    if s.book_series[book] == target {
        match first_restored(merges, s.book_paths[book], n) {
            Some(i) => new_ids[i],
            None => target,
        }
    } else {
        s.book_series[book]
    }
}

/// The database after the first `n` folders of an unmerge plan are restored.
proof fn lemma_unmerge_steps(
    s: LibraryState,
    target: SeriesInfo,
    merges: Seq<SeriesMergeRecord>,
    new_ids: Seq<Seq<char>>,
    changes: Seq<SeriesChange>,
    n: int,
)
    requires
        0 <= n <= merges.len(),
        new_ids.len() == merges.len(),
        changes.len() >= merges.len() * 2,
        forall|i: int| 0 <= i < merges.len() ==> unmerge_changes_hold(changes, 2 * i, target, #[trigger] merges[i], new_ids[i]),
        forall|i: int| 0 <= i < new_ids.len() ==> #[trigger] new_ids[i] != target.id@,
        forall|i: int, j: int| 0 <= i < j < new_ids.len() ==> new_ids[i] != new_ids[j],
    ensures
        ({
            let t = apply_changes(s, changes.take(2 * n));
            &&& t.book_paths == s.book_paths
            &&& t.merges == s.merges
            &&& t.book_series.dom() == s.book_series.dom()
            &&& forall|b: Seq<char>| #[trigger] t.book_series.dom().contains(b) ==> t.book_series[b]
                == restored_series(s, target.id@, merges, new_ids, n, b)
            &&& forall|i: int| 0 <= i < n ==> t.series.dom().contains(#[trigger] new_ids[i]) && t.series[new_ids[i]]
                == (SeriesRow {
                name: merges[i].source_name@,
                path: merges[i].source_path@,
                library_id: library_view(target.library_id),
            })
        }),
    decreases n,
{
    if n == 0 {
        assert(changes.take(0) =~= Seq::<SeriesChange>::empty());
        let t = apply_changes(s, changes.take(0));
        assert(t.book_series =~= s.book_series);
    } else {
        let m = n - 1;
        lemma_unmerge_steps(s, target, merges, new_ids, changes, m);
        let t0 = apply_changes(s, changes.take(2 * m));
        assert(changes.take(2 * m + 1).drop_last() =~= changes.take(2 * m));
        assert(changes.take(2 * n).drop_last() =~= changes.take(2 * m + 1));
        assert(changes.take(2 * m + 1).last() == changes[2 * m]);
        assert(changes.take(2 * n).last() == changes[2 * m + 1]);
        assert(unmerge_changes_hold(changes, 2 * m, target, merges[m], new_ids[m]));
        let t1 = apply_changes(s, changes.take(2 * m + 1));
        let t = apply_changes(s, changes.take(2 * n));
        assert(t1 == apply_change(t0, changes[2 * m]));
        assert(t == apply_change(t1, changes[2 * m + 1]));
        let pattern = folder_pattern(merges[m].source_path@);
        assert forall|b: Seq<char>| #[trigger] t.book_series.dom().contains(b) implies t.book_series[b]
            == restored_series(s, target.id@, merges, new_ids, n, b) by {
            assert(t1.book_series[b] == t0.book_series[b]);
            assert(t0.book_series[b] == restored_series(s, target.id@, merges, new_ids, m, b));
            if s.book_series[b] == target.id@ {
                lemma_first_restored_in_range(merges, s.book_paths[b], m);
                match first_restored(merges, s.book_paths[b], m) {
                    Some(j) => {
                        assert(new_ids[j] != target.id@);
                    },
                    None => {},
                }
            }
        }
        assert(t.book_series.dom() =~= s.book_series.dom());
        assert forall|i: int| 0 <= i < n implies t.series.dom().contains(#[trigger] new_ids[i]) && t.series[new_ids[i]]
            == (SeriesRow {
            name: merges[i].source_name@,
            path: merges[i].source_path@,
            library_id: library_view(target.library_id),
        }) by {
            if i < m {
                assert(new_ids[i] != new_ids[m]);
            }
        }
    }
}

/// Unmerging restores every merged folder: the changes of an unmerge plan
/// (with fresh ids, distinct and other than the target's) create each
/// folder's series under its original name and path in the target's library;
/// move each book of the target under a restored folder (its path starts with
/// the folder and a separator, compared literally with ASCII case folded) to
/// the first such folder's series, leaving every other book where it was; and
/// leave no merge record aimed at the target.
pub proof fn law_unmerge_restores_folders(
    s: LibraryState,
    target: SeriesInfo,
    merges: Seq<SeriesMergeRecord>,
    new_ids: Seq<Seq<char>>,
    changes: Seq<SeriesChange>,
)
    requires
        new_ids.len() == merges.len(),
        changes.len() == merges.len() * 2 + 1,
        forall|i: int| 0 <= i < merges.len() ==> unmerge_changes_hold(changes, 2 * i, target, #[trigger] merges[i], new_ids[i]),
        changes.last() matches SeriesChange::ForgetMerges { target: t } && t@ == target.id@,
        forall|i: int| 0 <= i < new_ids.len() ==> #[trigger] new_ids[i] != target.id@,
        forall|i: int, j: int| 0 <= i < j < new_ids.len() ==> new_ids[i] != new_ids[j],
    ensures
        ({
            let after = apply_changes(s, changes);
            &&& forall|i: int| 0 <= i < merges.len() ==> after.series.dom().contains(#[trigger] new_ids[i])
                && after.series[new_ids[i]] == (SeriesRow {
                name: merges[i].source_name@,
                path: merges[i].source_path@,
                library_id: library_view(target.library_id),
            })
            &&& after.book_series.dom() == s.book_series.dom()
            &&& forall|b: Seq<char>| #[trigger] after.book_series.dom().contains(b) ==> after.book_series[b]
                == restored_series(s, target.id@, merges, new_ids, merges.len() as int, b)
            &&& forall|k: int| 0 <= k < after.merges.len() ==> (#[trigger] after.merges[k]).target != target.id@
            &&& after.book_paths == s.book_paths
        }),
{
    let n = merges.len() as int;
    lemma_unmerge_steps(s, target, merges, new_ids, changes, n);
    assert(changes.drop_last() =~= changes.take(2 * n));
    let after = apply_changes(s, changes);
    let t = apply_changes(s, changes.take(2 * n));
    assert(after == apply_change(t, changes.last()));
    assert(after.book_series =~= t.book_series);
    assert forall|k: int| 0 <= k < after.merges.len() implies (#[trigger] after.merges[k]).target != target.id@ by {
        assert(after.merges == t.merges.filter(|m: MergeRow| m.target != target.id@));
        broadcast use vstd::seq_lib::group_filter_ensures;

    }
}

/// Where a book of the database `s` belongs once the first `n` sources are
/// merged into the target: a book of one of them goes to the target.
pub open spec fn merged_series(
    s: LibraryState,
    target: Seq<char>,
    sources: Seq<SeriesInfo>,
    n: int,
    book: Seq<char>,
) -> Seq<char> {
    if exists|i: int| 0 <= i < n && s.book_series[book] == (#[trigger] sources[i]).id@ {
        target
    } else {
        s.book_series[book]
    }
}

/// What a merge does to the books: once the changes merging the first `n`
/// sources into the target have run, every book of one of those sources
/// belongs to the target, every other book is where it was, and no book's
/// path changes.
pub proof fn law_merge_moves_source_books(
    s: LibraryState,
    target: SeriesInfo,
    sources: Seq<SeriesInfo>,
    changes: Seq<SeriesChange>,
    n: int,
)
    requires
        0 <= n <= sources.len(),
        changes.len() >= sources.len() * 4,
        forall|i: int| 0 <= i < sources.len() ==> merge_changes_hold(changes, 4 * i, target, #[trigger] sources[i]),
    ensures
        ({
            let t = apply_changes(s, changes.take(4 * n));
            &&& t.book_paths == s.book_paths
            &&& t.book_series.dom() == s.book_series.dom()
            &&& forall|b: Seq<char>| #[trigger] t.book_series.dom().contains(b) ==> t.book_series[b]
                == merged_series(s, target.id@, sources, n, b)
        }),
    decreases n,
{
    if n == 0 {
        assert(changes.take(0) =~= Seq::<SeriesChange>::empty());
        let t = apply_changes(s, changes.take(0));
        assert forall|b: Seq<char>| #[trigger] t.book_series.dom().contains(b) implies t.book_series[b]
            == merged_series(s, target.id@, sources, n, b) by {}
    } else {
        let m = n - 1;
        law_merge_moves_source_books(s, target, sources, changes, m);
        assert(merge_changes_hold(changes, 4 * m, target, sources[m]));
        let t0 = apply_changes(s, changes.take(4 * m));
        let t1 = apply_changes(s, changes.take(4 * m + 1));
        let t2 = apply_changes(s, changes.take(4 * m + 2));
        let t3 = apply_changes(s, changes.take(4 * m + 3));
        let t = apply_changes(s, changes.take(4 * n));
        assert(changes.take(4 * m + 1).drop_last() =~= changes.take(4 * m));
        assert(changes.take(4 * m + 2).drop_last() =~= changes.take(4 * m + 1));
        assert(changes.take(4 * m + 3).drop_last() =~= changes.take(4 * m + 2));
        assert(changes.take(4 * n).drop_last() =~= changes.take(4 * m + 3));
        assert(t1 == apply_change(t0, changes[4 * m]));
        assert(t2 == apply_change(t1, changes[4 * m + 1]));
        assert(t3 == apply_change(t2, changes[4 * m + 2]));
        assert(t == apply_change(t3, changes[4 * m + 3]));
        assert(t.book_series == t1.book_series);
        assert(t.book_series.dom() =~= s.book_series.dom());
        assert forall|b: Seq<char>| #[trigger] t.book_series.dom().contains(b) implies t.book_series[b]
            == merged_series(s, target.id@, sources, n, b) by {
            if s.book_series[b] == sources[m].id@ {
                assert(0 <= m < n && s.book_series[b] == sources[m].id@);
            }
            if exists|i: int| 0 <= i < n && s.book_series[b] == (#[trigger] sources[i]).id@ {
                let i = choose|i: int| 0 <= i < n && s.book_series[b] == (#[trigger] sources[i]).id@;
                if i < m {
                    assert(0 <= i < m && s.book_series[b] == sources[i].id@);
                }
            }
        }
    }
}

proof fn lemma_first_restored_is(merges: Seq<SeriesMergeRecord>, path: Seq<char>, i: int, n: int)
    requires
        0 <= i < n <= merges.len(),
        like_matches(folder_pattern(merges[i].source_path@), path),
        forall|j: int| 0 <= j < i ==> !like_matches(folder_pattern((#[trigger] merges[j]).source_path@), path),
    ensures
        first_restored(merges, path, n) == Some(i),
    decreases n,
{
    if n > i + 1 {
        lemma_first_restored_is(merges, path, i, n - 1);
    } else {
        lemma_first_restored_none(merges, path, i);
    }
}

proof fn lemma_first_restored_none(merges: Seq<SeriesMergeRecord>, path: Seq<char>, n: int)
    requires
        n <= merges.len(),
        forall|j: int| 0 <= j < n ==> !like_matches(folder_pattern((#[trigger] merges[j]).source_path@), path),
    ensures
        first_restored(merges, path, n) is None,
    decreases n,
{
    if n > 0 {
        lemma_first_restored_none(merges, path, n - 1);
    }
}

/// Unmerging undoes a merge: merge `sources` into `target`, then unmerge the
/// records that merge wrote (with fresh ids, distinct and other than the
/// target's). When each source's books lie under its own folder and under no
/// other merged folder, and none of the target's own books lies under a
/// merged folder, every book of source `i` ends in the series restored for
/// folder `i`, which has the source's name and path, and every other book is
/// where it was before the merge.
pub proof fn law_unmerge_undoes_merge(
    s: LibraryState,
    target: SeriesInfo,
    sources: Seq<SeriesInfo>,
    merge_changes: Seq<SeriesChange>,
    merges: Seq<SeriesMergeRecord>,
    new_ids: Seq<Seq<char>>,
    unmerge_changes: Seq<SeriesChange>,
)
    requires
        merge_changes.len() == sources.len() * 4,
        forall|i: int| 0 <= i < sources.len() ==> merge_changes_hold(merge_changes, 4 * i, target, #[trigger] sources[i]),
        merges.len() == sources.len(),
        forall|i: int| 0 <= i < merges.len() ==> (#[trigger] merges[i]).source_path@ == sources[i].path@
            && merges[i].source_name@ == sources[i].name@,
        new_ids.len() == merges.len(),
        unmerge_changes.len() == merges.len() * 2 + 1,
        forall|i: int| 0 <= i < merges.len() ==> unmerge_changes_hold(unmerge_changes, 2 * i, target, #[trigger] merges[i], new_ids[i]),
        unmerge_changes.last() matches SeriesChange::ForgetMerges { target: t } && t@ == target.id@,
        forall|i: int| 0 <= i < new_ids.len() ==> #[trigger] new_ids[i] != target.id@,
        forall|i: int, j: int| 0 <= i < j < new_ids.len() ==> new_ids[i] != new_ids[j],
        forall|b: Seq<char>, i: int, j: int|
            #![trigger s.book_series[b], sources[i], sources[j]]
            s.book_series.dom().contains(b) && 0 <= i < sources.len() && 0 <= j < sources.len() && s.book_series[b]
                == sources[i].id@ ==> (like_matches(folder_pattern(sources[j].path@), s.book_paths[b]) <==> j == i),
        forall|b: Seq<char>, j: int|
            #![trigger s.book_series[b], sources[j]]
            s.book_series.dom().contains(b) && 0 <= j < sources.len() && s.book_series[b] == target.id@
                ==> !like_matches(folder_pattern(sources[j].path@), s.book_paths[b]),
    ensures
        ({
            let after = apply_changes(apply_changes(s, merge_changes), unmerge_changes);
            &&& after.book_series.dom() == s.book_series.dom()
            &&& forall|b: Seq<char>, i: int|
                #![trigger after.book_series[b], sources[i]]
                s.book_series.dom().contains(b) && 0 <= i < sources.len() && s.book_series[b] == sources[i].id@
                    ==> after.book_series[b] == new_ids[i]
            &&& forall|b: Seq<char>|
                #![trigger after.book_series[b]]
                s.book_series.dom().contains(b) && (forall|i: int| 0 <= i < sources.len() ==> s.book_series[b]
                    != (#[trigger] sources[i]).id@) ==> after.book_series[b] == s.book_series[b]
            &&& forall|i: int| 0 <= i < sources.len() ==> after.series.dom().contains(#[trigger] new_ids[i])
                && after.series[new_ids[i]] == (SeriesRow {
                name: sources[i].name@,
                path: sources[i].path@,
                library_id: library_view(target.library_id),
            })
        }),
{
    let n = sources.len() as int;
    law_merge_moves_source_books(s, target, sources, merge_changes, n);
    assert(merge_changes.take(4 * n) =~= merge_changes);
    let s1 = apply_changes(s, merge_changes);
    law_unmerge_restores_folders(s1, target, merges, new_ids, unmerge_changes);
    let after = apply_changes(s1, unmerge_changes);
    assert forall|b: Seq<char>, i: int|
        #![trigger after.book_series[b], sources[i]]
        s.book_series.dom().contains(b) && 0 <= i < sources.len() && s.book_series[b] == sources[i].id@
            implies after.book_series[b] == new_ids[i] by {
        assert(s1.book_series.dom().contains(b));
        assert(s1.book_series[b] == target.id@);
        assert forall|j: int| 0 <= j < i implies !like_matches(
            folder_pattern((#[trigger] merges[j]).source_path@),
            s1.book_paths[b],
        ) by {
            assert(merges[j].source_path@ == sources[j].path@);
            assert(s.book_series[b] == sources[i].id@ && 0 <= j < sources.len());
        }
        assert(merges[i].source_path@ == sources[i].path@);
        assert(like_matches(folder_pattern(sources[i].path@), s.book_paths[b]));
        lemma_first_restored_is(merges, s1.book_paths[b], i, n);
    }
    assert forall|b: Seq<char>|
        #![trigger after.book_series[b]]
        s.book_series.dom().contains(b) && (forall|i: int| 0 <= i < sources.len() ==> s.book_series[b]
            != (#[trigger] sources[i]).id@) implies after.book_series[b] == s.book_series[b] by {
        assert(s1.book_series.dom().contains(b));
        assert(s1.book_series[b] == s.book_series[b]);
        if s.book_series[b] == target.id@ {
            assert forall|j: int| 0 <= j < n implies !like_matches(
                folder_pattern((#[trigger] merges[j]).source_path@),
                s1.book_paths[b],
            ) by {
                assert(merges[j].source_path@ == sources[j].path@);
                assert(s.book_series[b] == target.id@ && 0 <= j < sources.len());
            }
            lemma_first_restored_none(merges, s1.book_paths[b], n);
        }
    }
    assert forall|i: int| 0 <= i < sources.len() implies after.series.dom().contains(#[trigger] new_ids[i])
        && after.series[new_ids[i]] == (SeriesRow {
        name: sources[i].name@,
        path: sources[i].path@,
        library_id: library_view(target.library_id),
    }) by {
        assert(merges[i].source_path@ == sources[i].path@);
    }
}

/// A reading session removed when a series is marked read; what a finished
/// record keeps of it.
#[derive(Debug, Clone)]
pub struct PriorSession<T> {
    pub media_id: String,
    pub started_at: T,
    pub elapsed_seconds: Option<i64>,
    pub device_id: Option<String>,
}

/// A finished-reading record written when a series is marked read.
#[derive(Debug)]
pub struct CompletionRecord<T> {
    pub user_id: String,
    pub media_id: String,
    pub started_at: T,
    pub completed_at: T,
    pub elapsed_seconds: Option<i64>,
    pub device_id: Option<String>,
}

/// The index of the last removed session of a book, if any: when a book had
/// several, the last one counts.
pub open spec fn last_prior<T>(prior: Seq<PriorSession<T>>, media_id: Seq<char>) -> Option<int>
    decreases prior.len(),
{
    if prior.len() == 0 {
        None
    } else if prior.last().media_id@ == media_id {
        Some(prior.len() - 1)
    } else {
        last_prior(prior.drop_last(), media_id)
    }
}

proof fn lemma_last_prior_bounds<T>(prior: Seq<PriorSession<T>>, media_id: Seq<char>)
    ensures
        last_prior(prior, media_id) matches Some(k) ==> 0 <= k < prior.len() && prior[k].media_id@ == media_id,
    decreases prior.len(),
{
    if prior.len() > 0 && prior.last().media_id@ != media_id {
        lemma_last_prior_bounds(prior.drop_last(), media_id);
    }
}

/// The record that marks `media_id` read at `now` for `user_id`: it keeps
/// the start, reading time and device of the book's last removed session,
/// and starts at `now` when there was none.
pub open spec fn completion_record_holds<T>(
    record: CompletionRecord<T>,
    user_id: Seq<char>,
    media_id: Seq<char>,
    prior: Seq<PriorSession<T>>,
    now: T,
) -> bool {
    &&& record.user_id@ == user_id
    &&& record.media_id@ == media_id
    &&& record.completed_at == now
    &&& match last_prior(prior, media_id) {
        Some(k) => {
            &&& record.started_at == prior[k].started_at
            &&& record.elapsed_seconds == prior[k].elapsed_seconds
            &&& match (record.device_id, prior[k].device_id) {
                (Some(a), Some(b)) => a@ == b@,
                (None, None) => true,
                _ => false,
            }
        },
        None => {
            &&& record.started_at == now
            &&& record.elapsed_seconds is None
            &&& record.device_id is None
        },
    }
}

fn find_last_prior<T>(prior: &Vec<PriorSession<T>>, media_id: &String) -> (r: Option<usize>)
    ensures
        r matches Some(k) ==> last_prior(prior@, media_id@) == Some(k as int),
        r is None <==> last_prior(prior@, media_id@) is None,
{
    let mut i: usize = prior.len();
    assert(prior@.subrange(0, i as int) =~= prior@);
    while i > 0
        invariant
            i <= prior@.len(),
            last_prior(prior@, media_id@) == last_prior(prior@.subrange(0, i as int), media_id@),
        decreases i,
    {
        let ghost sub = prior@.subrange(0, i as int);
        if prior[i - 1].media_id == *media_id {
            assert(sub.last() == prior@[i - 1]);
            return Some(i - 1);
        }
        assert(sub.drop_last() =~= prior@.subrange(0, i - 1));
        i = i - 1;
    }
    assert(prior@.subrange(0, 0) =~= Seq::<PriorSession<T>>::empty());
    None
}

/// The finished-reading records that mark the unfinished books of a series
/// read at `now`, one per book and in order.
pub fn plan_series_completion<T: Copy>(
    user_id: &str,
    unfinished: &Vec<String>,
    prior: &Vec<PriorSession<T>>,
    now: T,
) -> (r: Vec<CompletionRecord<T>>)
    ensures
        r@.len() == unfinished@.len(),
        forall|i: int| 0 <= i < unfinished@.len() ==> completion_record_holds(#[trigger] r@[i], user_id@, unfinished@[i]@, prior@, now),
{
    let mut records: Vec<CompletionRecord<T>> = Vec::new();
    let mut i: usize = 0;
    while i < unfinished.len()
        invariant
            i <= unfinished@.len(),
            records@.len() == i,
            forall|j: int| 0 <= j < i ==> completion_record_holds(#[trigger] records@[j], user_id@, unfinished@[j]@, prior@, now),
        decreases unfinished@.len() - i,
    {
        let media_id = &unfinished[i];
        proof {
            lemma_last_prior_bounds(prior@, media_id@);
        }
        let record = match find_last_prior(prior, media_id) {
            Some(k) => {
                let session = &prior[k];
                let device_id = match &session.device_id {
                    Some(d) => Some(d.clone()),
                    None => None,
                };
                let rec = CompletionRecord {
                    user_id: String::from_str(user_id),
                    media_id: media_id.clone(),
                    started_at: session.started_at,
                    completed_at: now,
                    elapsed_seconds: session.elapsed_seconds,
                    device_id,
                };
                rec
            },
            None => CompletionRecord {
                user_id: String::from_str(user_id),
                media_id: media_id.clone(),
                started_at: now,
                completed_at: now,
                elapsed_seconds: None,
                device_id: None,
            },
        };
        assert(completion_record_holds(record, user_id@, unfinished@[i as int]@, prior@, now));
        let ghost before = records@;
        records.push(record);
        assert forall|j: int| 0 <= j < i + 1 implies completion_record_holds(#[trigger] records@[j], user_id@, unfinished@[j]@, prior@, now) by {
            if j < i {
                assert(records@[j] == before[j]);
            }
        }
        i = i + 1;
    }
    records
}

/// The error message of a thumbnail taken past the first page of an epub.
pub open spec fn epub_chapter_thumbnail_message() -> Seq<char> {
    "Cannot set thumbnail from EPUB chapter"@
}

/// Check the page a series thumbnail is taken from: an epub (by its stored,
/// case-sensitive extension) only offers its first page.
pub fn check_thumbnail_page(extension: &str, page: i32) -> (r: Result<(), String>)
    ensures
        (extension@ == "epub"@ && page > 1) ==> r is Err && r->Err_0@ == epub_chapter_thumbnail_message(),
        !(extension@ == "epub"@ && page > 1) ==> r is Ok,
{
    if String::from_str(extension) == String::from_str("epub") && page > 1 {
        return Err(String::from_str("Cannot set thumbnail from EPUB chapter"));
    }
    Ok(())
}

} // verus!
