//! The metadata writeback job and the dispatch of metadata writes by file
//! type: which books are written, what a written book's stored file state
//! becomes, and how the job counts its outcomes.
use crate::list::ActiveValue;
use crate::opf::{BookMetadata, FileError, OpfWriteback, strings_view};
use crate::text::{ascii_lowercase, is_ascii_text, to_lowercase, unicode_lowercase};
use vstd::prelude::*;
use vstd::string::*;

verus! {

/// The writeback of a book's stored metadata, if there is anything to write:
/// none when the book has no metadata row or the row yields no value.
pub fn write_back_plan(metadata: Option<&BookMetadata>) -> (r: Option<OpfWriteback>)
    ensures
        match metadata {
            None => r is None,
            Some(m) => match r {
                Some(w) => OpfWriteback::from_metadata_spec(*m, w) && !w.is_empty_spec(),
                None => forall|w: OpfWriteback| #[trigger] OpfWriteback::from_metadata_spec(*m, w) ==> w.is_empty_spec(),
            },
        },
{
    match metadata {
        None => None,
        Some(m) => {
            let writeback = OpfWriteback::from_metadata(m);
            if writeback.is_empty() {
                proof {
                    assert forall|w: OpfWriteback| #[trigger] OpfWriteback::from_metadata_spec(*m, w) implies w.is_empty_spec() by {
                        assert(strings_view(w.creators@).len() == w.creators@.len());
                        assert(strings_view(writeback.creators@).len() == writeback.creators@.len());
                        assert(strings_view(w.subjects@).len() == w.subjects@.len());
                        assert(strings_view(writeback.subjects@).len() == writeback.subjects@.len());
                    }
                }
                None
            } else {
                Some(writeback)
            }
        },
    }
}

/// The stored file state a written book gets: its new size and (when the
/// file system reports it) modification time, and fresh hashes of the kinds
/// the book already had.
#[derive(Debug)]
pub struct FileStateUpdate<T> {
    pub size: ActiveValue<i64>,
    pub modified_at: ActiveValue<Option<T>>,
    pub hash: ActiveValue<Option<String>>,
    pub koreader_hash: ActiveValue<Option<String>>,
}

/// The update of a written book's stored file state: `file_len` and
/// `modified_at` come from the file system, the hashes from hashing the
/// rewritten file with the kinds the book had (`had_hash`,
/// `had_koreader_hash`).
pub fn refresh_file_state<T>(
    had_hash: bool,
    had_koreader_hash: bool,
    file_len: u64,
    modified_at: Option<T>,
    hash: Option<String>,
    koreader_hash: Option<String>,
) -> (r: FileStateUpdate<T>)
    ensures
        r.size == ActiveValue::SetTo(file_len as i64),
        modified_at is Some ==> r.modified_at == ActiveValue::SetTo(modified_at),
        modified_at is None ==> r.modified_at is NotSet,
        had_hash ==> r.hash == ActiveValue::SetTo(hash),
        !had_hash ==> r.hash is NotSet,
        had_koreader_hash ==> r.koreader_hash == ActiveValue::SetTo(koreader_hash),
        !had_koreader_hash ==> r.koreader_hash is NotSet,
{
    let size = ActiveValue::SetTo(file_len as i64);
    let modified = if modified_at.is_some() {
        ActiveValue::SetTo(modified_at)
    } else {
        ActiveValue::NotSet
    };
    let hash = if had_hash {
        ActiveValue::SetTo(hash)
    } else {
        ActiveValue::NotSet
    };
    let koreader_hash = if had_koreader_hash {
        ActiveValue::SetTo(koreader_hash)
    } else {
        ActiveValue::NotSet
    };
    FileStateUpdate { size, modified_at: modified, hash, koreader_hash }
}

/// The counts a writeback job reports.
#[derive(Debug, Clone, Copy, PartialEq, Eq, Structural)]
pub struct MetadataWritebackOutput {
    /// Books whose files were updated
    pub written: u64,
    /// Books skipped (not epub, no metadata, or nothing to write)
    pub skipped: u64,
    /// Books that failed to write (see logs)
    pub failed: u64,
}

/// What happened to one book of a writeback batch.
#[derive(Debug, Clone, Copy, PartialEq, Eq, Structural)]
pub enum WritebackOutcome {
    Written,
    Skipped,
    Failed,
}

impl Default for MetadataWritebackOutput {
    fn default() -> (r: Self)
        ensures
            r.written == 0 && r.skipped == 0 && r.failed == 0,
    {
        MetadataWritebackOutput { written: 0, skipped: 0, failed: 0 }
    }
}

impl MetadataWritebackOutput {
    /// Add the counts of another part of the job.
    pub fn update(&mut self, updated: Self)
        requires
            old(self).written + updated.written <= u64::MAX,
            old(self).skipped + updated.skipped <= u64::MAX,
            old(self).failed + updated.failed <= u64::MAX,
        ensures
            final(self).written == old(self).written + updated.written,
            final(self).skipped == old(self).skipped + updated.skipped,
            final(self).failed == old(self).failed + updated.failed,
    {
        self.written = self.written + updated.written;
        self.skipped = self.skipped + updated.skipped;
        self.failed = self.failed + updated.failed;
    }

    /// Count the outcome of one book.
    pub fn record(&mut self, outcome: WritebackOutcome)
        requires
            outcome == WritebackOutcome::Written ==> old(self).written < u64::MAX,
            outcome == WritebackOutcome::Skipped ==> old(self).skipped < u64::MAX,
            outcome == WritebackOutcome::Failed ==> old(self).failed < u64::MAX,
        ensures
            final(self).written == old(self).written + if outcome == WritebackOutcome::Written {
                1int
            } else {
                0int
            },
            final(self).skipped == old(self).skipped + if outcome == WritebackOutcome::Skipped {
                1int
            } else {
                0int
            },
            final(self).failed == old(self).failed + if outcome == WritebackOutcome::Failed {
                1int
            } else {
                0int
            },
    {
        match outcome {
            WritebackOutcome::Written => self.written = self.written + 1,
            WritebackOutcome::Skipped => self.skipped = self.skipped + 1,
            WritebackOutcome::Failed => self.failed = self.failed + 1,
        }
    }
}

/// The counts of a sequence of outcomes: written, skipped, failed.
pub open spec fn tally(outcomes: Seq<WritebackOutcome>) -> (nat, nat, nat)
    decreases outcomes.len(),
{
    if outcomes.len() == 0 {
        (0, 0, 0)
    } else {
        let t = tally(outcomes.drop_last());
        match outcomes.last() {
            WritebackOutcome::Written => ((t.0 + 1) as nat, t.1, t.2),
            WritebackOutcome::Skipped => (t.0, (t.1 + 1) as nat, t.2),
            WritebackOutcome::Failed => (t.0, t.1, (t.2 + 1) as nat),
        }
    }
}

/// Count the outcomes of a batch of books, one by one.
pub fn tally_outcomes(outcomes: &Vec<WritebackOutcome>) -> (r: MetadataWritebackOutput)
    ensures
        r.written == tally(outcomes@).0,
        r.skipped == tally(outcomes@).1,
        r.failed == tally(outcomes@).2,
{
    let mut output = MetadataWritebackOutput::default();
    let mut i: usize = 0;
    assert(outcomes@.subrange(0, 0) =~= Seq::<WritebackOutcome>::empty());
    while i < outcomes.len()
        invariant
            i <= outcomes@.len(),
            output.written == tally(outcomes@.subrange(0, i as int)).0,
            output.skipped == tally(outcomes@.subrange(0, i as int)).1,
            output.failed == tally(outcomes@.subrange(0, i as int)).2,
        decreases outcomes@.len() - i,
    {
        proof {
            law_tally_counts_every_book(outcomes@.subrange(0, i as int));
        }
        output.record(outcomes[i]);
        assert(outcomes@.subrange(0, i + 1).drop_last() =~= outcomes@.subrange(0, i as int));
        i = i + 1;
    }
    assert(outcomes@.subrange(0, outcomes@.len() as int) =~= outcomes@);
    output
}

/// Every book of a batch is counted exactly once.
pub proof fn law_tally_counts_every_book(outcomes: Seq<WritebackOutcome>)
    ensures
        tally(outcomes).0 + tally(outcomes).1 + tally(outcomes).2 == outcomes.len(),
    decreases outcomes.len(),
{
    if outcomes.len() > 0 {
        law_tally_counts_every_book(outcomes.drop_last());
    }
}

/// Counting two batches apart and adding the counts (as `update` does) gives
/// the counts of both batches together: the job's totals do not depend on
/// how its books are batched.
pub proof fn law_tally_of_batches_adds_up(a: Seq<WritebackOutcome>, b: Seq<WritebackOutcome>)
    ensures
        tally(a + b).0 == tally(a).0 + tally(b).0,
        tally(a + b).1 == tally(a).1 + tally(b).1,
        tally(a + b).2 == tally(a).2 + tally(b).2,
    decreases b.len(),
{
    if b.len() == 0 {
        assert(a + b =~= a);
    } else {
        assert((a + b).drop_last() =~= a + b.drop_last());
        law_tally_of_batches_adds_up(a, b.drop_last());
    }
}

/// The text of a boolean as Rust formats it.
pub open spec fn bool_text(b: bool) -> Seq<char> {
    if b {
        "true"@
    } else {
        "false"@
    }
}

/// The description of a writeback job.
pub open spec fn writeback_description_spec(library_id: Seq<char>, backup: bool) -> Seq<char> {
    "Write metadata into epub files, library "@ + library_id + ", backup: "@ + bool_text(backup)
}

/// Describe a writeback job over the library `library_id`.
pub fn writeback_description(library_id: &str, backup: bool) -> (r: String)
    ensures
        r@ == writeback_description_spec(library_id@, backup),
{
    let mut text = String::from_str("Write metadata into epub files, library ");
    text.append(library_id);
    text.append(", backup: ");
    if backup {
        text.append("true");
    } else {
        text.append("false");
    }
    text
}

/// The log message of a book whose write failed with `error`.
pub fn write_failure_message(error: &str) -> (r: String)
    ensures
        r@ == "Failed to write metadata: "@ + error@,
{
    let mut text = String::from_str("Failed to write metadata: ");
    text.append(error);
    text
}

/// The message refusing a metadata write into a file of an unsupported type.
pub open spec fn unsupported_extension_message(ext: Seq<char>) -> Seq<char> {
    "File with extension "@ + ext + " is not supported for this operation"@
}

/// Whether metadata can be written into a file with this extension: epub,
/// zip and cbz archives are, ignoring case.
pub open spec fn writable_extension(ext: Seq<char>) -> bool {
    let lower = unicode_lowercase(ext);
    lower == "epub"@ || lower == "zip"@ || lower == "cbz"@
}

/// Decide whether a metadata write into a book with this extension goes into
/// its archive; any other type is refused, naming the lowercased extension.
pub fn write_metadata_blocking(extension: &str) -> (r: Result<(), FileError>)
    ensures
        writable_extension(extension@) ==> r is Ok,
        !writable_extension(extension@) ==> (r matches Err(FileError::UnsupportedFileType(m)) && m@
            == unsupported_extension_message(unicode_lowercase(extension@))),
        is_ascii_text(extension@) ==> (r is Ok <==> (ascii_lowercase(extension@) == "epub"@ || ascii_lowercase(
            extension@,
        ) == "zip"@ || ascii_lowercase(extension@) == "cbz"@)),
        is_ascii_text(extension@) && r is Err ==> (r matches Err(FileError::UnsupportedFileType(m)) && m@
            == unsupported_extension_message(ascii_lowercase(extension@))),
{
    let lower = to_lowercase(extension);
    if lower == String::from_str("epub") || lower == String::from_str("zip") || lower
        == String::from_str("cbz") {
        Ok(())
    } else {
        let mut message = String::from_str("File with extension ");
        message.append(lower.as_str());
        message.append(" is not supported for this operation");
        Err(FileError::UnsupportedFileType(message))
    }
}

/// The archive entry metadata is written to in a zip book: the entry the
/// archive already keeps its metadata in, else `ComicInfo.xml`. Books whose
/// extension is exactly `epub` have no such entry yet and are left out.
pub fn metadata_entry_path(extension: &str, existing: Option<String>) -> (r: String)
    requires
        extension@ != "epub"@,
    ensures
        match existing {
            Some(p) => r@ == p@,
            None => r@ == "ComicInfo.xml"@,
        },
{
    match existing {
        Some(p) => p,
        None => String::from_str("ComicInfo.xml"),
    }
}

/// The name of the temporary file an epub is rebuilt into, next to it.
pub fn rebuild_temp_name(file_name: &str) -> (r: String)
    ensures
        r@ == "."@ + file_name@ + ".stump-tmp"@,
{
    let mut name = String::from_str(".");
    name.append(file_name);
    name.append(".stump-tmp");
    name
}

/// The path the original of a rewritten epub is kept at when a backup is
/// asked for.
pub fn backup_path(path: &str) -> (r: String)
    ensures
        r@ == path@ + ".bak"@,
{
    let mut backup = String::from_str(path);
    backup.append(".bak");
    backup
}


/// The result of writing one book of a batch: the book's path and what the
/// write gave (`Ok(true)` written, `Ok(false)` skipped, or the error's text).
pub struct BookWriteResult {
    pub path: String,
    pub result: Result<bool, String>,
}

/// An error line of a job's log, about the file `context`.
#[derive(Debug)]
pub struct JobErrorLog {
    pub message: String,
    pub context: String,
}

/// What one batch of the writeback job gives back: its counts, its log, and
/// the batches it spawns.
#[derive(Debug)]
pub struct WritebackTaskOutput {
    pub output: MetadataWritebackOutput,
    pub logs: Vec<JobErrorLog>,
    pub subtasks: Vec<Vec<String>>,
}

/// What the write of one book came to.
pub open spec fn outcome_of(result: Result<bool, String>) -> WritebackOutcome {
    match result {
        Ok(true) => WritebackOutcome::Written,
        Ok(false) => WritebackOutcome::Skipped,
        Err(_) => WritebackOutcome::Failed,
    }
}

/// What the writes of a batch came to, book by book.
pub open spec fn outcomes_of(results: Seq<BookWriteResult>) -> Seq<WritebackOutcome> {
    results.map_values(|b: BookWriteResult| outcome_of(b.result))
}

/// The log of a batch: for each failed book, in order, the message of its
/// error and its path.
pub open spec fn failure_logs(results: Seq<BookWriteResult>) -> Seq<(Seq<char>, Seq<char>)>
    decreases results.len(),
{
    if results.len() == 0 {
        seq![]
    } else {
        failure_logs(results.drop_last()) + match results.last().result {
            Err(e) => seq![("Failed to write metadata: "@ + e@, results.last().path@)],
            Ok(_) => seq![],
        }
    }
}

/// The log lines as text: message and file.
pub open spec fn logs_view(logs: Seq<JobErrorLog>) -> Seq<(Seq<char>, Seq<char>)> {
    logs.map_values(|l: JobErrorLog| (l.message@, l.context@))
}

/// What one batch of the writeback job reports, from the results of writing
/// its books: the counts of written, skipped and failed books, one error log
/// per failed book (its error and its path), and no further batches.
pub fn writeback_task_output(results: &Vec<BookWriteResult>) -> (r: WritebackTaskOutput)
    ensures
        r.output.written == tally(outcomes_of(results@)).0,
        r.output.skipped == tally(outcomes_of(results@)).1,
        r.output.failed == tally(outcomes_of(results@)).2,
        logs_view(r.logs@) == failure_logs(results@),
        r.subtasks@.len() == 0,
{
    let mut outcomes: Vec<WritebackOutcome> = Vec::new();
    let mut logs: Vec<JobErrorLog> = Vec::new();
    let mut i: usize = 0;
    assert(results@.subrange(0, 0) =~= Seq::<BookWriteResult>::empty());
    while i < results.len()
        invariant
            i <= results@.len(),
            outcomes@ == outcomes_of(results@.subrange(0, i as int)),
            logs_view(logs@) == failure_logs(results@.subrange(0, i as int)),
        decreases results@.len() - i,
    {
        let book = &results[i];
        let ghost prefix = results@.subrange(0, i + 1);
        let ghost before = logs@;
        assert(prefix.drop_last() =~= results@.subrange(0, i as int));
        assert(prefix.last() == *book);
        match &book.result {
            Ok(true) => outcomes.push(WritebackOutcome::Written),
            Ok(false) => outcomes.push(WritebackOutcome::Skipped),
            Err(e) => {
                outcomes.push(WritebackOutcome::Failed);
                logs.push(JobErrorLog { message: write_failure_message(e.as_str()), context: book.path.clone() });
            },
        }
        assert(outcomes@ =~= outcomes_of(prefix));
        assert(logs_view(logs@) =~= failure_logs(prefix));
        i = i + 1;
    }
    assert(results@.subrange(0, results@.len() as int) =~= results@);
    WritebackTaskOutput { output: tally_outcomes(&outcomes), logs, subtasks: Vec::new() }
}

/// A batch logs exactly one error per failed book.
pub proof fn law_one_log_per_failed_book(results: Seq<BookWriteResult>)
    ensures
        failure_logs(results).len() == tally(outcomes_of(results)).2,
    decreases results.len(),
{
    if results.len() > 0 {
        law_one_log_per_failed_book(results.drop_last());
        assert(outcomes_of(results).drop_last() =~= outcomes_of(results.drop_last()));
        assert(outcomes_of(results).last() == outcome_of(results.last().result));
    }
}

} // verus!
