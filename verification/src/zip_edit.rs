//! Replacing files of a zip archive (a comic's `ComicInfo.xml`, say): every
//! other entry is copied over as it is, and the replaced files are written
//! anew with the options their old entries had. The edit is planned here as
//! a list of operations on the archive being written.
use vstd::prelude::*;

verus! {

/// What an archive entry holds.
#[derive(Debug, Clone, Copy, PartialEq, Eq, Structural)]
pub enum EntryKind {
    File,
    Directory,
    Other,
}

/// An entry of the source archive, as the copy reads it.
#[derive(Debug, Clone)]
pub struct ArchiveEntry {
    /// The entry's raw name.
    pub name: String,
    /// The entry's name as a relative path inside the archive, when it is one.
    pub enclosed_name: Option<String>,
    pub kind: EntryKind,
}

/// One operation on the archive being written. Entries are named by their
/// index in the source archive.
#[derive(Debug)]
pub enum ZipOp {
    /// Copy the file entry under its name and with its options.
    CopyFile { index: usize },
    /// Create the directory entry under its name and with its options.
    AddDirectory { index: usize },
    /// Write a new file at `path`, with the options of the source entry
    /// `options_of` (default options when there is none).
    WriteFile { path: String, options_of: Option<usize>, contents: Vec<u8> },
}

/// An operation of an archive edit, as a plain value.
pub ghost enum ZipOpView {
    CopyFile(nat),
    AddDirectory(nat),
    WriteFile(Seq<char>, Option<nat>, Seq<u8>),
}

impl ZipOp {
    pub open spec fn view(&self) -> ZipOpView {
        match self {
            ZipOp::CopyFile { index } => ZipOpView::CopyFile(*index as nat),
            ZipOp::AddDirectory { index } => ZipOpView::AddDirectory(*index as nat),
            ZipOp::WriteFile { path, options_of, contents } => ZipOpView::WriteFile(
                path@,
                match options_of {
                    Some(i) => Some(*i as nat),
                    None => None,
                },
                contents@,
            ),
        }
    }
}

/// The views of a list of strings.
pub open spec fn paths_view(paths: Seq<String>) -> Seq<Seq<char>> {
    paths.map_values(|p: String| p@)
}

/// The files to write, as plain values.
pub open spec fn files_view(files: Seq<(String, Vec<u8>)>) -> Seq<(Seq<char>, Seq<u8>)> {
    files.map_values(|f: (String, Vec<u8>)| (f.0@, f.1@))
}

/// The paths of the files to write.
pub open spec fn file_paths_view(files: Seq<(String, Vec<u8>)>) -> Seq<Seq<char>> {
    files.map_values(|f: (String, Vec<u8>)| f.0@)
}

/// The kept options, as plain values: a path and the source entry whose
/// options it keeps.
pub open spec fn options_view(options: Seq<(String, usize)>) -> Seq<(Seq<char>, nat)> {
    options.map_values(|o: (String, usize)| (o.0@, o.1 as nat))
}

/// Whether a source entry is one of the replaced files.
pub open spec fn is_excluded(entry: ArchiveEntry, exclude: Seq<Seq<char>>) -> bool {
    entry.enclosed_name matches Some(p) && exclude.contains(p@)
}

/// The operations copying the source entries that are not replaced, in
/// archive order: files are copied, directories created, anything else
/// skipped.
pub open spec fn copy_ops_spec(src: Seq<ArchiveEntry>, exclude: Seq<Seq<char>>) -> Seq<ZipOpView>
    decreases src.len(),
{
    if src.len() == 0 {
        Seq::<ZipOpView>::empty()
    } else {
        let before = copy_ops_spec(src.drop_last(), exclude);
        let i = (src.len() - 1) as nat;
        let entry = src.last();
        if is_excluded(entry, exclude) {
            before
        } else {
            match entry.kind {
                EntryKind::File => before.push(ZipOpView::CopyFile(i)),
                EntryKind::Directory => before.push(ZipOpView::AddDirectory(i)),
                EntryKind::Other => before,
            }
        }
    }
}

/// The options kept from the replaced entries: each replaced entry's path
/// with its index, in archive order.
pub open spec fn kept_options_spec(src: Seq<ArchiveEntry>, exclude: Seq<Seq<char>>) -> Seq<
    (Seq<char>, nat),
>
    decreases src.len(),
{
    if src.len() == 0 {
        Seq::<(Seq<char>, nat)>::empty()
    } else {
        let before = kept_options_spec(src.drop_last(), exclude);
        let entry = src.last();
        if is_excluded(entry, exclude) {
            before.push((entry.enclosed_name->Some_0@, (src.len() - 1) as nat))
        } else {
            before
        }
    }
}

/// The entry whose options a path keeps: the last one kept for it.
pub open spec fn last_option(options: Seq<(Seq<char>, nat)>, path: Seq<char>) -> Option<nat>
    decreases options.len(),
{
    if options.len() == 0 {
        None
    } else if options.last().0 == path {
        Some(options.last().1)
    } else {
        last_option(options.drop_last(), path)
    }
}

/// The operations writing the files, in order, each with the options kept
/// for its path.
pub open spec fn write_ops_spec(files: Seq<(Seq<char>, Seq<u8>)>, options: Seq<(Seq<char>, nat)>) -> Seq<ZipOpView> {
    files.map_values(|f: (Seq<char>, Seq<u8>)| ZipOpView::WriteFile(f.0, last_option(options, f.0), f.1))
}

/// Whether no two files share a path.
pub open spec fn distinct_paths(files: Seq<(String, Vec<u8>)>) -> bool {
    forall|i: int, j: int| 0 <= i < j < files.len() ==> files[i].0@ != files[j].0@
}

/// A replaced entry is never copied: every copy of the plan names an entry
/// of the source that is not among the replaced files.
pub proof fn law_replaced_entries_are_not_copied(src: Seq<ArchiveEntry>, exclude: Seq<Seq<char>>)
    ensures
        forall|k: int| 0 <= k < copy_ops_spec(src, exclude).len() ==> match #[trigger] copy_ops_spec(src, exclude)[k] {
            ZipOpView::CopyFile(i) => i < src.len() && !is_excluded(src[i as int], exclude) && src[i as int].kind == EntryKind::File,
            ZipOpView::AddDirectory(i) => i < src.len() && !is_excluded(src[i as int], exclude) && src[i as int].kind == EntryKind::Directory,
            ZipOpView::WriteFile(..) => false,
        },
    decreases src.len(),
{
    if src.len() > 0 {
        let prefix = src.drop_last();
        law_replaced_entries_are_not_copied(prefix, exclude);
        assert forall|k: int| 0 <= k < copy_ops_spec(src, exclude).len() implies match #[trigger] copy_ops_spec(src, exclude)[k] {
            ZipOpView::CopyFile(i) => i < src.len() && !is_excluded(src[i as int], exclude) && src[i as int].kind == EntryKind::File,
            ZipOpView::AddDirectory(i) => i < src.len() && !is_excluded(src[i as int], exclude) && src[i as int].kind == EntryKind::Directory,
            ZipOpView::WriteFile(..) => false,
        } by {
            let before = copy_ops_spec(prefix, exclude);
            if k < before.len() {
                assert(copy_ops_spec(src, exclude)[k] == before[k]);
                match before[k] {
                    ZipOpView::CopyFile(i) => {
                        assert(src[i as int] == prefix[i as int]);
                    },
                    ZipOpView::AddDirectory(i) => {
                        assert(src[i as int] == prefix[i as int]);
                    },
                    ZipOpView::WriteFile(..) => {},
                }
            }
        }
    }
}

/// Replacing files of an archive.
pub trait UpdateMetadata {
    /// The operations performed on the archive being written so far.
    spec fn operations(&self) -> Seq<ZipOpView>;

    /// Copy the entries of `src` into the archive being written, except those
    /// whose path is listed in `exclude`; return the options of the excluded
    /// entries, keyed by path.
    fn copy_partial(&mut self, src: &Vec<ArchiveEntry>, exclude: &Vec<String>) -> (r: Vec<(String, usize)>)
        ensures
            final(self).operations() == old(self).operations() + copy_ops_spec(src@, paths_view(exclude@)),
            options_view(r@) == kept_options_spec(src@, paths_view(exclude@)),
    ;

    /// Write the given files, each with the options kept for its path, if
    /// any.
    fn add_files(&mut self, files: Vec<(String, Vec<u8>)>, options: Vec<(String, usize)>)
        requires
            distinct_paths(files@),
        ensures
            final(self).operations() == old(self).operations() + write_ops_spec(files_view(files@), options_view(options@)),
    ;

    /// Replace the given files of `src`: every other entry is copied over,
    /// then the files are written with the options of the entries they
    /// replace.
    fn replace(&mut self, src: &Vec<ArchiveEntry>, files: Vec<(String, Vec<u8>)>)
        requires
            distinct_paths(files@),
        ensures
            final(self).operations() == old(self).operations() + copy_ops_spec(src@, file_paths_view(files@))
                + write_ops_spec(files_view(files@), kept_options_spec(src@, file_paths_view(files@))),
    {
        let keys = file_paths(&files);
        let options = self.copy_partial(src, &keys);
        self.add_files(files, options);
    }
}

fn file_paths(files: &Vec<(String, Vec<u8>)>) -> (r: Vec<String>)
    ensures
        paths_view(r@) == file_paths_view(files@),
{
    let mut keys: Vec<String> = Vec::new();
    let mut i: usize = 0;
    while i < files.len()
        invariant
            i <= files@.len(),
            paths_view(keys@) == file_paths_view(files@).subrange(0, i as int),
        decreases files@.len() - i,
    {
        let ghost before = keys@;
        keys.push(files[i].0.clone());
        assert(file_paths_view(files@)[i as int] == files@[i as int].0@);
        assert(keys@ == before.push(files@[i as int].0));
        assert(paths_view(keys@) =~= paths_view(before).push(files@[i as int].0@));
        assert(file_paths_view(files@).subrange(0, i + 1) =~= file_paths_view(files@).subrange(0, i as int).push(files@[i as int].0@));
        i = i + 1;
    }
    assert(file_paths_view(files@).subrange(0, files@.len() as int) =~= file_paths_view(files@));
    keys
}

fn is_excluded_exec(entry: &ArchiveEntry, exclude: &Vec<String>) -> (r: bool)
    ensures
        r == is_excluded(*entry, paths_view(exclude@)),
{
    match &entry.enclosed_name {
        None => false,
        Some(p) => {
            let mut i: usize = 0;
            while i < exclude.len()
                invariant
                    i <= exclude@.len(),
                    entry.enclosed_name == Some(*p),
                    forall|j: int| 0 <= j < i ==> exclude@[j]@ != p@,
                decreases exclude@.len() - i,
            {
                if exclude[i] == *p {
                    assert(paths_view(exclude@).len() == exclude@.len());
                    assert(paths_view(exclude@)[i as int] == p@);
                    assert(paths_view(exclude@).contains(p@));
                    return true;
                }
                i = i + 1;
            }
            assert(!paths_view(exclude@).contains(p@));
            false
        },
    }
}

fn find_option(options: &Vec<(String, usize)>, path: &String) -> (r: Option<usize>)
    ensures
        match r {
            Some(i) => last_option(options_view(options@), path@) == Some(i as nat),
            None => last_option(options_view(options@), path@) is None,
        },
{
    let mut k: usize = options.len();
    assert(options_view(options@).subrange(0, k as int) =~= options_view(options@));
    while k > 0
        invariant
            k <= options@.len(),
            last_option(options_view(options@), path@) == last_option(
                options_view(options@).subrange(0, k as int),
                path@,
            ),
        decreases k,
    {
        let ghost sub = options_view(options@).subrange(0, k as int);
        if options[k - 1].0 == *path {
            assert(sub.last() == options_view(options@)[k - 1]);
            return Some(options[k - 1].1);
        }
        assert(sub.drop_last() =~= options_view(options@).subrange(0, k - 1));
        k = k - 1;
    }
    assert(options_view(options@).subrange(0, 0) =~= Seq::<(Seq<char>, nat)>::empty());
    None
}

/// An archive edit being planned: the operations, in order, that write the
/// new archive.
#[derive(Debug)]
pub struct ZipEditPlan {
    pub ops: Vec<ZipOp>,
}

impl ZipEditPlan {
    /// An edit with no operation yet.
    pub fn new() -> (r: ZipEditPlan)
        ensures
            r.operations() == Seq::<ZipOpView>::empty(),
    {
        ZipEditPlan { ops: Vec::new() }
    }
}

impl UpdateMetadata for ZipEditPlan {
    open spec fn operations(&self) -> Seq<ZipOpView> {
        self.ops@.map_values(|o: ZipOp| o.view())
    }

    fn copy_partial(&mut self, src: &Vec<ArchiveEntry>, exclude: &Vec<String>) -> (r: Vec<(String, usize)>) {
        let ghost ex = paths_view(exclude@);
        let ghost start = old(self).operations();
        let mut kept: Vec<(String, usize)> = Vec::new();
        let mut i: usize = 0;
        assert(src@.subrange(0, 0) =~= Seq::<ArchiveEntry>::empty());
        assert(start + copy_ops_spec(src@.subrange(0, 0), ex) =~= start);
        while i < src.len()
            invariant
                i <= src@.len(),
                ex == paths_view(exclude@),
                self.operations() == start + copy_ops_spec(src@.subrange(0, i as int), ex),
                options_view(kept@) == kept_options_spec(src@.subrange(0, i as int), ex),
            decreases src@.len() - i,
        {
            let entry = &src[i];
            let ghost sub = src@.subrange(0, i + 1);
            assert(sub.drop_last() =~= src@.subrange(0, i as int));
            assert(sub.last() == src@[i as int]);
            let ghost ops_before = self.ops@;
            let ghost prev = copy_ops_spec(src@.subrange(0, i as int), ex);
            assert(self.operations() == ops_before.map_values(|o: ZipOp| o.view()));
            if is_excluded_exec(entry, exclude) {
                match &entry.enclosed_name {
                    Some(p) => {
                        kept.push((p.clone(), i));
                        assert(options_view(kept@) =~= kept_options_spec(sub, ex));
                    },
                    None => {},
                }
            } else {
                match entry.kind {
                    EntryKind::File => {
                        self.ops.push(ZipOp::CopyFile { index: i });
                        assert(copy_ops_spec(sub, ex) == prev.push(ZipOpView::CopyFile(i as nat)));
                        assert(self.operations() =~= ops_before.map_values(|o: ZipOp| o.view()).push(
                            ZipOpView::CopyFile(i as nat),
                        ));
                    },
                    EntryKind::Directory => {
                        self.ops.push(ZipOp::AddDirectory { index: i });
                        assert(copy_ops_spec(sub, ex) == prev.push(ZipOpView::AddDirectory(i as nat)));
                        assert(self.operations() =~= ops_before.map_values(|o: ZipOp| o.view()).push(
                            ZipOpView::AddDirectory(i as nat),
                        ));
                    },
                    EntryKind::Other => {},
                }
            }
            assert(self.operations() =~= start + copy_ops_spec(sub, ex));
            i = i + 1;
        }
        assert(src@.subrange(0, src@.len() as int) =~= src@);
        kept
    }

    fn add_files(&mut self, files: Vec<(String, Vec<u8>)>, options: Vec<(String, usize)>) {
        let ghost start = old(self).operations();
        let ghost fv = files_view(files@);
        let ghost ov = options_view(options@);
        let mut i: usize = 0;
        assert(start + write_ops_spec(fv.subrange(0, 0), ov) =~= start);
        while i < files.len()
            invariant
                i <= files@.len(),
                fv == files_view(files@),
                ov == options_view(options@),
                self.operations() == start + write_ops_spec(fv.subrange(0, i as int), ov),
            decreases files@.len() - i,
        {
            let path = files[i].0.clone();
            let contents = files[i].1.clone();
            let options_of = find_option(&options, &path);
            assert(contents@ =~= files@[i as int].1@);
            assert(fv[i as int] == (files@[i as int].0@, files@[i as int].1@));
            let ghost ops_before = self.ops@;
            assert(self.operations() == ops_before.map_values(|o: ZipOp| o.view()));
            let ghost new_op = ZipOpView::WriteFile(path@, last_option(ov, path@), contents@);
            self.ops.push(ZipOp::WriteFile { path, options_of, contents });
            assert(self.operations() =~= ops_before.map_values(|o: ZipOp| o.view()).push(new_op));
            assert(write_ops_spec(fv.subrange(0, i + 1), ov) =~= write_ops_spec(fv.subrange(0, i as int), ov).push(new_op));
            assert(self.operations() =~= start + write_ops_spec(fv.subrange(0, i + 1), ov));
            i = i + 1;
        }
        assert(fv.subrange(0, files@.len() as int) =~= fv);
    }
}

} // verus!
