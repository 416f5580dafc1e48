//! An in-memory picture of the files the library reads and writes.

use vstd::prelude::*;

verus! {

/// One file: its path and what it holds.
#[derive(Debug, PartialEq, Eq)]
pub struct StoredFile {
    pub path: String,
    pub data: Vec<u8>,
}

/// What a `StoredFile` holds.
pub struct FileView {
    pub path: Seq<char>,
    pub data: Seq<u8>,
}

impl View for StoredFile {
    type V = FileView;

    open spec fn view(&self) -> FileView {
        FileView { path: self.path@, data: self.data@ }
    }
}

/// What a list of files holds.
pub open spec fn file_views(files: Seq<StoredFile>) -> Seq<FileView> {
    files.map_values(|f: StoredFile| f@)
}

/// The map that `files` becomes when `writes` are made, first to last.
pub open spec fn written(files: Map<Seq<char>, Seq<u8>>, writes: Seq<FileView>) -> Map<
    Seq<char>,
    Seq<u8>,
>
    decreases writes.len(),
{
    if writes.len() == 0 {
        files
    } else {
        written(files, writes.drop_last()).insert(writes.last().path, writes.last().data)
    }
}

/// The files that are present, each with its contents.
///
/// The store is a map from paths to contents; writing to a path that is
/// already present replaces what was there.
#[derive(Debug)]
pub struct FileStore {
    files: Vec<StoredFile>,
}

/// The map that a list of writes, applied first to last, leaves behind.
spec fn contents(files: Seq<StoredFile>) -> Map<Seq<char>, Seq<u8>>
    decreases files.len(),
{
    if files.len() == 0 {
        Map::empty()
    } else {
        contents(files.drop_last()).insert(files.last().path@, files.last().data@)
    }
}

/// A path that none of the files from `from` on has is looked up among the
/// files before `from`.
proof fn lemma_contents_prefix(files: Seq<StoredFile>, from: int, path: Seq<char>)
    requires
        0 <= from <= files.len(),
        forall|j: int| from <= j < files.len() ==> files[j].path@ != path,
    ensures
        contents(files).contains_key(path) == contents(files.take(from)).contains_key(path),
        contents(files).contains_key(path) ==> contents(files)[path] == contents(
            files.take(from),
        )[path],
    decreases files.len() - from,
{
    if from == files.len() {
        assert(files.take(from) =~= files);
    } else {
        let shorter = files.drop_last();
        assert(shorter.take(from) =~= files.take(from));
        lemma_contents_prefix(shorter, from, path);
    }
}

impl View for FileStore {
    type V = Map<Seq<char>, Seq<u8>>;

    closed spec fn view(&self) -> Map<Seq<char>, Seq<u8>> {
        contents(self.files@)
    }
}

impl FileStore {
    /// A store with no files.
    pub fn new() -> (store: FileStore)
        ensures
            store@ == Map::<Seq<char>, Seq<u8>>::empty(),
    {
        FileStore { files: Vec::new() }
    }

    /// The index of the file that decides what `path` holds, if any does.
    fn position(&self, path: &str) -> (found: Option<usize>)
        ensures
            found is Some <==> self@.contains_key(path@),
            found matches Some(i) ==> i < self.files.len() && self.files[i as int].data@
                == self@[path@],
    {
        let wanted = path.to_owned();
        let mut i: usize = self.files.len();
        while i > 0
            invariant
                i <= self.files.len(),
                wanted@ == path@,
                forall|j: int| i <= j < self.files.len() ==> self.files[j].path@ != path@,
            decreases i,
        {
            if self.files[i - 1].path == wanted {
                proof {
                    lemma_contents_prefix(self.files@, i as int, path@);
                    assert(self.files@.take(i as int).drop_last() =~= self.files@.take(i - 1));
                }
                return Some(i - 1);
            }
            i = i - 1;
        }
        proof {
            lemma_contents_prefix(self.files@, 0, path@);
        }
        None
    }

    /// Whether a file is present at `path`.
    pub fn contains(&self, path: &str) -> (present: bool)
        ensures
            present == self@.contains_key(path@),
    {
        self.position(path).is_some()
    }

    /// The contents of the file at `path`, if one is present.
    pub fn read(&self, path: &str) -> (data: Option<Vec<u8>>)
        ensures
            data is Some <==> self@.contains_key(path@),
            data matches Some(bytes) ==> bytes@ == self@[path@],
    {
        match self.position(path) {
            Some(i) => Some(copy_bytes(&self.files[i].data)),
            None => None,
        }
    }

    /// Puts `data` at `path`, replacing what the path held before.
    pub fn write(&mut self, path: String, data: Vec<u8>)
        ensures
            final(self)@ == old(self)@.insert(path@, data@),
    {
        proof {
            let file = StoredFile { path, data };
            assert(self.files@.push(file).drop_last() =~= self.files@);
        }
        self.files.push(StoredFile { path, data });
    }

    /// The paths of the files that are present, each once.
    pub fn paths(&self) -> (paths: Vec<String>)
        ensures
            forall|path: Seq<char>| self@.contains_key(path) <==> path_views(paths@).contains(path),
            path_views(paths@).no_duplicates(),
    {
        let mut paths: Vec<String> = Vec::new();
        let mut i: usize = 0;
        while i < self.files.len()
            invariant
                i <= self.files.len(),
                forall|path: Seq<char>|
                    contents(self.files@.take(i as int)).contains_key(path) <==> path_views(
                        paths@,
                    ).contains(path),
                path_views(paths@).no_duplicates(),
            decreases self.files.len() - i,
        {
            let ghost before = path_views(paths@);
            let ghost upto = self.files@.take(i as int);
            let ghost next = self.files@.take(i + 1);
            let path = &self.files[i].path;
            proof {
                assert(next.drop_last() =~= upto);
                assert(next.last() == self.files@[i as int]);
            }
            if !holds_path(&paths, path) {
                let copy = path.clone();
                proof {
                    assert(path_views(paths@.push(copy)) =~= before.push(path@));
                }
                paths.push(copy);
                proof {
                    let after = path_views(paths@);
                    assert forall|p: Seq<char>| contents(next).contains_key(p) <==> after.contains(
                        p,
                    ) by {
                        assert(after[before.len() as int] == path@);
                        if before.contains(p) {
                            let k = choose|k: int| 0 <= k < before.len() && before[k] == p;
                            assert(after[k] == p);
                        }
                        if after.contains(p) {
                            let k = choose|k: int| 0 <= k < after.len() && after[k] == p;
                            if k < before.len() {
                                assert(before[k] == p);
                            }
                        }
                    }
                }
            }
            i = i + 1;
        }
        proof {
            assert(self.files@.take(i as int) =~= self.files@);
        }
        paths
    }

    /// Makes every write of `writes`, first to last.
    pub fn write_all(&mut self, writes: &Vec<StoredFile>)
        ensures
            final(self)@ == written(old(self)@, file_views(writes@)),
    {
        let ghost all = file_views(writes@);
        let mut i: usize = 0;
        while i < writes.len()
            invariant
                i <= writes.len(),
                all == file_views(writes@),
                self@ == written(old(self)@, all.take(i as int)),
            decreases writes.len() - i,
        {
            proof {
                assert(all.take(i + 1).drop_last() =~= all.take(i as int));
                assert(all.take(i + 1).last() == writes@[i as int]@);
            }
            self.write(writes[i].path.clone(), copy_bytes(&writes[i].data));
            i = i + 1;
        }
        proof {
            assert(all.take(i as int) =~= all);
        }
    }
}

/// What a list of paths holds.
pub open spec fn path_views(paths: Seq<String>) -> Seq<Seq<char>> {
    paths.map_values(|p: String| p@)
}

/// Whether `path` is one of `paths`.
fn holds_path(paths: &Vec<String>, path: &String) -> (held: bool)
    ensures
        held == path_views(paths@).contains(path@),
{
    let mut i: usize = 0;
    while i < paths.len()
        invariant
            i <= paths.len(),
            forall|j: int| 0 <= j < i ==> path_views(paths@)[j] != path@,
        decreases paths.len() - i,
    {
        if paths[i] == *path {
            assert(path_views(paths@)[i as int] == path@);
            return true;
        }
        i = i + 1;
    }
    false
}

/// Whether two byte strings are the same.
pub fn same_bytes(first: &Vec<u8>, second: &Vec<u8>) -> (same: bool)
    ensures
        same == (first@ == second@),
{
    if first.len() != second.len() {
        return false;
    }
    let mut i: usize = 0;
    while i < first.len()
        invariant
            i <= first.len(),
            first.len() == second.len(),
            forall|j: int| 0 <= j < i ==> first@[j] == second@[j],
        decreases first.len() - i,
    {
        if first[i] != second[i] {
            return false;
        }
        i = i + 1;
    }
    assert(first@ =~= second@);
    true
}

/// A copy of a byte string.
pub fn copy_bytes(data: &Vec<u8>) -> (copy: Vec<u8>)
    ensures
        copy@ == data@,
{
    let mut copy: Vec<u8> = Vec::new();
    let mut i: usize = 0;
    while i < data.len()
        invariant
            i <= data.len(),
            copy@ == data@.take(i as int),
        decreases data.len() - i,
    {
        copy.push(data[i]);
        proof {
            assert(data@.take(i + 1) =~= data@.take(i as int).push(data@[i as int]));
        }
        i = i + 1;
    }
    proof {
        assert(data@.take(data.len() as int) =~= data@);
    }
    copy
}

} // verus!
