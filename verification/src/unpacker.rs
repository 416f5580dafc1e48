//! Opening an archive, finding what it would overwrite, and unpacking it.

use vstd::prelude::*;
use vstd::string::StringExecFns;
use crate::bundle::{blob_entry, blob_entry_name, metadata_entry, preset_entry};
use crate::files::{file_views, path_views, written, FileStore, FileView, StoredFile};
use crate::helpers::{
    custom_asset_dir,
    data_local_dir,
    custom_asset_path,
    custom_preset_dir,
    custom_preset_path,
    join,
    joined,
    preset_file,
    preset_file_name,
};
use crate::metadata::{entry_views, EntryView, MetaEntry, MetaView, PackMetaData};
use crate::resolver::{candidates_in, dir_candidates, find_in, present_locally};
use crate::texture::stem_of;

verus! {

/// Why an archive could not be opened or unpacked.
#[derive(Debug, PartialEq, Eq)]
pub enum UnpackError {
    /// The archive lacks the entry `name`: the preset's file, or the
    /// content with this digest.
    AssetNotFound { name: String },
    /// The archive has no index.
    MetadataNotFound,
    /// The index could not be decoded.
    MalformedMetadata,
}

/// Whether a texture with the name and category of `entry` is present
/// among the user's own textures, plain or randomized, under any extension.
pub open spec fn entry_conflicts(
    files: Map<Seq<char>, Seq<u8>>,
    data_local: Seq<char>,
    entry: EntryView,
) -> bool {
    present_locally(
        files,
        joined(custom_asset_path(data_local, false), stem_of(entry.texture_type)),
        joined(custom_asset_path(data_local, true), stem_of(entry.texture_type)),
        entry.name,
    )
}

/// The paths at which the texture of `entry` is looked for among the
/// user's own, in the order in which they are tried.
pub open spec fn local_candidates(data_local: Seq<char>, entry: EntryView) -> Seq<Seq<char>> {
    dir_candidates(
        joined(custom_asset_path(data_local, false), stem_of(entry.texture_type)),
        entry.name,
    ) + dir_candidates(
        joined(custom_asset_path(data_local, true), stem_of(entry.texture_type)),
        entry.name,
    )
}

/// Of `entries`, those that are present locally, in the same order.
pub open spec fn conflicting(
    files: Map<Seq<char>, Seq<u8>>,
    data_local: Seq<char>,
    entries: Seq<EntryView>,
) -> Seq<EntryView>
    decreases entries.len(),
{
    if entries.len() == 0 {
        Seq::empty()
    } else {
        let before = conflicting(files, data_local, entries.drop_last());
        if entry_conflicts(files, data_local, entries.last()) {
            before.push(entries.last())
        } else {
            before
        }
    }
}

/// Where the preset `name` is unpacked to.
pub open spec fn preset_target(data_local: Seq<char>, name: Seq<char>) -> Seq<char> {
    joined(custom_preset_path(data_local), preset_file_name(name))
}

/// Where the texture of `entry` is unpacked to: the user's plain directory
/// of the texture's category, under the texture's name and extension.
pub open spec fn asset_target(data_local: Seq<char>, entry: EntryView) -> Seq<char> {
    joined(
        joined(custom_asset_path(data_local, false), stem_of(entry.texture_type)),
        entry.name + "."@ + entry.extension,
    )
}

/// The write that unpacks the texture of `entry`.
pub open spec fn asset_write(
    archive: Map<Seq<char>, Seq<u8>>,
    data_local: Seq<char>,
    entry: EntryView,
) -> FileView {
    FileView { path: asset_target(data_local, entry), data: archive[blob_entry(entry.hash)] }
}

/// The records of `entries` whose texture is present among the user's own,
/// in the order of `entries`.
pub fn find_conflicts(files: &FileStore, data_local: &str, entries: &Vec<MetaEntry>) -> (conflicts:
    Vec<MetaEntry>)
    ensures
        entry_views(conflicts@) == conflicting(files@, data_local@, entry_views(entries@)),
{
    let ghost all = entry_views(entries@);
    let mut conflicts: Vec<MetaEntry> = Vec::new();
    let mut i: usize = 0;
    assert(entry_views(conflicts@) =~= conflicting(files@, data_local@, all.take(0)));
    while i < entries.len()
        invariant
            i <= entries.len(),
            all == entry_views(entries@),
            entry_views(conflicts@) == conflicting(files@, data_local@, all.take(i as int)),
        decreases entries.len() - i,
    {
        let asset = &entries[i];
        proof {
            assert(all.take(i + 1).drop_last() =~= all.take(i as int));
            assert(all.take(i + 1).last() == asset@);
        }
        if Unpacker::test_file(files, data_local, asset) {
            let ghost before = conflicts@;
            let copy = asset.clone();
            conflicts.push(copy);
            proof {
                assert(entry_views(conflicts@) =~= entry_views(before).push(copy@));
            }
        }
        i = i + 1;
    }
    proof {
        assert(all.take(i as int) =~= all);
    }
    conflicts
}

/// An archive that has been read but not yet opened.
#[derive(Debug)]
pub struct Unpacker {
    archive: FileStore,
    data_local: String,
}

/// What an `Unpacker` holds.
pub struct UnpackerView {
    pub archive: Map<Seq<char>, Seq<u8>>,
    pub data_local: Seq<char>,
}

impl View for Unpacker {
    type V = UnpackerView;

    closed spec fn view(&self) -> UnpackerView {
        UnpackerView { archive: self.archive@, data_local: self.data_local@ }
    }
}

/// An opened archive: its index, and the textures it would overwrite.
#[derive(Debug)]
pub struct PackedFile {
    archive: FileStore,
    data_local: String,
    metadata: PackMetaData,
    conflicts: Vec<MetaEntry>,
}

/// What a `PackedFile` holds.
pub struct PackedView {
    pub archive: Map<Seq<char>, Seq<u8>>,
    pub data_local: Seq<char>,
    pub metadata: MetaView,
    pub conflicts: Seq<EntryView>,
}

impl View for PackedFile {
    type V = PackedView;

    closed spec fn view(&self) -> PackedView {
        PackedView {
            archive: self.archive@,
            data_local: self.data_local@,
            metadata: self.metadata@,
            conflicts: entry_views(self.conflicts@),
        }
    }
}

impl PackedView {
    /// Whether the archive holds the preset's file and the content of every
    /// texture in its index.
    pub open spec fn complete(self) -> bool {
        &&& self.archive.contains_key(preset_entry())
        &&& forall|i: int|
            0 <= i < self.metadata.assets.len() ==> self.archive.contains_key(
                blob_entry(#[trigger] self.metadata.assets[i].hash),
            )
    }

    /// Whether `name` is the first entry that unpacking looks for and does
    /// not find: the preset's file comes first, then the contents in the
    /// order of the index, each under its digest.
    pub open spec fn first_absent(self, name: Seq<char>) -> bool {
        if !self.archive.contains_key(preset_entry()) {
            name == preset_entry()
        } else {
            exists|i: int|
                {
                    &&& 0 <= i < self.metadata.assets.len()
                    &&& #[trigger] self.metadata.assets[i].hash == name
                    &&& !self.archive.contains_key(blob_entry(name))
                    &&& forall|j: int|
                        0 <= j < i ==> self.archive.contains_key(
                            blob_entry(#[trigger] self.metadata.assets[j].hash),
                        )
                }
        }
    }

    /// The writes of the textures, in the order of the index.
    pub open spec fn asset_writes(self) -> Seq<FileView> {
        Seq::new(
            self.metadata.assets.len(),
            |i: int| asset_write(self.archive, self.data_local, self.metadata.assets[i]),
        )
    }

    /// The writes that unpack the archive: the preset first, then the
    /// textures.
    pub open spec fn writes(self) -> Seq<FileView> {
        seq![
            FileView {
                path: preset_target(self.data_local, self.metadata.name),
                data: self.archive[preset_entry()],
            },
        ] + self.asset_writes()
    }
}

impl Unpacker {
    /// Takes the entries of an archive; unpacking will write below
    /// `data_local`.
    pub fn new(archive: FileStore, data_local: &str) -> (unpacker: Unpacker)
        ensures
            unpacker@ == (UnpackerView { archive: archive@, data_local: data_local@ }),
    {
        Unpacker { archive, data_local: String::from_str(data_local) }
    }

    /// Takes the entries of an archive to unpack it for the user of this
    /// system, if the system has a local data directory.
    pub fn for_user(archive: FileStore) -> (unpacker: Option<Unpacker>)
        ensures
            unpacker matches Some(made) ==> made@.archive == archive@,
    {
        Unpacker::with_data_dir(archive, data_local_dir())
    }

    /// Takes the entries of an archive to unpack it for a user whose local
    /// data directory is `data_local`; none for a user who has no local
    /// data directory.
    pub fn with_data_dir(archive: FileStore, data_local: Option<String>) -> (unpacker: Option<
        Unpacker,
    >)
        ensures
            match data_local {
                Some(dir) => unpacker matches Some(made) && made@ == (UnpackerView {
                    archive: archive@,
                    data_local: dir@,
                }),
                None => unpacker is None,
            },
    {
        match data_local {
            Some(dir) => Some(Unpacker { archive, data_local: dir }),
            None => None,
        }
    }

    /// The local data directory below which the archive is unpacked.
    pub fn data_local(&self) -> (dir: &str)
        ensures
            dir@ == self@.data_local,
    {
        self.data_local.as_str()
    }

    /// The encoded index of the archive, if the archive has one.
    pub fn metadata_document(&self) -> (document: Option<Vec<u8>>)
        ensures
            document is Some <==> self@.archive.contains_key(metadata_entry()),
            document matches Some(bytes) ==> bytes@ == self@.archive[metadata_entry()],
    {
        self.archive.read("metadata.json")
    }

    /// Whether a texture with the name and category of `e` is present among
    /// the user's own textures. The textures of the installation are not
    /// looked at: unpacking never writes there.
    pub fn test_file(files: &FileStore, data_local: &str, e: &MetaEntry) -> (present: bool)
        ensures
            present == entry_conflicts(files@, data_local@, e@),
    {
        let stem = e.texture_type.path_name();
        let custom_root = custom_asset_dir(data_local, false);
        let custom = join(custom_root.as_str(), stem);
        if find_in(files, custom.as_str(), e.name.as_str()).is_some() {
            return true;
        }
        let random_root = custom_asset_dir(data_local, true);
        let random = join(random_root.as_str(), stem);
        find_in(files, random.as_str(), e.name.as_str()).is_some()
    }

    /// The paths at which the texture of `e` is looked for among the
    /// user's own. Whether `e` is a conflict depends on which of these
    /// paths are present, and on nothing else.
    pub fn candidate_paths(data_local: &str, e: &MetaEntry) -> (paths: Vec<String>)
        ensures
            path_views(paths@) == local_candidates(data_local@, e@),
    {
        let stem = e.texture_type.path_name();
        let custom_root = custom_asset_dir(data_local, false);
        let custom = join(custom_root.as_str(), stem);
        let random_root = custom_asset_dir(data_local, true);
        let random = join(random_root.as_str(), stem);
        let mut paths = candidates_in(custom.as_str(), e.name.as_str());
        let mut more = candidates_in(random.as_str(), e.name.as_str());
        let ghost first = paths@;
        let ghost second = more@;
        paths.append(&mut more);
        proof {
            assert(path_views(first + second) =~= path_views(first) + path_views(second));
        }
        paths
    }

    /// The path to which a preset called `name` is unpacked.
    pub fn preset_path(data_local: &str, name: &str) -> (path: String)
        ensures
            path@ == preset_target(data_local@, name@),
    {
        let dir = custom_preset_dir(data_local);
        let file = preset_file(name);
        join(dir.as_str(), file.as_str())
    }

    /// Opens the archive: takes its index and finds the conflicts.
    ///
    /// `decoded` is what decoding the archive's index gave, `None` if it
    /// could not be decoded; it is looked at only if the archive has an
    /// index. The conflicts are the textures of the index that are present
    /// among the user's own, in the order of the index.
    pub fn load(self, decoded: Option<PackMetaData>, files: &FileStore) -> (result: Result<
        PackedFile,
        UnpackError,
    >)
        ensures
            match result {
                Err(UnpackError::MetadataNotFound) => !self@.archive.contains_key(metadata_entry()),
                Err(UnpackError::MalformedMetadata) => self@.archive.contains_key(metadata_entry())
                    && decoded is None,
                Err(UnpackError::AssetNotFound { .. }) => false,
                Ok(packed) => {
                    &&& self@.archive.contains_key(metadata_entry())
                    &&& decoded matches Some(metadata)
                    &&& packed@ == (PackedView {
                        archive: self@.archive,
                        data_local: self@.data_local,
                        metadata: metadata@,
                        conflicts: conflicting(files@, self@.data_local, metadata@.assets),
                    })
                },
            },
    {
        if !self.archive.contains("metadata.json") {
            return Err(UnpackError::MetadataNotFound);
        }
        let metadata = match decoded {
            Some(metadata) => metadata,
            None => {
                return Err(UnpackError::MalformedMetadata);
            },
        };
        let conflicts = find_conflicts(files, self.data_local.as_str(), &metadata.assets);
        Ok(PackedFile { archive: self.archive, data_local: self.data_local, metadata, conflicts })
    }
}

impl PackedFile {
    /// Whether the user already has a preset of the archive's name.
    pub fn preset_exists(&self, files: &FileStore) -> (present: bool)
        ensures
            present == files@.contains_key(preset_target(self@.data_local, self@.metadata.name)),
    {
        let dir = custom_preset_dir(self.data_local.as_str());
        let file = preset_file(self.metadata.name.as_str());
        let path = join(dir.as_str(), file.as_str());
        files.contains(path.as_str())
    }

    /// The index of the archive.
    pub fn metadata(&self) -> (metadata: &PackMetaData)
        ensures
            metadata@ == self@.metadata,
    {
        &self.metadata
    }

    /// The textures of the archive that were present among the user's own
    /// when the archive was opened.
    pub fn conflicts(&self) -> (conflicts: &Vec<MetaEntry>)
        ensures
            entry_views(conflicts@) == self@.conflicts,
    {
        &self.conflicts
    }

    /// The name of the packed preset.
    pub fn name(&self) -> (name: &str)
        ensures
            name@ == self@.metadata.name,
    {
        self.metadata.name.as_str()
    }

    /// The author of the archive.
    pub fn author(&self) -> (author: &str)
        ensures
            author@ == self@.metadata.author,
    {
        self.metadata.author.as_str()
    }

    /// The version of the installation the preset was packed on.
    pub fn target_version(&self) -> (version: u32)
        ensures
            version == self@.metadata.target_version,
    {
        self.metadata.target_version
    }

    /// What unpacking into `files` would overwrite: whether the user has a
    /// preset of the archive's name, and the textures of the index that are
    /// present among the user's own. The files of the installation play no
    /// part in either.
    pub fn conflicts_in(&self, files: &FileStore) -> (found: (bool, Vec<MetaEntry>))
        ensures
            found.0 == files@.contains_key(preset_target(self@.data_local, self@.metadata.name)),
            entry_views(found.1@) == conflicting(
                files@,
                self@.data_local,
                self@.metadata.assets,
            ),
    {
        let preset_conflict = self.preset_exists(files);
        let conflicts = find_conflicts(files, self.data_local.as_str(), &self.metadata.assets);
        (preset_conflict, conflicts)
    }

    /// The files that unpacking writes, in order: the preset's file, then
    /// every texture of the index under its name and extension.
    ///
    /// If the archive lacks the preset's file, or the content of a texture,
    /// the first entry that is missing is reported and there is no plan.
    pub fn plan(&self) -> (result: Result<Vec<StoredFile>, UnpackError>)
        ensures
            match result {
                Ok(writes) => self@.complete() && file_views(writes@) == self@.writes(),
                Err(UnpackError::AssetNotFound { name }) => self@.first_absent(name@),
                Err(_) => false,
            },
    {
        let preset = match self.archive.read("preset.json") {
            Some(preset) => preset,
            None => {
                return Err(UnpackError::AssetNotFound { name: String::from_str("preset.json") });
            },
        };
        let dir = custom_preset_dir(self.data_local.as_str());
        let file = preset_file(self.metadata.name.as_str());
        let mut writes: Vec<StoredFile> = Vec::new();
        writes.push(StoredFile { path: join(dir.as_str(), file.as_str()), data: preset });
        let ghost first = file_views(writes@);
        let ghost all = self@.asset_writes();
        let custom_root = custom_asset_dir(self.data_local.as_str(), false);
        let mut i: usize = 0;
        assert(file_views(writes@) =~= first + all.take(0));
        while i < self.metadata.assets.len()
            invariant
                i <= self.metadata.assets.len(),
                all == self@.asset_writes(),
                custom_root@ == custom_asset_path(self@.data_local, false),
                self@.archive.contains_key(preset_entry()),
                forall|j: int|
                    0 <= j < i ==> self@.archive.contains_key(
                        blob_entry(#[trigger] self@.metadata.assets[j].hash),
                    ),
                file_views(writes@) == first + all.take(i as int),
            decreases self.metadata.assets.len() - i,
        {
            let asset = &self.metadata.assets[i];
            assert(self@.metadata.assets[i as int] == asset@);
            let entry_name = blob_entry_name(asset.hash.as_str());
            let data = match self.archive.read(entry_name.as_str()) {
                Some(data) => data,
                None => {
                    let name = asset.hash.clone();
                    proof {
                        let at = i as int;
                        assert(self@.metadata.assets[at].hash == name@);
                        assert(!self@.archive.contains_key(blob_entry(name@)));
                        assert(self@.first_absent(name@));
                    }
                    return Err(UnpackError::AssetNotFound { name });
                },
            };
            let category = join(custom_root.as_str(), asset.texture_type.path_name());
            let file_name = String::from_str(asset.name.as_str()).concat(".").concat(
                asset.extension.as_str(),
            );
            let ghost before = writes@;
            let write = StoredFile { path: join(category.as_str(), file_name.as_str()), data };
            proof {
                assert(write@ == asset_write(self@.archive, self@.data_local, asset@));
                assert(file_views(before.push(write)) =~= file_views(before).push(write@));
                assert(first + all.take(i + 1) =~= (first + all.take(i as int)).push(write@));
            }
            writes.push(write);
            i = i + 1;
        }
        proof {
            assert(all.take(i as int) =~= all);
        }
        Ok(writes)
    }

    /// Unpacks the archive into `files`: makes the writes of `plan`, first
    /// to last, replacing what the paths held before.
    ///
    /// Nothing is written unless the archive is complete: if an entry is
    /// missing, `files` stays as it was.
    pub fn unpack(&self, files: &mut FileStore) -> (result: Result<(), UnpackError>)
        ensures
            match result {
                Ok(()) => self@.complete() && final(files)@ == written(
                    old(files)@,
                    self@.writes(),
                ),
                Err(UnpackError::AssetNotFound { name }) => {
                    &&& self@.first_absent(name@)
                    &&& final(files)@ == old(files)@
                },
                Err(_) => false,
            },
    {
        let writes = match self.plan() {
            Ok(writes) => writes,
            Err(error) => {
                return Err(error);
            },
        };
        files.write_all(&writes);
        Ok(())
    }
}

} // verus!
