//! Collecting the textures of a preset and packing them into a bundle.
//!
//! Packing has two steps. `Packer::collect` checks the preset, finds the
//! file behind every texture it names and keeps those that have to travel.
//! `PackablePreset::pack` then reads these files, names each content by its
//! digest, stores every distinct content once and writes the index.
//! `Packer::pack` does both.

use vstd::prelude::*;
use vstd::string::StringExecFns;
use crate::bundle::{
    assembled,
    has_blob,
    item_entries,
    item_views,
    stored_blobs,
    well_formed_digests,
    Bundle,
    BundleView,
    ExtraMeta,
    ItemView,
    PackItem,
};
use crate::files::{path_views, FileStore};
use crate::laws::{
    arrives,
    digests_tell_contents,
    has_item,
    law_pack_round_trip,
    law_stored_blobs_match_records,
    targets_tell_contents,
};
use crate::metadata::{digests_well_formed, is_digest, is_timestamp, EntryView, MetaEntry};
use crate::helpers::{
    custom_asset_dir,
    data_local_dir,
    custom_asset_path,
    custom_preset_dir,
    custom_preset_path,
    join,
    joined,
    preset_file,
    preset_file_name,
    root_asset_dir,
    root_asset_path,
    root_preset_dir,
    root_preset_path,
};
use crate::preset::{
    add_material,
    dedup,
    document_refs,
    extract_references,
    keys,
    material_refs,
    with_keys,
    AssetKey,
    AssetReference,
    Material,
    PresetDocument,
};
use crate::resolver::{candidates_in, dir_candidates, find_in, locate, Resolution};
use crate::texture::{stem_of, TextureType};

verus! {

/// What is to be done with a referenced texture.
#[derive(Clone, Copy, Debug, PartialEq, Eq, Structural)]
pub enum AssetAction {
    /// No file was found. The reference is dropped.
    NotFound,
    /// The file ships with the installation and stays out of the archive.
    Ignore,
    /// The file is the user's own and travels in the archive.
    Pack,
}

/// Why a preset could not be packed.
#[derive(Debug, PartialEq, Eq)]
pub enum PackError {
    /// The user has no preset of this name.
    NotFound { name: String },
    /// The preset's file could not be decoded.
    MalformedPreset,
    /// The preset ships with the installation.
    IsBuiltin,
    /// A file that was to be packed is not there any more.
    PackIoError { path: String },
    /// The preset was saved with another version of the installation.
    WrongVersion { wanted: u32, got: u32 },
}

/// What decoding the preset's file gave.
#[derive(Debug, PartialEq, Eq)]
pub enum DecodedPreset {
    /// Not even the version could be read.
    Malformed,
    /// The version could be read, the rest of the document could not.
    VersionOnly { version: u32 },
    /// The whole document.
    Document(PresetDocument),
}

/// A referenced texture and the file that was found for it.
#[derive(Debug, PartialEq, Eq)]
pub struct FoundAsset {
    pub name: String,
    pub ext: String,
    pub texture_type: TextureType,
    pub random: bool,
    pub path: String,
    pub action: AssetAction,
}

impl FoundAsset {
    /// The reference that was looked up.
    pub open spec fn key(&self) -> AssetKey {
        AssetKey { name: self.name@, typ: self.texture_type }
    }

    /// What the lookup found.
    pub open spec fn resolution(&self) -> Resolution {
        Resolution { action: self.action, random: self.random, path: self.path@, ext: self.ext@ }
    }
}

/// The outcome of looking for the texture `key`, with the installation at
/// `install` and the user's data below `data_local`.
pub open spec fn resolve(
    files: Map<Seq<char>, Seq<u8>>,
    install: Seq<char>,
    data_local: Seq<char>,
    key: AssetKey,
) -> Resolution {
    locate(
        files,
        joined(root_asset_path(install), stem_of(key.typ)),
        joined(custom_asset_path(data_local, false), stem_of(key.typ)),
        joined(custom_asset_path(data_local, true), stem_of(key.typ)),
        key.name,
    )
}

/// The paths at which the texture `key` is looked for, in the order in
/// which they are tried.
pub open spec fn asset_candidates(install: Seq<char>, data_local: Seq<char>, key: AssetKey) -> Seq<
    Seq<char>,
> {
    dir_candidates(joined(root_asset_path(install), stem_of(key.typ)), key.name) + dir_candidates(
        joined(custom_asset_path(data_local, false), stem_of(key.typ)),
        key.name,
    ) + dir_candidates(joined(custom_asset_path(data_local, true), stem_of(key.typ)), key.name)
}

/// The item that packing makes of the texture `key`: its record, with the
/// digest of the contents of the file that is found for it, and the
/// contents.
pub open spec fn item_for(
    files: Map<Seq<char>, Seq<u8>>,
    install: Seq<char>,
    data_local: Seq<char>,
    key: AssetKey,
) -> ItemView {
    let found = resolve(files, install, data_local, key);
    ItemView {
        entry: EntryView {
            hash: blake3_hex(files[found.path]),
            name: key.name,
            extension: found.ext,
            texture_type: key.typ,
            source_was_random: found.random,
        },
        data: files[found.path],
    }
}

/// The items that packing makes of a list of textures.
pub open spec fn items_for(
    files: Map<Seq<char>, Seq<u8>>,
    install: Seq<char>,
    data_local: Seq<char>,
    wanted: Seq<AssetKey>,
) -> Seq<ItemView> {
    Seq::new(wanted.len(), |i: int| item_for(files, install, data_local, wanted[i]))
}

/// Of `refs`, those whose file has to travel, in the same order.
pub open spec fn packed_keys(
    files: Map<Seq<char>, Seq<u8>>,
    install: Seq<char>,
    data_local: Seq<char>,
    refs: Seq<AssetKey>,
) -> Seq<AssetKey>
    decreases refs.len(),
{
    if refs.len() == 0 {
        Seq::empty()
    } else {
        let before = packed_keys(files, install, data_local, refs.drop_last());
        if resolve(files, install, data_local, refs.last()).action == AssetAction::Pack {
            before.push(refs.last())
        } else {
            before
        }
    }
}

/// The file of every texture that is kept for packing is present.
pub proof fn lemma_kept_files_are_present(
    files: Map<Seq<char>, Seq<u8>>,
    install: Seq<char>,
    data_local: Seq<char>,
    refs: Seq<AssetKey>,
)
    ensures
        forall|key: AssetKey| #[trigger]
            packed_keys(files, install, data_local, refs).contains(key) ==> files.contains_key(
                resolve(files, install, data_local, key).path,
            ),
    decreases refs.len(),
{
    if refs.len() > 0 {
        let earlier = refs.drop_last();
        let before = packed_keys(files, install, data_local, earlier);
        let after = packed_keys(files, install, data_local, refs);
        lemma_kept_files_are_present(files, install, data_local, earlier);
        assert forall|key: AssetKey| #[trigger] after.contains(key) implies files.contains_key(
            resolve(files, install, data_local, key).path,
        ) by {
            let i = choose|i: int| 0 <= i < after.len() && after[i] == key;
            if i < before.len() {
                assert(before[i] == key);
                assert(before.contains(key));
            }
        }
    }
}

/// Whether `found` lists the lookups of `wanted`, one for one.
pub open spec fn lookups_of(
    found: Seq<FoundAsset>,
    files: Map<Seq<char>, Seq<u8>>,
    install: Seq<char>,
    data_local: Seq<char>,
    wanted: Seq<AssetKey>,
) -> bool {
    &&& found.len() == wanted.len()
    &&& forall|i: int|
        0 <= i < found.len() ==> #[trigger] found[i].key() == wanted[i] && found[i].resolution()
            == resolve(files, install, data_local, wanted[i])
}

/// A preset that is to be packed.
#[derive(Debug)]
pub struct Packer {
    root: String,
    data_local: String,
    preset: String,
    ksv: u32,
}

/// What a `Packer` holds.
pub struct PackerView {
    pub root: Seq<char>,
    pub data_local: Seq<char>,
    pub preset: Seq<char>,
    pub ksv: u32,
}

impl View for Packer {
    type V = PackerView;

    closed spec fn view(&self) -> PackerView {
        PackerView {
            root: self.root@,
            data_local: self.data_local@,
            preset: self.preset@,
            ksv: self.ksv,
        }
    }
}

/// Why a preset is not packed.
pub enum Refusal {
    IsBuiltin,
    NotFound,
    MalformedPreset,
    WrongVersion { wanted: u32, got: u32 },
}

/// Whether `error` reports the refusal `refusal` of the preset `preset`.
pub open spec fn reports(error: PackError, refusal: Refusal, preset: Seq<char>) -> bool {
    match (error, refusal) {
        (PackError::IsBuiltin, Refusal::IsBuiltin) => true,
        (PackError::NotFound { name }, Refusal::NotFound) => name@ == preset,
        (PackError::MalformedPreset, Refusal::MalformedPreset) => true,
        (PackError::WrongVersion { wanted, got }, Refusal::WrongVersion { wanted: w, got: g }) => {
            wanted == w && got == g
        },
        _ => false,
    }
}

impl PackerView {
    /// Why the preset is not packed, if it is not. The checks are made in
    /// this order: the user must have the preset; a preset that also ships
    /// with the installation is refused unless `allow_builtin` is set; its
    /// version must be readable and must be the installation's; the whole
    /// document must be readable.
    pub open spec fn refusal(
        self,
        files: Map<Seq<char>, Seq<u8>>,
        decoded: DecodedPreset,
        allow_builtin: bool,
    ) -> Option<Refusal> {
        if !files.contains_key(self.preset_path()) {
            Some(Refusal::NotFound)
        } else if !allow_builtin && files.contains_key(self.builtin_path()) {
            Some(Refusal::IsBuiltin)
        } else {
            match decoded {
                DecodedPreset::Malformed => Some(Refusal::MalformedPreset),
                DecodedPreset::VersionOnly { version } => if version != self.ksv {
                    Some(Refusal::WrongVersion { wanted: self.ksv, got: version })
                } else {
                    Some(Refusal::MalformedPreset)
                },
                DecodedPreset::Document(doc) => if doc.version != self.ksv {
                    Some(Refusal::WrongVersion { wanted: self.ksv, got: doc.version })
                } else {
                    None
                },
            }
        }
    }

    /// The textures of `doc` that are kept for packing: those that the
    /// document names and whose file is the user's own, each once, in the
    /// order in which the document first names them.
    pub open spec fn kept(self, files: Map<Seq<char>, Seq<u8>>, doc: PresetDocument) -> Seq<
        AssetKey,
    > {
        packed_keys(files, self.root, self.data_local, dedup(document_refs(doc)))
    }

    /// The items that packing makes of the textures of `doc` that are kept.
    pub open spec fn items(self, files: Map<Seq<char>, Seq<u8>>, doc: PresetDocument) -> Seq<
        ItemView,
    > {
        items_for(files, self.root, self.data_local, self.kept(files, doc))
    }

    /// The bundle that packing `doc` at the time `packed` gives.
    pub open spec fn bundle(
        self,
        files: Map<Seq<char>, Seq<u8>>,
        doc: PresetDocument,
        extra: ExtraMeta,
        packed: Seq<char>,
    ) -> BundleView {
        assembled(self.preset, extra, packed, files[self.preset_path()], self.items(files, doc))
    }

    /// Where the preset would be if it shipped with the installation.
    pub open spec fn builtin_path(self) -> Seq<char> {
        joined(root_preset_path(self.root), preset_file_name(self.preset))
    }

    /// Where the preset is if it is the user's own.
    pub open spec fn preset_path(self) -> Seq<char> {
        joined(custom_preset_path(self.data_local), preset_file_name(self.preset))
    }
}

/// A preset whose textures have been found, ready to be packed.
#[derive(Debug)]
pub struct PackablePreset {
    name: String,
    path: String,
    assets: Vec<FoundAsset>,
}

/// What a `PackablePreset` holds.
pub struct PackableView {
    pub name: Seq<char>,
    pub path: Seq<char>,
    pub assets: Seq<FoundAsset>,
}

impl View for PackablePreset {
    type V = PackableView;

    closed spec fn view(&self) -> PackableView {
        PackableView { name: self.name@, path: self.path@, assets: self.assets@ }
    }
}

impl Packer {
    /// A packer for the user's preset `preset`, with the installation at
    /// `root`, of version `ksv`, and the user's data below `data_local`.
    pub fn new(root: &str, data_local: &str, ksv: u32, preset: &str) -> (packer: Packer)
        ensures
            packer@ == (PackerView {
                root: root@,
                data_local: data_local@,
                preset: preset@,
                ksv,
            }),
    {
        Packer {
            root: String::from_str(root),
            data_local: String::from_str(data_local),
            ksv,
            preset: String::from_str(preset),
        }
    }

    /// A packer for the preset `preset` of the user of this system, if the
    /// system has a local data directory.
    pub fn for_user(root: &str, ksv: u32, preset: &str) -> (packer: Option<Packer>)
        ensures
            packer matches Some(made) ==> made@.root == root@ && made@.ksv == ksv && made@.preset
                == preset@,
    {
        Packer::with_data_dir(root, data_local_dir(), ksv, preset)
    }

    /// A packer for the preset `preset` of a user whose local data
    /// directory is `data_local`; none for a user who has no local data
    /// directory.
    pub fn with_data_dir(root: &str, data_local: Option<String>, ksv: u32, preset: &str) -> (packer:
        Option<Packer>)
        ensures
            match data_local {
                Some(dir) => packer matches Some(made) && made@ == (PackerView {
                    root: root@,
                    data_local: dir@,
                    preset: preset@,
                    ksv,
                }),
                None => packer is None,
            },
    {
        match data_local {
            Some(dir) => Some(
                Packer {
                    root: String::from_str(root),
                    data_local: dir,
                    ksv,
                    preset: String::from_str(preset),
                },
            ),
            None => None,
        }
    }

    /// The local data directory of the user whose preset is packed.
    pub fn data_local(&self) -> (dir: &str)
        ensures
            dir@ == self@.data_local,
    {
        self.data_local.as_str()
    }

    /// Checks the preset and finds the files of the textures it names.
    ///
    /// `decoded` is what decoding the preset's file gave; it is looked at
    /// only if the file is present. The checks are made in this order: the
    /// user must have the preset; a preset that also ships with the
    /// installation is refused unless `allow_builtin` is set; its version
    /// must be readable and must be the installation's; the document must
    /// be readable. On success the result lists, for every texture that the
    /// document names and whose file is the user's own, that file, in the
    /// order in which the document first names the textures.
    pub fn collect(&self, files: &FileStore, decoded: &DecodedPreset, allow_builtin: bool) -> (result:
        Result<PackablePreset, PackError>)
        ensures
            match result {
                Err(error) => self@.refusal(files@, *decoded, allow_builtin) matches Some(refusal)
                    && reports(error, refusal, self@.preset),
                Ok(preset) => {
                    &&& self@.refusal(files@, *decoded, allow_builtin) is None
                    &&& decoded matches DecodedPreset::Document(doc)
                    &&& preset@.name == self@.preset
                    &&& preset@.path == self@.preset_path()
                    &&& lookups_of(
                        preset@.assets,
                        files@,
                        self@.root,
                        self@.data_local,
                        self@.kept(files@, *doc),
                    )
                },
            },
    {
        let preset_dir = custom_preset_dir(self.data_local.as_str());
        let file = preset_file(self.preset.as_str());
        let preset_path = join(preset_dir.as_str(), file.as_str());
        if !files.contains(preset_path.as_str()) {
            return Err(PackError::NotFound { name: self.preset.clone() });
        }
        if !allow_builtin && self.check_builtin_preset(files) {
            return Err(PackError::IsBuiltin);
        }
        let loaded_preset = match decoded {
            DecodedPreset::Malformed => {
                return Err(PackError::MalformedPreset);
            },
            DecodedPreset::VersionOnly { version } => {
                if *version != self.ksv {
                    return Err(PackError::WrongVersion { wanted: self.ksv, got: *version });
                }
                return Err(PackError::MalformedPreset);
            },
            DecodedPreset::Document(doc) => {
                if doc.version != self.ksv {
                    return Err(PackError::WrongVersion { wanted: self.ksv, got: doc.version });
                }
                doc
            },
        };

        let refs = extract_references(loaded_preset);
        let ghost wanted = keys(refs@);
        let mut found: Vec<FoundAsset> = Vec::new();
        let mut i: usize = 0;
        while i < refs.len()
            invariant
                i <= refs.len(),
                wanted == keys(refs@),
                lookups_of(
                    found@,
                    files@,
                    self@.root,
                    self@.data_local,
                    packed_keys(files@, self@.root, self@.data_local, wanted.take(i as int)),
                ),
            decreases refs.len() - i,
        {
            let asset = self.make_found_file(files, refs[i].typ, refs[i].name.as_str());
            proof {
                assert(wanted.take(i + 1).drop_last() =~= wanted.take(i as int));
                assert(wanted.take(i + 1).last() == refs@[i as int].key());
            }
            if asset.action == AssetAction::Pack {
                found.push(asset);
            }
            i = i + 1;
        }
        proof {
            assert(wanted.take(i as int) =~= wanted);
        }
        Ok(PackablePreset { name: self.preset.clone(), path: preset_path, assets: found })
    }

    /// Adds the references of one material to `refs`, slot by slot. A slot
    /// that is unset, or whose texture `refs` holds already, adds nothing.
    pub fn get_textures(refs: &mut Vec<AssetReference>, t: &Material)
        ensures
            keys(final(refs)@) == with_keys(keys(old(refs)@), material_refs(*t)),
    {
        add_material(refs, t)
    }

    /// Looks for the file of the texture `file` of category `typ`: first
    /// among the textures of the installation, then among the user's own,
    /// then among the user's randomized textures.
    pub fn make_found_file(&self, files: &FileStore, typ: TextureType, file: &str) -> (found:
        FoundAsset)
        ensures
            found.key() == (AssetKey { name: file@, typ }),
            found.resolution() == resolve(
                files@,
                self@.root,
                self@.data_local,
                AssetKey { name: file@, typ },
            ),
    {
        let default_root = root_asset_dir(self.root.as_str());
        let default_dir = join(default_root.as_str(), typ.path_name());
        let pathinfo = find_in(files, default_dir.as_str(), file);
        if let Some((path, ext)) = pathinfo {
            return FoundAsset {
                name: String::from_str(file),
                ext: String::from_str(ext),
                texture_type: typ,
                random: false,
                path,
                action: AssetAction::Ignore,
            };
        }
        let custom_root = custom_asset_dir(self.data_local.as_str(), false);
        let custom_dir = join(custom_root.as_str(), typ.path_name());
        let pathinfo = find_in(files, custom_dir.as_str(), file);
        if let Some((path, ext)) = pathinfo {
            return FoundAsset {
                name: String::from_str(file),
                ext: String::from_str(ext),
                texture_type: typ,
                random: false,
                path,
                action: AssetAction::Pack,
            };
        }
        let random_root = custom_asset_dir(self.data_local.as_str(), true);
        let random_dir = join(random_root.as_str(), typ.path_name());
        let pathinfo = find_in(files, random_dir.as_str(), file);
        if let Some((path, ext)) = pathinfo {
            return FoundAsset {
                name: String::from_str(file),
                ext: String::from_str(ext),
                texture_type: typ,
                random: true,
                path,
                action: AssetAction::Pack,
            };
        }
        FoundAsset {
            name: String::from_str(file),
            ext: String::new(),
            texture_type: typ,
            random: false,
            path: String::new(),
            action: AssetAction::NotFound,
        }
    }

    /// Packs the preset as of the time `packed`: `collect`, then
    /// `PackablePreset::pack_at` on what was collected.
    ///
    /// The preset is refused as `collect` refuses it. A preset that is not
    /// refused is packed: every file that packing reads was found among
    /// `files` a moment ago. The bundle holds the preset's file, a record
    /// for every texture that was kept, with the digest of its file, and
    /// every distinct content once.
    pub fn pack_at(
        &self,
        files: &FileStore,
        decoded: &DecodedPreset,
        allow_builtin: bool,
        extra_meta: ExtraMeta,
        packed: String,
    ) -> (result: Result<Bundle, PackError>)
        ensures
            match result {
                Err(error) => self@.refusal(files@, *decoded, allow_builtin) matches Some(refusal)
                    && reports(error, refusal, self@.preset),
                Ok(bundle) => {
                    &&& self@.refusal(files@, *decoded, allow_builtin) is None
                    &&& decoded matches DecodedPreset::Document(doc)
                    &&& bundle@ == self@.bundle(files@, *doc, extra_meta, packed@)
                    &&& well_formed_digests(bundle@)
                },
            },
    {
        let preset = match self.collect(files, decoded, allow_builtin) {
            Ok(preset) => preset,
            Err(error) => {
                return Err(error);
            },
        };
        proof {
            let doc = decoded->Document_0;
            let kept = self@.kept(files@, doc);
            lemma_kept_files_are_present(files@, self@.root, self@.data_local, dedup(document_refs(doc)));
            assert forall|i: int| 0 <= i < preset@.assets.len() implies files@.contains_key(
                #[trigger] preset@.assets[i].path@,
            ) by {
                assert(preset@.assets[i].key() == kept[i]);
                assert(kept.contains(kept[i]));
            }
            assert(items_of(files@, preset@.assets) =~= items_for(
                files@,
                self@.root,
                self@.data_local,
                kept,
            )) by {
                assert forall|i: int| 0 <= i < preset@.assets.len() implies item_of(
                    files@,
                    #[trigger] preset@.assets[i],
                ) == item_for(files@, self@.root, self@.data_local, kept[i]) by {
                    assert(preset@.assets[i].key() == kept[i]);
                }
            }
        }
        let result = preset.pack_at(files, extra_meta, packed);
        assert(result is Ok) by {
            assert(preset@.readable(files@));
        }
        result
    }

    /// Packs the preset as of now: `pack_at` with the time read from the
    /// system clock.
    pub fn pack(
        &self,
        files: &FileStore,
        decoded: &DecodedPreset,
        allow_builtin: bool,
        extra_meta: ExtraMeta,
    ) -> (result: Result<Bundle, PackError>)
        ensures
            match result {
                Err(error) => self@.refusal(files@, *decoded, allow_builtin) matches Some(refusal)
                    && reports(error, refusal, self@.preset),
                Ok(bundle) => {
                    &&& self@.refusal(files@, *decoded, allow_builtin) is None
                    &&& decoded matches DecodedPreset::Document(doc)
                    &&& bundle@ == self@.bundle(files@, *doc, extra_meta, bundle@.metadata.packed)
                    &&& is_timestamp(bundle@.metadata.packed)
                    &&& well_formed_digests(bundle@)
                },
            },
    {
        let packed = current_timestamp();
        self.pack_at(files, decoded, allow_builtin, extra_meta, packed)
    }

    /// Packs the preset as of the time `packed`, as `pack_at` does, unless
    /// two of the files that were found have the same digest and different
    /// contents: then there is no bundle, since one of the two would be
    /// lost.
    ///
    /// A bundle that is made can be unpacked without loss: laid out as an
    /// archive and unpacked below any directory, it brings the preset's
    /// file to its place, and every texture that was kept arrives with the
    /// bytes of the file that was found for it.
    pub fn pack_checked_at(
        &self,
        files: &FileStore,
        decoded: &DecodedPreset,
        allow_builtin: bool,
        extra_meta: ExtraMeta,
        packed: String,
    ) -> (result: Result<Option<Bundle>, PackError>)
        ensures
            match result {
                Err(error) => self@.refusal(files@, *decoded, allow_builtin) matches Some(refusal)
                    && reports(error, refusal, self@.preset),
                Ok(None) => {
                    &&& self@.refusal(files@, *decoded, allow_builtin) is None
                    &&& decoded matches DecodedPreset::Document(doc)
                    &&& !digests_tell_contents(self@.items(files@, *doc))
                },
                Ok(Some(bundle)) => {
                    &&& self@.refusal(files@, *decoded, allow_builtin) is None
                    &&& decoded matches DecodedPreset::Document(doc)
                    &&& digests_tell_contents(self@.items(files@, *doc))
                    &&& bundle@ == self@.bundle(files@, *doc, extra_meta, packed@)
                    &&& well_formed_digests(bundle@)
                    &&& forall|
                        metadata_document: Seq<u8>,
                        target: Seq<char>,
                        conflicts: Seq<EntryView>,
                        local: Map<Seq<char>, Seq<u8>>,
                    | #[trigger]
                        arrives(
                            bundle@,
                            metadata_document,
                            target,
                            conflicts,
                            local,
                            files@[self@.preset_path()],
                            self@.items(files@, *doc),
                        )
                },
            },
    {
        let preset = match self.collect(files, decoded, allow_builtin) {
            Ok(preset) => preset,
            Err(error) => {
                return Err(error);
            },
        };
        proof {
            let doc = decoded->Document_0;
            let kept = self@.kept(files@, doc);
            lemma_kept_files_are_present(files@, self@.root, self@.data_local, dedup(document_refs(doc)));
            assert forall|i: int| 0 <= i < preset@.assets.len() implies files@.contains_key(
                #[trigger] preset@.assets[i].path@,
            ) by {
                assert(preset@.assets[i].key() == kept[i]);
                assert(kept.contains(kept[i]));
            }
            assert(items_of(files@, preset@.assets) =~= self@.items(files@, doc)) by {
                assert forall|i: int| 0 <= i < preset@.assets.len() implies item_of(
                    files@,
                    #[trigger] preset@.assets[i],
                ) == item_for(files@, self@.root, self@.data_local, kept[i]) by {
                    assert(preset@.assets[i].key() == kept[i]);
                }
            }
        }
        let ghost doc = decoded->Document_0;
        let ghost wanted = self@.bundle(files@, doc, extra_meta, packed@);
        let result = preset.pack_checked_at(files, extra_meta, packed);
        assert(result is Ok) by {
            assert(preset@.readable(files@));
        }
        proof {
            if result is Ok && result->Ok_0 is Some {
                let bundle = result->Ok_0->Some_0;
                assert(bundle@ == wanted);
                assert forall|
                    metadata_document: Seq<u8>,
                    target: Seq<char>,
                    conflicts: Seq<EntryView>,
                    local: Map<Seq<char>, Seq<u8>>,
                | #[trigger]
                    arrives(
                        bundle@,
                        metadata_document,
                        target,
                        conflicts,
                        local,
                        files@[self@.preset_path()],
                        self@.items(files@, doc),
                    ) by {
                    law_pack_round_trip(
                        self@,
                        files@,
                        doc,
                        extra_meta,
                        packed@,
                        metadata_document,
                        target,
                        conflicts,
                        local,
                    );
                }
            }
        }
        result
    }

    /// Packs the preset as of now, as `pack` does, unless two of the files
    /// that were found have the same digest and different contents:
    /// `pack_checked_at` with the time read from the system clock.
    pub fn pack_checked(
        &self,
        files: &FileStore,
        decoded: &DecodedPreset,
        allow_builtin: bool,
        extra_meta: ExtraMeta,
    ) -> (result: Result<Option<Bundle>, PackError>)
        ensures
            match result {
                Err(error) => self@.refusal(files@, *decoded, allow_builtin) matches Some(refusal)
                    && reports(error, refusal, self@.preset),
                Ok(None) => {
                    &&& self@.refusal(files@, *decoded, allow_builtin) is None
                    &&& decoded matches DecodedPreset::Document(doc)
                    &&& !digests_tell_contents(self@.items(files@, *doc))
                },
                Ok(Some(bundle)) => {
                    &&& self@.refusal(files@, *decoded, allow_builtin) is None
                    &&& decoded matches DecodedPreset::Document(doc)
                    &&& digests_tell_contents(self@.items(files@, *doc))
                    &&& bundle@ == self@.bundle(files@, *doc, extra_meta, bundle@.metadata.packed)
                    &&& is_timestamp(bundle@.metadata.packed)
                    &&& well_formed_digests(bundle@)
                    &&& forall|
                        metadata_document: Seq<u8>,
                        target: Seq<char>,
                        conflicts: Seq<EntryView>,
                        local: Map<Seq<char>, Seq<u8>>,
                    | #[trigger]
                        arrives(
                            bundle@,
                            metadata_document,
                            target,
                            conflicts,
                            local,
                            files@[self@.preset_path()],
                            self@.items(files@, *doc),
                        )
                },
            },
    {
        let packed = current_timestamp();
        self.pack_checked_at(files, decoded, allow_builtin, extra_meta, packed)
    }

    /// The paths at which the texture `file` of category `typ` is looked
    /// for, in the order in which they are tried. What `make_found_file`
    /// finds depends on which of these paths are present, and on nothing
    /// else.
    pub fn candidate_paths(&self, typ: TextureType, file: &str) -> (paths: Vec<String>)
        ensures
            path_views(paths@) == asset_candidates(
                self@.root,
                self@.data_local,
                AssetKey { name: file@, typ },
            ),
    {
        let default_root = root_asset_dir(self.root.as_str());
        let default_dir = join(default_root.as_str(), typ.path_name());
        let custom_root = custom_asset_dir(self.data_local.as_str(), false);
        let custom_dir = join(custom_root.as_str(), typ.path_name());
        let random_root = custom_asset_dir(self.data_local.as_str(), true);
        let random_dir = join(random_root.as_str(), typ.path_name());
        let mut paths = candidates_in(default_dir.as_str(), file);
        let mut custom = candidates_in(custom_dir.as_str(), file);
        let mut random = candidates_in(random_dir.as_str(), file);
        let ghost first = paths@;
        let ghost second = custom@;
        let ghost third = random@;
        paths.append(&mut custom);
        paths.append(&mut random);
        proof {
            assert(path_views(first + second + third) =~= path_views(first) + path_views(second)
                + path_views(third));
        }
        paths
    }

    /// The path of the user's preset.
    pub fn preset_path(&self) -> (path: String)
        ensures
            path@ == self@.preset_path(),
    {
        let dir = custom_preset_dir(self.data_local.as_str());
        let file = preset_file(self.preset.as_str());
        join(dir.as_str(), file.as_str())
    }

    /// The path at which the preset would be if it shipped with the
    /// installation.
    pub fn builtin_path(&self) -> (path: String)
        ensures
            path@ == self@.builtin_path(),
    {
        let dir = root_preset_dir(self.root.as_str());
        let file = preset_file(self.preset.as_str());
        join(dir.as_str(), file.as_str())
    }

    /// Whether a preset of this name ships with the installation.
    pub fn check_builtin_preset(&self, files: &FileStore) -> (builtin: bool)
        ensures
            builtin == files@.contains_key(self@.builtin_path()),
    {
        let dir = root_preset_dir(self.root.as_str());
        let file = preset_file(self.preset.as_str());
        let path = join(dir.as_str(), file.as_str());
        files.contains(path.as_str())
    }
}

/// The digest of a byte string, in hexadecimal.
pub uninterp spec fn blake3_hex(data: Seq<u8>) -> Seq<char>;

/// Calls `blake3::hash`, then `Hash::to_hex` on what it returns. The result
/// is taken on trust to depend on the bytes alone: equal byte strings have
/// equal digests. Its form is that which `to_hex` writes: two digits to the
/// base sixteen, with small letters, for each of the thirty-two bytes.
#[verifier::external_body]
fn content_hash(data: &Vec<u8>) -> (hex: String)
    ensures
        hex@ == blake3_hex(data@),
        is_digest(hex@),
{
    blake3::hash(data.as_slice()).to_hex().to_string()
}

/// Reads the system clock with `SystemTime::now`, makes a time of it with
/// chrono's `From<SystemTime>` for `DateTime<Utc>`, and calls
/// `DateTime::to_rfc3339_opts` for its text. Which time it is, is not
/// assumed. Its form is that which chrono writes for a time in universal
/// time: the year, `-MM-DDTHH:MM:SS`, a fraction of three, six or nine
/// digits where the time has one, and `Z`.
#[verifier::external_body]
fn current_timestamp() -> (text: String)
    ensures
        is_timestamp(text@),
{
    chrono::DateTime::<chrono::Utc>::from(std::time::SystemTime::now()).to_rfc3339_opts(
        chrono::SecondsFormat::AutoSi,
        true,
    )
}

/// The item that packing makes of a found texture: its record, with the
/// digest of the file's contents, and the contents.
pub open spec fn item_of(files: Map<Seq<char>, Seq<u8>>, asset: FoundAsset) -> ItemView {
    ItemView {
        entry: EntryView {
            hash: blake3_hex(files[asset.path@]),
            name: asset.name@,
            extension: asset.ext@,
            texture_type: asset.texture_type,
            source_was_random: asset.random,
        },
        data: files[asset.path@],
    }
}

/// The items that packing makes of a list of found textures.
pub open spec fn items_of(files: Map<Seq<char>, Seq<u8>>, assets: Seq<FoundAsset>) -> Seq<
    ItemView,
> {
    Seq::new(assets.len(), |i: int| item_of(files, assets[i]))
}

impl PackableView {
    /// Whether the preset's file and the file of every texture are present.
    pub open spec fn readable(self, files: Map<Seq<char>, Seq<u8>>) -> bool {
        &&& forall|i: int|
            0 <= i < self.assets.len() ==> files.contains_key(#[trigger] self.assets[i].path@)
        &&& files.contains_key(self.path)
    }

    /// Whether `path` is the first file that packing reads and does not
    /// find: the textures are read in order, the preset's file last.
    pub open spec fn first_missing(self, files: Map<Seq<char>, Seq<u8>>, path: Seq<char>) -> bool {
        &&& !files.contains_key(path)
        &&& {
            ||| exists|i: int|
                {
                    &&& 0 <= i < self.assets.len()
                    &&& #[trigger] self.assets[i].path@ == path
                    &&& forall|j: int|
                        0 <= j < i ==> files.contains_key(#[trigger] self.assets[j].path@)
                }
            ||| {
                &&& forall|j: int|
                    0 <= j < self.assets.len() ==> files.contains_key(
                        #[trigger] self.assets[j].path@,
                    )
                &&& self.path == path
            }
        }
    }

    /// The bundle that packing at the time `packed` gives.
    pub open spec fn bundle(
        self,
        files: Map<Seq<char>, Seq<u8>>,
        extra: ExtraMeta,
        packed: Seq<char>,
    ) -> BundleView {
        assembled(self.name, extra, packed, files[self.path], items_of(files, self.assets))
    }
}

impl PackablePreset {
    /// The name of the preset.
    pub fn name(&self) -> (name: &str)
        ensures
            name@ == self@.name,
    {
        self.name.as_str()
    }

    /// The textures that will be packed.
    pub fn assets(&self) -> (assets: &Vec<FoundAsset>)
        ensures
            assets@ == self@.assets,
    {
        &self.assets
    }

    /// The path of the preset's file.
    pub fn path(&self) -> (path: &str)
        ensures
            path@ == self@.path,
    {
        self.path.as_str()
    }

    /// Reads the file of every texture and pairs it with its digest.
    fn read_items(&self, files: &FileStore) -> (result: Result<Vec<PackItem>, PackError>)
        ensures
            match result {
                Ok(items) => {
                    &&& forall|i: int|
                        0 <= i < self@.assets.len() ==> files@.contains_key(
                            #[trigger] self@.assets[i].path@,
                        )
                    &&& item_views(items@) == items_of(files@, self@.assets)
                    &&& digests_well_formed(item_entries(item_views(items@)))
                },
                Err(PackError::PackIoError { path }) => exists|i: int|
                    {
                        &&& 0 <= i < self@.assets.len()
                        &&& #[trigger] self@.assets[i].path@ == path@
                        &&& !files@.contains_key(path@)
                        &&& forall|j: int|
                            0 <= j < i ==> files@.contains_key(#[trigger] self@.assets[j].path@)
                    },
                Err(_) => false,
            },
    {
        let mut items: Vec<PackItem> = Vec::new();
        let mut i: usize = 0;
        while i < self.assets.len()
            invariant
                i <= self.assets.len(),
                forall|j: int| 0 <= j < i ==> files@.contains_key(#[trigger] self.assets[j].path@),
                item_views(items@) == items_of(files@, self.assets@.take(i as int)),
                digests_well_formed(item_entries(item_views(items@))),
            decreases self.assets.len() - i,
        {
            let asset = &self.assets[i];
            let data = match files.read(asset.path.as_str()) {
                Some(data) => data,
                None => {
                    return Err(PackError::PackIoError { path: asset.path.clone() });
                },
            };
            let hash = content_hash(&data);
            let item = PackItem {
                entry: MetaEntry {
                    hash,
                    name: asset.name.clone(),
                    extension: asset.ext.clone(),
                    texture_type: asset.texture_type,
                    source_was_random: asset.random,
                },
                data,
            };
            proof {
                assert(item@ == item_of(files@, *asset));
                assert(item_views(items@.push(item)) =~= item_views(items@).push(item@));
                assert(item_entries(item_views(items@).push(item@)) =~= item_entries(
                    item_views(items@),
                ).push(item@.entry));
                assert(items_of(files@, self.assets@.take(i + 1)) =~= items_of(
                    files@,
                    self.assets@.take(i as int),
                ).push(item_of(files@, *asset)));
            }
            items.push(item);
            i = i + 1;
        }
        proof {
            assert(self.assets@.take(i as int) =~= self.assets@);
        }
        Ok(items)
    }

    /// Packs the preset as of the time `packed`.
    ///
    /// The file of every texture is read, then the preset's file. If one of
    /// them is not there, the first such file is reported and nothing is
    /// packed. Otherwise the bundle holds the preset's file, a record for
    /// every texture with the digest of its contents, and every distinct
    /// content once.
    pub fn pack_at(&self, files: &FileStore, extra_meta: ExtraMeta, packed: String) -> (result:
        Result<Bundle, PackError>)
        ensures
            match result {
                Ok(bundle) => {
                    &&& self@.readable(files@)
                    &&& bundle@ == self@.bundle(files@, extra_meta, packed@)
                    &&& well_formed_digests(bundle@)
                },
                Err(PackError::PackIoError { path }) => self@.first_missing(files@, path@),
                Err(_) => false,
            },
    {
        let items = match self.read_items(files) {
            Ok(items) => items,
            Err(error) => {
                return Err(error);
            },
        };
        let preset = match files.read(self.path.as_str()) {
            Some(preset) => preset,
            None => {
                return Err(PackError::PackIoError { path: self.path.clone() });
            },
        };
        proof {
            lemma_stored_digests_well_formed(item_views(items@));
        }
        Ok(Bundle::assemble(self.name.as_str(), extra_meta, packed, preset, &items))
    }

    /// Packs the preset as of the time `packed`, as `pack_at` does, unless
    /// two of its files have the same digest and different contents: then
    /// there is no bundle, since one of the two would be lost.
    ///
    /// A bundle that is made can be unpacked without loss, so long as no
    /// two textures of different contents go to the same path: see
    /// `Bundle::assemble_checked`.
    pub fn pack_checked_at(&self, files: &FileStore, extra_meta: ExtraMeta, packed: String) -> (result:
        Result<Option<Bundle>, PackError>)
        ensures
            match result {
                Ok(Some(bundle)) => {
                    &&& self@.readable(files@)
                    &&& digests_tell_contents(items_of(files@, self@.assets))
                    &&& bundle@ == self@.bundle(files@, extra_meta, packed@)
                    &&& well_formed_digests(bundle@)
                    &&& forall|
                        metadata_document: Seq<u8>,
                        target: Seq<char>,
                        conflicts: Seq<EntryView>,
                        local: Map<Seq<char>, Seq<u8>>,
                    |
                        targets_tell_contents(target, items_of(files@, self@.assets))
                            ==> #[trigger] arrives(
                            bundle@,
                            metadata_document,
                            target,
                            conflicts,
                            local,
                            files@[self@.path],
                            items_of(files@, self@.assets),
                        )
                },
                Ok(None) => self@.readable(files@) && !digests_tell_contents(
                    items_of(files@, self@.assets),
                ),
                Err(PackError::PackIoError { path }) => self@.first_missing(files@, path@),
                Err(_) => false,
            },
    {
        let items = match self.read_items(files) {
            Ok(items) => items,
            Err(error) => {
                return Err(error);
            },
        };
        let preset = match files.read(self.path.as_str()) {
            Some(preset) => preset,
            None => {
                return Err(PackError::PackIoError { path: self.path.clone() });
            },
        };
        proof {
            lemma_stored_digests_well_formed(item_views(items@));
        }
        Ok(Bundle::assemble_checked(self.name.as_str(), extra_meta, packed, preset, &items))
    }

    /// Packs the preset as of now: `pack_at` with the time read from the
    /// system clock. The time is the only part of the result that the
    /// arguments do not decide.
    pub fn pack(&self, files: &FileStore, extra_meta: ExtraMeta) -> (result: Result<
        Bundle,
        PackError,
    >)
        ensures
            match result {
                Ok(bundle) => {
                    &&& self@.readable(files@)
                    &&& bundle@ == self@.bundle(files@, extra_meta, bundle@.metadata.packed)
                    &&& is_timestamp(bundle@.metadata.packed)
                    &&& well_formed_digests(bundle@)
                },
                Err(PackError::PackIoError { path }) => self@.first_missing(files@, path@),
                Err(_) => false,
            },
    {
        let packed = current_timestamp();
        self.pack_at(files, extra_meta, packed)
    }

    /// Packs the preset as of now, as `pack` does, unless two of its files
    /// have the same digest and different contents: `pack_checked_at` with
    /// the time read from the system clock.
    pub fn pack_checked(&self, files: &FileStore, extra_meta: ExtraMeta) -> (result: Result<
        Option<Bundle>,
        PackError,
    >)
        ensures
            match result {
                Ok(Some(bundle)) => {
                    &&& self@.readable(files@)
                    &&& digests_tell_contents(items_of(files@, self@.assets))
                    &&& bundle@ == self@.bundle(files@, extra_meta, bundle@.metadata.packed)
                    &&& is_timestamp(bundle@.metadata.packed)
                    &&& well_formed_digests(bundle@)
                    &&& forall|
                        metadata_document: Seq<u8>,
                        target: Seq<char>,
                        conflicts: Seq<EntryView>,
                        local: Map<Seq<char>, Seq<u8>>,
                    |
                        targets_tell_contents(target, items_of(files@, self@.assets))
                            ==> #[trigger] arrives(
                            bundle@,
                            metadata_document,
                            target,
                            conflicts,
                            local,
                            files@[self@.path],
                            items_of(files@, self@.assets),
                        )
                },
                Ok(None) => self@.readable(files@) && !digests_tell_contents(
                    items_of(files@, self@.assets),
                ),
                Err(PackError::PackIoError { path }) => self@.first_missing(files@, path@),
                Err(_) => false,
            },
    {
        let packed = current_timestamp();
        self.pack_checked_at(files, extra_meta, packed)
    }
}

/// Where every item has a digest of the right form, so has every record
/// and every content that is stored for the items.
pub proof fn lemma_stored_digests_well_formed(items: Seq<ItemView>)
    requires
        digests_well_formed(item_entries(items)),
    ensures
        forall|b: int|
            0 <= b < stored_blobs(items).len() ==> is_digest(
                (#[trigger] stored_blobs(items)[b]).hash,
            ),
{
    law_stored_blobs_match_records(items);
    assert forall|b: int| 0 <= b < stored_blobs(items).len() implies is_digest(
        (#[trigger] stored_blobs(items)[b]).hash,
    ) by {
        let hash = stored_blobs(items)[b].hash;
        assert(has_blob(stored_blobs(items), hash));
        assert(has_item(items, hash));
        let i = choose|i: int| 0 <= i < items.len() && #[trigger] items[i].entry.hash == hash;
        assert(item_entries(items)[i].hash == hash);
    }
}

} // verus!
