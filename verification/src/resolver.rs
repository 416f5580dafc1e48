//! Finding the file behind a texture name.
//!
//! A texture is looked for in three directories, in this order: the one
//! that ships with the installation, the user's own, and the user's own for
//! randomized textures. In each directory the extensions are tried in a
//! fixed order. The first file found decides the outcome.

use vstd::prelude::*;
use vstd::string::StringExecFns;
use crate::files::{path_views, FileStore};
use crate::helpers::{
    join,
    joined,
    preset_file,
    preset_file_name,
    root_asset_dir,
    root_asset_path,
    saved_dir,
    saved_path,
    user_saved_dir,
};
use crate::version::{get_ks_version, reference_document, InstallError};
use crate::packer::AssetAction;
use crate::texture::{stem_of, TextureType};

verus! {

/// The number of file extensions that are tried.
pub const EXTENSIONS: usize = 3;

/// The file extensions of textures, in the order in which they are tried:
/// `png`, `jpg` and `jpeg`.
pub open spec fn extension(i: int) -> Seq<char> {
    if i == 0 {
        "png"@
    } else if i == 1 {
        "jpg"@
    } else {
        "jpeg"@
    }
}

/// The path in `dir` of the texture `name` with the `i`-th extension.
pub open spec fn candidate(dir: Seq<char>, name: Seq<char>, i: int) -> Seq<char> {
    joined(dir, name + "."@ + extension(i))
}

/// The first extension, by its index, under which `name` is present in `dir`.
pub open spec fn first_match(
    files: Map<Seq<char>, Seq<u8>>,
    dir: Seq<char>,
    name: Seq<char>,
) -> Option<int> {
    if files.contains_key(candidate(dir, name, 0)) {
        Some(0)
    } else if files.contains_key(candidate(dir, name, 1)) {
        Some(1)
    } else if files.contains_key(candidate(dir, name, 2)) {
        Some(2)
    } else {
        None
    }
}

/// What a lookup found: the decision, whether the file came from the
/// directory for randomized textures, and the file's path and extension
/// (both empty when nothing was found).
pub struct Resolution {
    pub action: AssetAction,
    pub random: bool,
    pub path: Seq<char>,
    pub ext: Seq<char>,
}

/// The outcome of looking for `name` in the three directories.
///
/// A file in the installation's directory is left out of an archive, since
/// every installation has it. A file in one of the user's directories is
/// packed. The installation's directory wins over the user's, and the
/// user's plain directory wins over the randomized one.
pub open spec fn locate(
    files: Map<Seq<char>, Seq<u8>>,
    default: Seq<char>,
    custom: Seq<char>,
    random: Seq<char>,
    name: Seq<char>,
) -> Resolution {
    if let Some(i) = first_match(files, default, name) {
        Resolution {
            action: AssetAction::Ignore,
            random: false,
            path: candidate(default, name, i),
            ext: extension(i),
        }
    } else if let Some(i) = first_match(files, custom, name) {
        Resolution {
            action: AssetAction::Pack,
            random: false,
            path: candidate(custom, name, i),
            ext: extension(i),
        }
    } else if let Some(i) = first_match(files, random, name) {
        Resolution {
            action: AssetAction::Pack,
            random: true,
            path: candidate(random, name, i),
            ext: extension(i),
        }
    } else {
        Resolution { action: AssetAction::NotFound, random: false, path: Seq::empty(), ext: Seq::empty() }
    }
}

/// Whether `name` is present in one of the user's two directories. The
/// installation's directory plays no part.
pub open spec fn present_locally(
    files: Map<Seq<char>, Seq<u8>>,
    custom: Seq<char>,
    random: Seq<char>,
    name: Seq<char>,
) -> bool {
    first_match(files, custom, name) is Some || first_match(files, random, name) is Some
}

/// The `i`-th file extension; the last one for every `i` from the number
/// of extensions on.
pub fn extension_at(i: usize) -> (ext: &'static str)
    ensures
        ext@ == extension(i as int),
{
    if i == 0 {
        "png"
    } else if i == 1 {
        "jpg"
    } else {
        "jpeg"
    }
}

/// Looks in `dir` for the texture `name` under each extension in turn, and
/// returns the path and the extension of the first file that is present.
pub fn find_in(files: &FileStore, dir: &str, name: &str) -> (found: Option<(String, &'static str)>)
    ensures
        found is Some <==> first_match(files@, dir@, name@) is Some,
        found matches Some(hit) ==> {
            let i = first_match(files@, dir@, name@)->0;
            hit.0@ == candidate(dir@, name@, i) && hit.1@ == extension(i)
        },
{
    let mut i: usize = 0;
    while i < EXTENSIONS
        invariant
            i <= EXTENSIONS,
            forall|j: int| 0 <= j < i ==> !files@.contains_key(candidate(dir@, name@, j)),
        decreases EXTENSIONS - i,
    {
        let ext = extension_at(i);
        let file_name = String::from_str(name).concat(".").concat(ext);
        let current = join(dir, file_name.as_str());
        if files.contains(current.as_str()) {
            return Some((current, ext));
        }
        i = i + 1;
    }
    None
}

/// The paths at which `name` is looked for in `dir`, in the order in which
/// they are tried.
pub open spec fn dir_candidates(dir: Seq<char>, name: Seq<char>) -> Seq<Seq<char>> {
    Seq::new(EXTENSIONS as nat, |i: int| candidate(dir, name, i))
}

/// The paths at which `name` is looked for in `dir`, in the order in which
/// they are tried. No lookup in `dir` reads any other path.
pub fn candidates_in(dir: &str, name: &str) -> (paths: Vec<String>)
    ensures
        path_views(paths@) == dir_candidates(dir@, name@),
{
    let mut paths: Vec<String> = Vec::new();
    let mut i: usize = 0;
    while i < EXTENSIONS
        invariant
            i <= EXTENSIONS,
            path_views(paths@) == dir_candidates(dir@, name@).take(i as int),
        decreases EXTENSIONS - i,
    {
        let file_name = String::from_str(name).concat(".").concat(extension_at(i));
        let path = join(dir, file_name.as_str());
        proof {
            assert(path_views(paths@.push(path)) =~= path_views(paths@).push(path@));
            assert(dir_candidates(dir@, name@).take(i + 1) =~= dir_candidates(dir@, name@).take(
                i as int,
            ).push(candidate(dir@, name@, i as int)));
        }
        paths.push(path);
        i = i + 1;
    }
    proof {
        assert(dir_candidates(dir@, name@).take(i as int) =~= dir_candidates(dir@, name@));
    }
    paths
}

/// The three directories in which textures of one category are looked for.
#[derive(Clone, Debug, PartialEq, Eq)]
pub struct PathStem {
    pub default: String,
    pub custom: String,
    pub random: String,
}

/// What is to be done with a referenced texture.
#[derive(Clone, Debug, PartialEq, Eq, Hash)]
pub enum FileAction {
    /// No file was found.
    NotFound,
    /// The file ships with the installation.
    DontPack,
    /// The file is the user's own, at `path`.
    Pack { path: String, random: bool },
}

/// Whether `action` is what `found` stands for.
pub open spec fn action_matches(action: FileAction, found: Resolution) -> bool {
    match action {
        FileAction::NotFound => found.action == AssetAction::NotFound,
        FileAction::DontPack => found.action == AssetAction::Ignore,
        FileAction::Pack { path, random } => found.action == AssetAction::Pack && path@
            == found.path && random == found.random,
    }
}

/// A texture that a preset refers to, with what is to be done with it.
#[derive(Clone, Debug, PartialEq, Eq, Hash)]
pub struct PresetAsset {
    pub name: String,
    pub typ: TextureType,
    pub src: FileAction,
}

/// The directories of one installation and one user.
#[derive(Clone, Debug)]
pub struct Resolver {
    install: String,
    custom: String,
}

impl Resolver {
    /// The installation root.
    pub closed spec fn install(&self) -> Seq<char> {
        self.install@
    }

    /// The directory that holds what the user saved.
    pub closed spec fn custom(&self) -> Seq<char> {
        self.custom@
    }

    /// The directories of category `typ`, as `stem_from_name` gives them.
    pub open spec fn stem_default(&self, typ: TextureType) -> Seq<char> {
        joined(root_asset_path(self.install()), stem_of(typ))
    }

    pub open spec fn stem_custom(&self, typ: TextureType) -> Seq<char> {
        joined(joined(self.custom(), "Textures"@), stem_of(typ))
    }

    pub open spec fn stem_random(&self, typ: TextureType) -> Seq<char> {
        joined(joined(self.custom(), "Textures (randomizer enabled)"@), stem_of(typ))
    }

    /// The path at which the user's preset `name` is stored.
    pub open spec fn preset_location(&self, name: Seq<char>) -> Seq<char> {
        joined(joined(self.custom(), "Presets"@), preset_file_name(name))
    }

    /// A resolver for the installation at `install` and the local data
    /// directory `data_local`.
    pub fn new(install: &str, data_local: &str) -> (resolver: Resolver)
        ensures
            resolver.install() == install@,
            resolver.custom() == saved_path(data_local@),
    {
        Resolver { install: String::from_str(install), custom: saved_dir(data_local) }
    }

    /// A resolver for the installation at `install` and the user of this
    /// system, if the system has a local data directory.
    pub fn for_user(install: &str) -> (resolver: Option<Resolver>)
        ensures
            resolver matches Some(made) ==> made.install() == install@ && exists|
                data_local: Seq<char>,
            |
                made.custom() == saved_path(data_local),
    {
        Resolver::with_saved_dir(install, user_saved_dir())
    }

    /// A resolver for the installation at `install` and a user whose saved
    /// files are in the directory `saved`; none for a user who has no such
    /// directory.
    pub fn with_saved_dir(install: &str, saved: Option<String>) -> (resolver: Option<Resolver>)
        ensures
            match saved {
                Some(dir) => resolver matches Some(made) && made.install() == install@
                    && made.custom() == dir@,
                None => resolver is None,
            },
    {
        match saved {
            Some(custom) => Some(Resolver { install: String::from_str(install), custom }),
            None => None,
        }
    }

    /// The version of the installation.
    ///
    /// `marker` is the version that decoding the reference preset gave,
    /// `None` if the preset could not be decoded or tells no version; it is
    /// looked at only if the preset is present. The version is returned as
    /// it was read.
    pub fn identify(&self, files: &FileStore, marker: Option<u32>) -> (result: Result<
        u32,
        InstallError,
    >)
        ensures
            match result {
                Err(InstallError::NotAnInstallation) => !files@.contains_key(
                    reference_document(self.install()),
                ),
                Err(InstallError::MalformedInstallation) => files@.contains_key(
                    reference_document(self.install()),
                ) && marker is None,
                Ok(version) => files@.contains_key(reference_document(self.install())) && marker
                    == Some(version),
            },
    {
        get_ks_version(files, self.install.as_str(), marker)
    }

    /// The path at which the user's preset `name` is stored.
    pub fn preset_path(&self, name: &str) -> (path: String)
        ensures
            path@ == self.preset_location(name@),
    {
        let presets = join(self.custom.as_str(), "Presets");
        let file = preset_file(name);
        join(presets.as_str(), file.as_str())
    }

    /// The path of the user's preset `name`, if the preset is present.
    pub fn get_preset(&self, files: &FileStore, name: &str) -> (path: Option<String>)
        ensures
            path is Some <==> files@.contains_key(self.preset_location(name@)),
            path matches Some(p) ==> p@ == self.preset_location(name@),
    {
        let v = self.preset_path(name);
        if files.contains(v.as_str()) {
            Some(v)
        } else {
            None
        }
    }

    /// Whether the texture `name` is present in one of the user's own
    /// directories of `stem`. The installation's directory is not looked at.
    pub fn test_file(&self, files: &FileStore, stem: &PathStem, name: &str) -> (present: bool)
        ensures
            present == present_locally(files@, stem.custom@, stem.random@, name@),
    {
        if find_in(files, stem.custom.as_str(), name).is_some() {
            return true;
        }
        find_in(files, stem.random.as_str(), name).is_some()
    }

    /// Decides what is to be done with the texture `name`, whose category
    /// has the directories `stem`.
    pub fn action_for_file(&self, files: &FileStore, stem: &PathStem, name: &str) -> (action:
        FileAction)
        ensures
            action_matches(action, locate(files@, stem.default@, stem.custom@, stem.random@, name@)),
    {
        let path = find_in(files, stem.default.as_str(), name);
        if let Some(_) = path {
            return FileAction::DontPack;
        }
        let path = find_in(files, stem.custom.as_str(), name);
        if let Some(found) = path {
            return FileAction::Pack { path: found.0, random: false };
        }
        let path = find_in(files, stem.random.as_str(), name);
        if let Some(found) = path {
            return FileAction::Pack { path: found.0, random: true };
        }
        FileAction::NotFound
    }

    /// The three directories in which textures of category `name` are
    /// looked for.
    pub fn stem_from_name(&self, name: TextureType) -> (stem: PathStem)
        ensures
            stem.default@ == self.stem_default(name),
            stem.custom@ == self.stem_custom(name),
            stem.random@ == self.stem_random(name),
    {
        let n = name.path_name();
        let default_root = root_asset_dir(self.install.as_str());
        let custom_root = join(self.custom.as_str(), "Textures");
        let random_root = join(self.custom.as_str(), "Textures (randomizer enabled)");
        PathStem {
            default: join(default_root.as_str(), n),
            custom: join(custom_root.as_str(), n),
            random: join(random_root.as_str(), n),
        }
    }
}

} // verus!
