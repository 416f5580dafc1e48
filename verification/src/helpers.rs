//! The directories of an installation and of the user's own data.
//!
//! A path is a string whose parts are separated by `/`. The installation
//! root and the user's local data directory are given by the caller; every
//! other directory is one of them followed by fixed names.

use vstd::prelude::*;
use vstd::string::{StrSliceExecFns, StringExecFns};
use crate::files::path_views;

verus! {

/// The path of `part` inside the directory `base`.
pub open spec fn joined(base: Seq<char>, part: Seq<char>) -> Seq<char> {
    base + "/"@ + part
}

/// The directory of the presets that ship with the installation at `install`.
pub open spec fn root_preset_path(install: Seq<char>) -> Seq<char> {
    joined(joined(joined(install, "Keysight"@), "Default presets"@), "Standard"@)
}

/// The directory of the textures that ship with the installation at `install`.
pub open spec fn root_asset_path(install: Seq<char>) -> Seq<char> {
    joined(joined(install, "Keysight"@), "Default textures"@)
}

/// The directory below the local data directory that holds what the user saved.
pub open spec fn saved_path(data_local: Seq<char>) -> Seq<char> {
    joined(joined(data_local, "Keysight"@), "Saved"@)
}

/// The directory of the user's own presets.
pub open spec fn custom_preset_path(data_local: Seq<char>) -> Seq<char> {
    joined(saved_path(data_local), "Presets"@)
}

/// The directory of the user's own textures: the plain one, or the one for
/// textures that take part in randomizing.
pub open spec fn custom_asset_path(data_local: Seq<char>, random: bool) -> Seq<char> {
    joined(
        saved_path(data_local),
        if random {
            "Textures (randomizer enabled)"@
        } else {
            "Textures"@
        },
    )
}

/// The file name under which the preset `name` is stored.
pub open spec fn preset_file_name(name: Seq<char>) -> Seq<char> {
    name + ".json"@
}

/// Calls `dirs::data_local_dir` and turns the path it returns into a
/// string. The result depends on the user and the system, so nothing is
/// assumed of it. `None` stands for a system that has no such directory, or
/// whose directory is not valid Unicode.
#[verifier::external_body]
pub(crate) fn data_local_dir() -> Option<String> {
    match dirs::data_local_dir() {
        Some(path) => path.into_os_string().into_string().ok(),
        None => None,
    }
}

/// The directory that holds what the user of this system saved, if the
/// system has a local data directory.
pub fn user_saved_dir() -> (dir: Option<String>)
    ensures
        dir matches Some(saved) ==> exists|data_local: Seq<char>| saved@ == saved_path(data_local),
{
    saved_dir_below(data_local_dir())
}

/// The directory that holds what a user saved whose local data directory
/// is `data_local`; none for a user who has no local data directory.
pub fn saved_dir_below(data_local: Option<String>) -> (dir: Option<String>)
    ensures
        match data_local {
            Some(root) => dir matches Some(saved) && saved@ == saved_path(root@),
            None => dir is None,
        },
{
    match data_local {
        Some(root) => Some(saved_dir(root.as_str())),
        None => None,
    }
}

/// The directory of the presets of the user of this system, if the system
/// has a local data directory.
pub fn user_preset_dir() -> (dir: Option<String>)
    ensures
        dir matches Some(presets) ==> exists|data_local: Seq<char>|
            presets@ == custom_preset_path(data_local),
{
    preset_dir_below(data_local_dir())
}

/// The directory of the presets of a user whose local data directory is
/// `data_local`; none for a user who has no local data directory.
pub fn preset_dir_below(data_local: Option<String>) -> (dir: Option<String>)
    ensures
        match data_local {
            Some(root) => dir matches Some(presets) && presets@ == custom_preset_path(root@),
            None => dir is None,
        },
{
    match data_local {
        Some(root) => Some(custom_preset_dir(root.as_str())),
        None => None,
    }
}

/// The path of `part` inside the directory `base`.
pub fn join(base: &str, part: &str) -> (path: String)
    ensures
        path@ == joined(base@, part@),
{
    String::from_str(base).concat("/").concat(part)
}

/// The file name under which the preset `name` is stored.
pub fn preset_file(name: &str) -> (file: String)
    ensures
        file@ == preset_file_name(name@),
{
    String::from_str(name).concat(".json")
}

/// The directory of the presets that ship with the installation.
pub fn root_preset_dir(install_path: &str) -> (dir: String)
    ensures
        dir@ == root_preset_path(install_path@),
{
    let keysight = join(install_path, "Keysight");
    let presets = join(keysight.as_str(), "Default presets");
    join(presets.as_str(), "Standard")
}

/// The directory of the textures that ship with the installation.
pub fn root_asset_dir(install_path: &str) -> (dir: String)
    ensures
        dir@ == root_asset_path(install_path@),
{
    let keysight = join(install_path, "Keysight");
    join(keysight.as_str(), "Default textures")
}

/// The directory below the local data directory that holds what the user saved.
pub fn saved_dir(data_local: &str) -> (dir: String)
    ensures
        dir@ == saved_path(data_local@),
{
    let keysight = join(data_local, "Keysight");
    join(keysight.as_str(), "Saved")
}

/// The directory of the user's own presets.
pub fn custom_preset_dir(data_local: &str) -> (dir: String)
    ensures
        dir@ == custom_preset_path(data_local@),
{
    let saved = saved_dir(data_local);
    join(saved.as_str(), "Presets")
}

/// The directory of the user's own textures.
pub fn custom_asset_dir(data_local: &str, random: bool) -> (dir: String)
    ensures
        dir@ == custom_asset_path(data_local@, random),
{
    let saved = saved_dir(data_local);
    join(
        saved.as_str(),
        if random {
            "Textures (randomizer enabled)"
        } else {
            "Textures"
        },
    )
}

/// Whether `text` ends with `suffix`.
pub open spec fn has_suffix(text: Seq<char>, suffix: Seq<char>) -> bool {
    suffix.len() <= text.len() && text.subrange(text.len() - suffix.len(), text.len() as int)
        == suffix
}

/// The file name of an archive: `path` itself if it ends in `.kspreset`,
/// else `path` with that extension added.
pub open spec fn with_archive_extension(path: Seq<char>) -> Seq<char> {
    if has_suffix(path, ".kspreset"@) {
        path
    } else {
        path + ".kspreset"@
    }
}

/// Whether `text` ends with `suffix`.
pub fn ends_with(text: &str, suffix: &str) -> (ends: bool)
    ensures
        ends == has_suffix(text@, suffix@),
{
    let length = text.unicode_len();
    let wanted = suffix.unicode_len();
    if wanted > length {
        return false;
    }
    let start = length - wanted;
    let ghost tail = text@.subrange(start as int, length as int);
    let mut i: usize = 0;
    while i < wanted
        invariant
            i <= wanted,
            wanted == suffix@.len(),
            length == text@.len(),
            start == length - wanted,
            tail == text@.subrange(start as int, length as int),
            forall|j: int| 0 <= j < i ==> tail[j] == suffix@[j],
        decreases wanted - i,
    {
        if text.get_char(start + i) != suffix.get_char(i) {
            assert(tail[i as int] != suffix@[i as int]);
            return false;
        }
        i = i + 1;
    }
    assert(tail =~= suffix@);
    true
}

/// The file name of an archive: `s` itself if it ends in `.kspreset`, else
/// `s` with that extension added.
pub fn ensure_file_ext(s: &str) -> (path: String)
    ensures
        path@ == with_archive_extension(s@),
{
    if ends_with(s, ".kspreset") {
        String::from_str(s)
    } else {
        String::from_str(s).concat(".kspreset")
    }
}

/// The place of the last dot in `name`, or -1 if `name` has no dot.
pub open spec fn last_dot(name: Seq<char>) -> int
    decreases name.len(),
{
    if name.len() == 0 {
        -1
    } else if name.last() == '.' {
        name.len() - 1
    } else {
        last_dot(name.drop_last())
    }
}

/// A file name without its extension: what stands before the last dot. A
/// name without a dot, or whose only dot is its first character, has no
/// extension.
pub open spec fn stem(name: Seq<char>) -> Seq<char> {
    if last_dot(name) <= 0 {
        name
    } else {
        name.subrange(0, last_dot(name))
    }
}

/// The stems of a list of file names.
pub open spec fn stems(names: Seq<String>) -> Seq<Seq<char>> {
    Seq::new(names.len(), |i: int| stem(names[i]@))
}

/// No dot stands behind the last dot.
proof fn lemma_last_dot(name: Seq<char>, from: int)
    requires
        0 <= from <= name.len(),
        forall|j: int| from <= j < name.len() ==> name[j] != '.',
    ensures
        last_dot(name) == last_dot(name.take(from)),
    decreases name.len() - from,
{
    if from == name.len() {
        assert(name.take(from) =~= name);
    } else {
        assert(name.drop_last().take(from) =~= name.take(from));
        lemma_last_dot(name.drop_last(), from);
    }
}

/// A file name without its extension.
pub fn file_stem(name: &str) -> (short: String)
    ensures
        short@ == stem(name@),
{
    let length = name.unicode_len();
    let mut i: usize = length;
    while i > 0
        invariant
            i <= length,
            length == name@.len(),
            forall|j: int| i <= j < length ==> name@[j] != '.',
        decreases i,
    {
        if name.get_char(i - 1) == '.' {
            proof {
                lemma_last_dot(name@, i as int);
                assert(name@.take(i as int).last() == '.');
            }
            if i - 1 == 0 {
                return String::from_str(name);
            }
            return String::from_str(name.substring_char(0, i - 1));
        }
        i = i - 1;
    }
    proof {
        lemma_last_dot(name@, 0);
        assert(name@.take(0) =~= Seq::<char>::empty());
    }
    String::from_str(name)
}

/// The names of the presets that are stored in the files `file_names`:
/// every file name without its extension, in the same order.
pub fn list_all_presets(file_names: &Vec<String>) -> (presets: Vec<String>)
    ensures
        path_views(presets@) == stems(file_names@),
{
    let mut presets: Vec<String> = Vec::new();
    let mut i: usize = 0;
    while i < file_names.len()
        invariant
            i <= file_names.len(),
            path_views(presets@) == stems(file_names@).take(i as int),
        decreases file_names.len() - i,
    {
        let name = file_stem(file_names[i].as_str());
        proof {
            assert(path_views(presets@.push(name)) =~= path_views(presets@).push(name@));
            assert(stems(file_names@).take(i + 1) =~= stems(file_names@).take(i as int).push(
                stem(file_names@[i as int]@),
            ));
        }
        presets.push(name);
        i = i + 1;
    }
    proof {
        assert(stems(file_names@).take(i as int) =~= stems(file_names@));
    }
    presets
}

} // verus!
