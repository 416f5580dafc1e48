//! The textures of a preset, each with what is to be done with it.

use vstd::prelude::*;
use vstd::string::StringExecFns;
use crate::files::FileStore;
use crate::preset::{dedup, document_refs, extract_references, keys, AssetKey, PresetDocument};
use crate::resolver::{action_matches, locate, PresetAsset, Resolver};
use crate::texture::TextureType;

verus! {

/// Whether `asset` is the texture `key` with the decision that `resolver`
/// makes for it.
pub open spec fn decided(
    asset: PresetAsset,
    files: Map<Seq<char>, Seq<u8>>,
    resolver: Resolver,
    key: AssetKey,
) -> bool {
    &&& asset.name@ == key.name
    &&& asset.typ == key.typ
    &&& action_matches(
        asset.src,
        locate(
            files,
            resolver.stem_default(key.typ),
            resolver.stem_custom(key.typ),
            resolver.stem_random(key.typ),
            key.name,
        ),
    )
}

/// Whether `assets` lists the textures `wanted`, one for one, each with
/// the decision that `resolver` makes for it.
pub open spec fn all_decided(
    assets: Seq<PresetAsset>,
    files: Map<Seq<char>, Seq<u8>>,
    resolver: Resolver,
    wanted: Seq<AssetKey>,
) -> bool {
    &&& assets.len() == wanted.len()
    &&& forall|i: int|
        0 <= i < assets.len() ==> decided(#[trigger] assets[i], files, resolver, wanted[i])
}

/// A preset and the textures it names: those that are to be packed, those
/// that ship with the installation, and those that are missing.
#[derive(Debug)]
pub struct PresetInfo {
    preset_file: String,
    resolver: Resolver,
    pub files: Vec<PresetAsset>,
}

impl PresetInfo {
    /// The name of the preset.
    pub closed spec fn preset_name(&self) -> Seq<char> {
        self.preset_file@
    }

    /// The textures that are listed.
    pub closed spec fn listed(&self) -> Seq<PresetAsset> {
        self.files@
    }

    /// The resolver that decides on the textures.
    pub closed spec fn resolver(&self) -> Resolver {
        self.resolver
    }

    /// The textures that are listed.
    pub fn assets(&self) -> (assets: &Vec<PresetAsset>)
        ensures
            assets@ == self.listed(),
    {
        &self.files
    }

    /// The preset `v`, with no texture looked at yet.
    pub fn new(v: &str, resv: Resolver) -> (info: PresetInfo)
        ensures
            info.preset_name() == v@,
            info.resolver() == resv,
            info.listed().len() == 0,
    {
        PresetInfo { preset_file: String::from_str(v), resolver: resv, files: Vec::new() }
    }

    /// Takes the textures that `data` names, each once and in the order in
    /// which the document first names it, and decides on each. What was
    /// listed before is replaced.
    pub fn load(&mut self, files: &FileStore, data: &PresetDocument)
        ensures
            final(self).preset_name() == old(self).preset_name(),
            final(self).resolver() == old(self).resolver(),
            all_decided(
                final(self).listed(),
                files@,
                old(self).resolver(),
                dedup(document_refs(*data)),
            ),
    {
        let refs = extract_references(data);
        let ghost wanted = keys(refs@);
        let mut found: Vec<PresetAsset> = Vec::new();
        let mut i: usize = 0;
        while i < refs.len()
            invariant
                i <= refs.len(),
                wanted == keys(refs@),
                self.resolver() == old(self).resolver(),
                self.preset_name() == old(self).preset_name(),
                all_decided(found@, files@, self.resolver(), wanted.take(i as int)),
            decreases refs.len() - i,
        {
            let asset = self.file_from_kn(files, refs[i].typ, refs[i].name.as_str());
            assert(wanted[i as int] == refs@[i as int].key());
            found.push(asset);
            i = i + 1;
        }
        proof {
            assert(wanted.take(i as int) =~= wanted);
        }
        self.files = found;
    }

    /// The texture `file` of category `typ`, with what is to be done with it.
    pub fn file_from_kn(&self, files: &FileStore, typ: TextureType, file: &str) -> (asset:
        PresetAsset)
        ensures
            decided(asset, files@, self.resolver(), AssetKey { name: file@, typ }),
    {
        let path = self.resolver.stem_from_name(typ);
        let action = self.resolver.action_for_file(files, &path, file);
        PresetAsset { name: String::from_str(file), typ, src: action }
    }
}

} // verus!
