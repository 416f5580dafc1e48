//! What holds of packing and unpacking, whatever the preset and the files.

use vstd::prelude::*;
use crate::bundle::{
    assembled,
    blob_entry,
    item_entries,
    BundleView,
    ExtraMeta,
    has_blob,
    layout,
    metadata_entry,
    preset_entry,
    stored_blobs,
    with_blobs,
    BlobView,
    ItemView,
};

use crate::files::{written, FileView};
use crate::helpers::{custom_asset_path, custom_preset_path, preset_file_name, saved_path};
use crate::metadata::EntryView;
use crate::helpers::{joined, root_asset_path};
use crate::packer::{
    asset_candidates,
    items_for,
    PackerView,
    lookups_of,
    packed_keys,
    resolve,
    AssetAction,
    FoundAsset,
};
use crate::preset::{
    dedup,
    document_refs,
    lemma_with_keys_distinct,
    materials_refs,
    particle_block_refs,
    pulse_block_refs,
    AssetKey,
    PresetDocument,
};
use crate::resolver::{
    candidate,
    dir_candidates,
    extension,
    first_match,
    locate,
    present_locally,
    Resolver,
};
use crate::texture::{stem_of, TextureType};
use crate::unpacker::{
    asset_target,
    conflicting,
    entry_conflicts,
    local_candidates,
    preset_target,
    PackedView,
};

verus! {

/// Whether an item of `items` has the digest `hash`.
pub open spec fn has_item(items: Seq<ItemView>, hash: Seq<char>) -> bool {
    exists|i: int| 0 <= i < items.len() && #[trigger] items[i].entry.hash == hash
}

/// Whether `items[i]` is the first item with its digest.
pub open spec fn first_with_digest(items: Seq<ItemView>, i: int) -> bool {
    &&& 0 <= i < items.len()
    &&& forall|j: int| 0 <= j < i ==> #[trigger] items[j].entry.hash != items[i].entry.hash
}

/// Whether `blob` is the digest and the contents of the first item of
/// `items` that has this digest.
pub open spec fn stored_from(items: Seq<ItemView>, blob: BlobView) -> bool {
    exists|i: int|
        {
            &&& first_with_digest(items, i)
            &&& #[trigger] items[i].entry.hash == blob.hash
            &&& items[i].data == blob.data
        }
}

/// The contents stored for a list of items are exactly the contents that
/// the records refer to: every digest of a record is stored, every stored
/// digest is that of a record, no digest is stored twice, and what is
/// stored under a digest is the contents of the first item that has it.
pub proof fn law_stored_blobs_match_records(items: Seq<ItemView>)
    ensures
        forall|hash: Seq<char>| has_blob(stored_blobs(items), hash) <==> has_item(items, hash),
        forall|a: int, b: int|
            0 <= a < b < stored_blobs(items).len() ==> (#[trigger] stored_blobs(items)[a]).hash
                != (#[trigger] stored_blobs(items)[b]).hash,
        forall|b: int|
            0 <= b < stored_blobs(items).len() ==> stored_from(
                items,
                #[trigger] stored_blobs(items)[b],
            ),
    decreases items.len(),
{
    if items.len() > 0 {
        let earlier = items.drop_last();
        let last = items.last();
        let before = stored_blobs(earlier);
        let after = stored_blobs(items);
        law_stored_blobs_match_records(earlier);
        assert forall|hash: Seq<char>| has_blob(after, hash) <==> has_item(items, hash) by {
            if has_item(items, hash) {
                let i = choose|i: int| 0 <= i < items.len() && #[trigger] items[i].entry.hash == hash;
                if i < items.len() - 1 {
                    assert(earlier[i].entry.hash == hash);
                    assert(has_item(earlier, hash));
                    let b = choose|b: int| 0 <= b < before.len() && #[trigger] before[b].hash == hash;
                    assert(after[b].hash == hash);
                } else {
                    if has_blob(before, hash) {
                    } else {
                        assert(after[before.len() as int].hash == hash);
                    }
                }
            }
            if has_blob(after, hash) {
                let b = choose|b: int| 0 <= b < after.len() && #[trigger] after[b].hash == hash;
                if b < before.len() {
                    assert(before[b].hash == hash);
                    assert(has_item(earlier, hash));
                    let i = choose|i: int|
                        0 <= i < earlier.len() && #[trigger] earlier[i].entry.hash == hash;
                    assert(items[i].entry.hash == hash);
                } else {
                    assert(items[items.len() - 1].entry.hash == hash);
                }
            }
        }
        assert forall|a: int, b: int| 0 <= a < b < after.len() implies (#[trigger] after[a]).hash != (
        #[trigger] after[b]).hash by {
            if b < before.len() {
                assert(before[a].hash != before[b].hash);
            } else {
                assert(before[a].hash == after[a].hash);
            }
        }
        assert forall|b: int| 0 <= b < after.len() implies stored_from(
            items,
            #[trigger] after[b],
        ) by {
            if b < before.len() {
                assert(stored_from(earlier, before[b]));
                let i = choose|i: int|
                    {
                        &&& first_with_digest(earlier, i)
                        &&& #[trigger] earlier[i].entry.hash == before[b].hash
                        &&& earlier[i].data == before[b].data
                    };
                assert(forall|j: int| 0 <= j < i ==> earlier[j] == items[j]);
                assert(first_with_digest(items, i));
                assert(items[i].entry.hash == after[b].hash);
            } else {
                let i = items.len() - 1;
                assert(!has_item(earlier, last.entry.hash));
                assert forall|j: int| 0 <= j < i implies #[trigger] items[j].entry.hash
                    != items[i].entry.hash by {
                    assert(earlier[j].entry.hash == items[j].entry.hash);
                }
                assert(first_with_digest(items, i));
                assert(items[i].entry.hash == after[b].hash);
            }
        }
    }
}

/// Two contents with different digests are stored under different names.
pub proof fn lemma_blob_entries_differ(first: Seq<char>, second: Seq<char>)
    requires
        first != second,
    ensures
        blob_entry(first) != blob_entry(second),
{
    let prefix = "assets/"@;
    assert((prefix + first).subrange(prefix.len() as int, (prefix + first).len() as int) =~= first);
    assert((prefix + second).subrange(prefix.len() as int, (prefix + second).len() as int)
        =~= second);
}

/// The preset, the index and a content have three different names.
pub proof fn lemma_entry_names_differ(hash: Seq<char>)
    ensures
        blob_entry(hash) != preset_entry(),
        blob_entry(hash) != metadata_entry(),
        preset_entry() != metadata_entry(),
{
    reveal_strlit("assets/");
    reveal_strlit("preset.json");
    reveal_strlit("metadata.json");
    assert(blob_entry(hash)[0] == 'a');
    assert(preset_entry()[0] == 'p');
    assert(metadata_entry()[0] == 'm');
}

/// Whether no two blobs of `blobs` have the same digest.
pub open spec fn distinct_digests(blobs: Seq<BlobView>) -> bool {
    forall|a: int, b: int|
        0 <= a < b < blobs.len() ==> (#[trigger] blobs[a]).hash != (#[trigger] blobs[b]).hash
}

/// Whether `name` is the entry name of one of `blobs`.
pub open spec fn has_blob_entry(blobs: Seq<BlobView>, name: Seq<char>) -> bool {
    exists|b: int| 0 <= b < blobs.len() && blob_entry((#[trigger] blobs[b]).hash) == name
}

/// Adding blobs to a set of entries adds each under its own name and
/// leaves the other names as they were.
pub proof fn lemma_with_blobs(entries: Map<Seq<char>, Seq<u8>>, blobs: Seq<BlobView>)
    requires
        distinct_digests(blobs),
    ensures
        forall|b: int|
            0 <= b < blobs.len() ==> {
                &&& with_blobs(entries, blobs).contains_key(blob_entry((#[trigger] blobs[b]).hash))
                &&& with_blobs(entries, blobs)[blob_entry(blobs[b].hash)] == blobs[b].data
            },
        forall|name: Seq<char>|
            !#[trigger] has_blob_entry(blobs, name) ==> {
                &&& with_blobs(entries, blobs).contains_key(name) == entries.contains_key(name)
                &&& entries.contains_key(name) ==> with_blobs(entries, blobs)[name] == entries[name]
            },
    decreases blobs.len(),
{
    if blobs.len() > 0 {
        let earlier = blobs.drop_last();
        let last = blobs.last();
        assert(distinct_digests(earlier)) by {
            assert forall|a: int, b: int| 0 <= a < b < earlier.len() implies (
            #[trigger] earlier[a]).hash != (#[trigger] earlier[b]).hash by {
                assert(blobs[a].hash != blobs[b].hash);
            }
        }
        lemma_with_blobs(entries, earlier);
        assert forall|b: int| 0 <= b < blobs.len() implies {
            &&& with_blobs(entries, blobs).contains_key(blob_entry((#[trigger] blobs[b]).hash))
            &&& with_blobs(entries, blobs)[blob_entry(blobs[b].hash)] == blobs[b].data
        } by {
            if b < blobs.len() - 1 {
                assert(earlier[b] == blobs[b]);
                assert(blobs[b].hash != blobs[blobs.len() - 1].hash);
                lemma_blob_entries_differ(blobs[b].hash, last.hash);
            }
        }
        assert forall|name: Seq<char>| !#[trigger] has_blob_entry(blobs, name) implies {
            &&& with_blobs(entries, blobs).contains_key(name) == entries.contains_key(name)
            &&& entries.contains_key(name) ==> with_blobs(entries, blobs)[name] == entries[name]
        } by {
            if has_blob_entry(earlier, name) {
                let b = choose|b: int|
                    0 <= b < earlier.len() && blob_entry((#[trigger] earlier[b]).hash) == name;
                assert(blob_entry(blobs[b].hash) == name);
            }
            assert(blob_entry(blobs[blobs.len() - 1].hash) != name);
        }
    }
}

/// The entries of an archive are the preset's file, the index, and one
/// entry for each stored content; under each name stands what was put there.
pub proof fn law_layout_holds_three_regions(
    preset: Seq<u8>,
    metadata: crate::metadata::MetaView,
    blobs: Seq<BlobView>,
    metadata_document: Seq<u8>,
)
    requires
        distinct_digests(blobs),
    ensures
        ({
            let archive = layout(
                crate::bundle::BundleView { preset, metadata, blobs },
                metadata_document,
            );
            &&& archive.contains_key(preset_entry()) && archive[preset_entry()] == preset
            &&& archive.contains_key(metadata_entry()) && archive[metadata_entry()]
                == metadata_document
            &&& forall|b: int|
                0 <= b < blobs.len() ==> archive.contains_key(
                    blob_entry((#[trigger] blobs[b]).hash),
                ) && archive[blob_entry(blobs[b].hash)] == blobs[b].data
            &&& forall|name: Seq<char>|
                archive.contains_key(name) ==> name == preset_entry() || name == metadata_entry()
                    || has_blob_entry(blobs, name)
        }),
{
    let base = Map::<Seq<char>, Seq<u8>>::empty().insert(preset_entry(), preset).insert(
        metadata_entry(),
        metadata_document,
    );
    let archive = with_blobs(base, blobs);
    lemma_with_blobs(base, blobs);
    lemma_entry_names_differ(Seq::empty());
    assert(!has_blob_entry(blobs, preset_entry())) by {
        if has_blob_entry(blobs, preset_entry()) {
            let b = choose|b: int|
                0 <= b < blobs.len() && blob_entry((#[trigger] blobs[b]).hash) == preset_entry();
            lemma_entry_names_differ(blobs[b].hash);
        }
    }
    assert(!has_blob_entry(blobs, metadata_entry())) by {
        if has_blob_entry(blobs, metadata_entry()) {
            let b = choose|b: int|
                0 <= b < blobs.len() && blob_entry((#[trigger] blobs[b]).hash) == metadata_entry();
            lemma_entry_names_differ(blobs[b].hash);
        }
    }
    assert forall|name: Seq<char>| archive.contains_key(name) implies name == preset_entry()
        || name == metadata_entry() || has_blob_entry(blobs, name) by {
        if !has_blob_entry(blobs, name) {
            assert(base.contains_key(name));
        }
    }
}

/// After a list of writes, a path holds what the last write to it put
/// there.
pub proof fn lemma_written_holds(files: Map<Seq<char>, Seq<u8>>, writes: Seq<FileView>, k: int)
    requires
        0 <= k < writes.len(),
        forall|j: int|
            k < j < writes.len() && (#[trigger] writes[j]).path == writes[k].path ==> writes[j].data
                == writes[k].data,
    ensures
        written(files, writes).contains_key(writes[k].path),
        written(files, writes)[writes[k].path] == writes[k].data,
    decreases writes.len(),
{
    if k < writes.len() - 1 {
        let earlier = writes.drop_last();
        assert(earlier[k] == writes[k]);
        assert forall|j: int|
            k < j < earlier.len() && (#[trigger] earlier[j]).path == earlier[k].path implies earlier[j].data
            == earlier[k].data by {
            assert(earlier[j] == writes[j]);
        }
        lemma_written_holds(files, earlier, k);
        let last = writes[writes.len() - 1];
        assert(last.path == writes[k].path ==> last.data == writes[k].data);
    }
}

/// Writes leave every path alone that none of them names.
pub proof fn lemma_written_elsewhere(
    files: Map<Seq<char>, Seq<u8>>,
    writes: Seq<FileView>,
    path: Seq<char>,
)
    requires
        forall|j: int| 0 <= j < writes.len() ==> (#[trigger] writes[j]).path != path,
    ensures
        written(files, writes).contains_key(path) == files.contains_key(path),
        files.contains_key(path) ==> written(files, writes)[path] == files[path],
    decreases writes.len(),
{
    if writes.len() > 0 {
        let earlier = writes.drop_last();
        assert forall|j: int| 0 <= j < earlier.len() implies (#[trigger] earlier[j]).path
            != path by {
            assert(earlier[j] == writes[j]);
        }
        lemma_written_elsewhere(files, earlier, path);
        assert(writes[writes.len() - 1].path != path);
    }
}

/// A preset and a texture are never unpacked to the same path.
pub proof fn lemma_targets_differ(data_local: Seq<char>, name: Seq<char>, entry: EntryView)
    ensures
        preset_target(data_local, name) != asset_target(data_local, entry),
{
    reveal_strlit("/");
    reveal_strlit("Presets");
    reveal_strlit("Textures");
    let saved = saved_path(data_local) + "/"@;
    let at = saved.len() as int;
    let presets = saved + "Presets"@;
    let textures = saved + "Textures"@;
    assert(custom_preset_path(data_local) == presets);
    assert(custom_asset_path(data_local, false) == textures);
    assert(presets[at] == 'P');
    assert(textures[at] == 'T');
    let preset = preset_target(data_local, name);
    let asset = asset_target(data_local, entry);
    assert(preset == presets + "/"@ + preset_file_name(name));
    assert(preset[at] == 'P');
    let category = textures + "/"@ + stem_of(entry.texture_type);
    assert(category[at] == 'T');
    assert(asset == category + "/"@ + (entry.name + "."@ + entry.extension));
    assert(asset[at] == 'T');
}

/// Whether no two items with the same digest have different contents.
pub open spec fn digests_tell_contents(items: Seq<ItemView>) -> bool {
    forall|i: int, j: int|
        0 <= i < j < items.len() && (#[trigger] items[i]).entry.hash == (#[trigger] items[j]).entry.hash
            ==> items[i].data == items[j].data
}

/// Whether no two items that are unpacked to the same path below
/// `data_local` have different contents.
pub open spec fn targets_tell_contents(data_local: Seq<char>, items: Seq<ItemView>) -> bool {
    forall|i: int, j: int|
        0 <= i < j < items.len() && asset_target(data_local, (#[trigger] items[i]).entry)
            == asset_target(data_local, (#[trigger] items[j]).entry) ==> items[i].data
            == items[j].data
}

/// Whether unpacking the archive of `bundle` below `data_local` into
/// `local` brings the preset's file and the contents of every item to the
/// place where they belong.
pub open spec fn arrives(
    bundle: BundleView,
    metadata_document: Seq<u8>,
    data_local: Seq<char>,
    conflicts: Seq<EntryView>,
    local: Map<Seq<char>, Seq<u8>>,
    preset: Seq<u8>,
    items: Seq<ItemView>,
) -> bool {
    let opened = PackedView {
        archive: layout(bundle, metadata_document),
        data_local,
        metadata: bundle.metadata,
        conflicts,
    };
    let after = written(local, opened.writes());
    &&& bundle.metadata.assets == item_entries(items)
    &&& opened.complete()
    &&& after.contains_key(preset_target(data_local, bundle.metadata.name))
    &&& after[preset_target(data_local, bundle.metadata.name)] == preset
    &&& forall|i: int|
        0 <= i < items.len() ==> {
            &&& after.contains_key(asset_target(data_local, (#[trigger] items[i]).entry))
            &&& after[asset_target(data_local, items[i].entry)] == items[i].data
        }
}

/// Assembling, laying out and unpacking bring every file back.
///
/// A bundle is assembled of a preset's file and of items, laid out as an
/// archive, and the archive is unpacked into `local`. Then the index has
/// the record of every item, the archive lacks nothing, the preset's file
/// arrives with its bytes, and so do the contents of every item.
///
/// Two cases are left out, in which an item arrives with the contents of
/// another: two items of different contents with the same digest, and two
/// items of different contents that are unpacked to the same path.
pub proof fn law_round_trip(
    name: Seq<char>,
    extra: ExtraMeta,
    packed: Seq<char>,
    preset: Seq<u8>,
    items: Seq<ItemView>,
    metadata_document: Seq<u8>,
    data_local: Seq<char>,
    conflicts: Seq<EntryView>,
    local: Map<Seq<char>, Seq<u8>>,
)
    requires
        digests_tell_contents(items),
        targets_tell_contents(data_local, items),
    ensures
        arrives(
            assembled(name, extra, packed, preset, items),
            metadata_document,
            data_local,
            conflicts,
            local,
            preset,
            items,
        ),
{
    let bundle = assembled(name, extra, packed, preset, items);
    let archive = layout(bundle, metadata_document);
    let opened = PackedView { archive, data_local, metadata: bundle.metadata, conflicts };
    let writes = opened.writes();
    let after = written(local, writes);
    law_stored_blobs_match_records(items);
    law_layout_holds_three_regions(
        bundle.preset,
        bundle.metadata,
        bundle.blobs,
        metadata_document,
    );
    assert forall|i: int| 0 <= i < items.len() implies archive.contains_key(
        blob_entry(#[trigger] items[i].entry.hash),
    ) && archive[blob_entry(items[i].entry.hash)] == items[i].data by {
        let hash = items[i].entry.hash;
        assert(has_item(items, hash));
        assert(has_blob(bundle.blobs, hash));
        let b = choose|b: int| 0 <= b < bundle.blobs.len() && #[trigger] bundle.blobs[b].hash == hash;
        assert(stored_from(items, bundle.blobs[b]));
        let first = choose|k: int|
            {
                &&& first_with_digest(items, k)
                &&& #[trigger] items[k].entry.hash == bundle.blobs[b].hash
                &&& items[k].data == bundle.blobs[b].data
            };
        if first < i {
            assert(items[first].data == items[i].data);
        }
        assert(first <= i);
    }
    assert(opened.complete()) by {
        assert forall|i: int| 0 <= i < opened.metadata.assets.len() implies archive.contains_key(
            blob_entry(#[trigger] opened.metadata.assets[i].hash),
        ) by {
            assert(opened.metadata.assets[i] == items[i].entry);
        }
    }
    assert forall|i: int| 0 <= i < items.len() implies {
        &&& after.contains_key(asset_target(data_local, (#[trigger] items[i]).entry))
        &&& after[asset_target(data_local, items[i].entry)] == items[i].data
    } by {
        assert(bundle.metadata.assets[i] == items[i].entry);
        assert(writes[i + 1] == opened.asset_writes()[i]);
        assert forall|j: int|
            i + 1 < j < writes.len() && (#[trigger] writes[j]).path == writes[i + 1].path implies writes[j].data
            == writes[i + 1].data by {
            assert(writes[j] == opened.asset_writes()[j - 1]);
            assert(bundle.metadata.assets[j - 1] == items[j - 1].entry);
            assert(items[i].data == items[j - 1].data);
        }
        lemma_written_holds(local, writes, i + 1);
    }
    assert forall|j: int| 0 < j < writes.len() implies (#[trigger] writes[j]).path
        != writes[0].path by {
        assert(writes[j] == opened.asset_writes()[j - 1]);
        lemma_targets_differ(data_local, bundle.metadata.name, bundle.metadata.assets[j - 1]);
    }
    lemma_written_holds(local, writes, 0);
}

/// The keys kept for packing are those of the given keys whose file is
/// the user's own.
pub proof fn lemma_packed_keys(
    files: Map<Seq<char>, Seq<u8>>,
    install: Seq<char>,
    data_local: Seq<char>,
    refs: Seq<AssetKey>,
)
    ensures
        forall|key: AssetKey| #[trigger]
            packed_keys(files, install, data_local, refs).contains(key) <==> refs.contains(key)
                && resolve(files, install, data_local, key).action == AssetAction::Pack,
    decreases refs.len(),
{
    if refs.len() > 0 {
        let earlier = refs.drop_last();
        let last = refs.last();
        let before = packed_keys(files, install, data_local, earlier);
        let after = packed_keys(files, install, data_local, refs);
        lemma_packed_keys(files, install, data_local, earlier);
        assert forall|key: AssetKey| #[trigger]
            after.contains(key) <==> refs.contains(key) && resolve(
                files,
                install,
                data_local,
                key,
            ).action == AssetAction::Pack by {
            if refs.contains(key) {
                let i = choose|i: int| 0 <= i < refs.len() && refs[i] == key;
                if i < refs.len() - 1 {
                    assert(earlier[i] == key);
                }
            }
            if earlier.contains(key) {
                let i = choose|i: int| 0 <= i < earlier.len() && earlier[i] == key;
                assert(refs[i] == key);
            }
            assert(refs[refs.len() - 1] == last);
            if resolve(files, install, data_local, last).action == AssetAction::Pack {
                assert(after[before.len() as int] == last);
                if before.contains(key) {
                    let i = choose|i: int| 0 <= i < before.len() && before[i] == key;
                    assert(after[i] == key);
                }
            }
        }
    }
}

/// The installation's directory wins: a texture that is present there is
/// left out of the archive, whether or not the user has a file of the same
/// name. No lookup that is kept for packing is a lookup of this texture.
pub proof fn law_installation_wins(
    files: Map<Seq<char>, Seq<u8>>,
    install: Seq<char>,
    data_local: Seq<char>,
    key: AssetKey,
    refs: Seq<AssetKey>,
    found: Seq<FoundAsset>,
)
    requires
        first_match(files, joined(root_asset_path(install), stem_of(key.typ)), key.name) is Some,
        lookups_of(found, files, install, data_local, packed_keys(files, install, data_local, refs)),
    ensures
        resolve(files, install, data_local, key).action == AssetAction::Ignore,
        !packed_keys(files, install, data_local, refs).contains(key),
        forall|i: int| 0 <= i < found.len() ==> (#[trigger] found[i]).key() != key,
{
    lemma_packed_keys(files, install, data_local, refs);
    let kept = packed_keys(files, install, data_local, refs);
    assert forall|i: int| 0 <= i < found.len() implies (#[trigger] found[i]).key() != key by {
        assert(found[i].key() == kept[i]);
        assert(kept.contains(kept[i]));
    }
}

/// The conflicts of a list of records are those records whose texture is
/// present among the user's own.
pub proof fn lemma_conflicting(
    files: Map<Seq<char>, Seq<u8>>,
    data_local: Seq<char>,
    entries: Seq<EntryView>,
)
    ensures
        forall|entry: EntryView| #[trigger]
            conflicting(files, data_local, entries).contains(entry) <==> entries.contains(entry)
                && entry_conflicts(files, data_local, entry),
    decreases entries.len(),
{
    if entries.len() > 0 {
        let earlier = entries.drop_last();
        let last = entries.last();
        let before = conflicting(files, data_local, earlier);
        let after = conflicting(files, data_local, entries);
        lemma_conflicting(files, data_local, earlier);
        assert forall|entry: EntryView| #[trigger]
            after.contains(entry) <==> entries.contains(entry) && entry_conflicts(
                files,
                data_local,
                entry,
            ) by {
            if entries.contains(entry) {
                let i = choose|i: int| 0 <= i < entries.len() && entries[i] == entry;
                if i < entries.len() - 1 {
                    assert(earlier[i] == entry);
                }
            }
            if earlier.contains(entry) {
                let i = choose|i: int| 0 <= i < earlier.len() && earlier[i] == entry;
                assert(entries[i] == entry);
            }
            assert(entries[entries.len() - 1] == last);
            if entry_conflicts(files, data_local, last) {
                assert(after[before.len() as int] == last);
                if before.contains(entry) {
                    let i = choose|i: int| 0 <= i < before.len() && before[i] == entry;
                    assert(after[i] == entry);
                }
            }
        }
    }
}

/// Conflicts are local: a texture that is present in the installation's
/// directory and in neither of the user's is not among the conflicts,
/// whatever the index lists.
pub proof fn law_conflicts_are_local(
    files: Map<Seq<char>, Seq<u8>>,
    install: Seq<char>,
    data_local: Seq<char>,
    entries: Seq<EntryView>,
    name: Seq<char>,
    typ: TextureType,
)
    requires
        first_match(files, joined(root_asset_path(install), stem_of(typ)), name) is Some,
        !present_locally(
            files,
            joined(custom_asset_path(data_local, false), stem_of(typ)),
            joined(custom_asset_path(data_local, true), stem_of(typ)),
            name,
        ),
    ensures
        forall|i: int|
            0 <= i < conflicting(files, data_local, entries).len() ==> {
                let listed = #[trigger] conflicting(files, data_local, entries)[i];
                listed.name != name || listed.texture_type != typ
            },
{
    lemma_conflicting(files, data_local, entries);
    let listed = conflicting(files, data_local, entries);
    assert forall|i: int| 0 <= i < listed.len() implies (#[trigger] listed[i]).name != name
        || listed[i].texture_type != typ by {
        assert(listed.contains(listed[i]));
    }
}

/// Looking up the same textures among the same files gives the same
/// answers: two lists of lookups agree in every place.
pub proof fn law_lookups_are_determined(
    first: Seq<FoundAsset>,
    second: Seq<FoundAsset>,
    files: Map<Seq<char>, Seq<u8>>,
    install: Seq<char>,
    data_local: Seq<char>,
    wanted: Seq<AssetKey>,
)
    requires
        lookups_of(first, files, install, data_local, wanted),
        lookups_of(second, files, install, data_local, wanted),
    ensures
        first.len() == second.len(),
        forall|i: int|
            0 <= i < first.len() ==> (#[trigger] first[i]).key() == second[i].key()
                && first[i].resolution() == second[i].resolution(),
{
    assert forall|i: int| 0 <= i < first.len() implies (#[trigger] first[i]).key()
        == second[i].key() && first[i].resolution() == second[i].resolution() by {
        assert(second[i].key() == wanted[i]);
    }
}

/// The references of a document are distinct, and they are the textures
/// that the document names.
pub proof fn law_references_are_distinct(doc: PresetDocument)
    ensures
        dedup(document_refs(doc)).no_duplicates(),
        forall|key: AssetKey|
            dedup(document_refs(doc)).contains(key) <==> document_refs(doc).contains(key),
{
    lemma_with_keys_distinct(Seq::empty(), document_refs(doc));
}

/// Removing repeats from a list that has none changes nothing. So
/// extracting the references of a document a second time, from the
/// references found, gives the same list.
pub proof fn law_dedup_is_idempotent(refs: Seq<AssetKey>)
    ensures
        dedup(dedup(refs)) == dedup(refs),
{
    lemma_with_keys_distinct(Seq::empty(), refs);
    lemma_dedup_of_distinct(dedup(refs));
}

/// A list without repeats is its own list of first occurrences.
pub proof fn lemma_dedup_of_distinct(refs: Seq<AssetKey>)
    requires
        refs.no_duplicates(),
    ensures
        dedup(refs) == refs,
    decreases refs.len(),
{
    if refs.len() == 0 {
        assert(refs =~= Seq::<AssetKey>::empty());
    } else {
        let earlier = refs.drop_last();
        lemma_dedup_of_distinct(earlier);
        if earlier.contains(refs.last()) {
            let i = choose|i: int| 0 <= i < earlier.len() && earlier[i] == refs.last();
            assert(refs[i] == refs[refs.len() - 1]);
        }
        assert(earlier.push(refs.last()) =~= refs);
    }
}

/// While the particle block is switched off, the particle effects name no
/// texture, whatever their own switches say. The same holds of the pulses.
pub proof fn law_disabled_blocks_name_nothing(doc: PresetDocument)
    ensures
        !doc.particles_enabled ==> document_refs(doc) == materials_refs(doc.materials@)
            + pulse_block_refs(doc),
        !doc.pulses_enabled ==> document_refs(doc) == materials_refs(doc.materials@)
            + particle_block_refs(doc),
{
    assert(materials_refs(doc.materials@) + Seq::<AssetKey>::empty() =~= materials_refs(
        doc.materials@,
    ));
    let with_particles = materials_refs(doc.materials@) + particle_block_refs(doc);
    assert(with_particles + Seq::<AssetKey>::empty() =~= with_particles);
}

/// Whether two sets of files have the same files at `paths`.
pub open spec fn same_presence(
    first: Map<Seq<char>, Seq<u8>>,
    second: Map<Seq<char>, Seq<u8>>,
    paths: Seq<Seq<char>>,
) -> bool {
    forall|i: int|
        0 <= i < paths.len() ==> first.contains_key(#[trigger] paths[i]) == second.contains_key(
            paths[i],
        )
}

/// A lookup in a directory reads its candidates only.
pub proof fn lemma_first_match_reads_candidates(
    first: Map<Seq<char>, Seq<u8>>,
    second: Map<Seq<char>, Seq<u8>>,
    dir: Seq<char>,
    name: Seq<char>,
)
    requires
        same_presence(first, second, dir_candidates(dir, name)),
    ensures
        first_match(first, dir, name) == first_match(second, dir, name),
{
    let paths = dir_candidates(dir, name);
    assert(paths[0] == candidate(dir, name, 0));
    assert(paths[1] == candidate(dir, name, 1));
    assert(paths[2] == candidate(dir, name, 2));
}

/// What is found for a texture depends on the presence of its candidate
/// paths and on nothing else: two sets of files that agree there give the
/// same lookup.
pub proof fn law_lookup_reads_candidates(
    first: Map<Seq<char>, Seq<u8>>,
    second: Map<Seq<char>, Seq<u8>>,
    install: Seq<char>,
    data_local: Seq<char>,
    key: AssetKey,
)
    requires
        same_presence(first, second, asset_candidates(install, data_local, key)),
    ensures
        resolve(first, install, data_local, key) == resolve(second, install, data_local, key),
{
    let default = joined(root_asset_path(install), stem_of(key.typ));
    let custom = joined(custom_asset_path(data_local, false), stem_of(key.typ));
    let random = joined(custom_asset_path(data_local, true), stem_of(key.typ));
    let all = asset_candidates(install, data_local, key);
    assert forall|i: int| 0 <= i < 3 implies first.contains_key(
        #[trigger] dir_candidates(default, key.name)[i],
    ) == second.contains_key(dir_candidates(default, key.name)[i]) by {
        assert(all[i] == dir_candidates(default, key.name)[i]);
    }
    assert forall|i: int| 0 <= i < 3 implies first.contains_key(
        #[trigger] dir_candidates(custom, key.name)[i],
    ) == second.contains_key(dir_candidates(custom, key.name)[i]) by {
        assert(all[i + 3] == dir_candidates(custom, key.name)[i]);
    }
    assert forall|i: int| 0 <= i < 3 implies first.contains_key(
        #[trigger] dir_candidates(random, key.name)[i],
    ) == second.contains_key(dir_candidates(random, key.name)[i]) by {
        assert(all[i + 6] == dir_candidates(random, key.name)[i]);
    }
    lemma_first_match_reads_candidates(first, second, default, key.name);
    lemma_first_match_reads_candidates(first, second, custom, key.name);
    lemma_first_match_reads_candidates(first, second, random, key.name);
}

/// Whether a record is a conflict depends on the presence of its
/// candidate paths among the user's own textures and on nothing else.
pub proof fn law_conflict_reads_candidates(
    first: Map<Seq<char>, Seq<u8>>,
    second: Map<Seq<char>, Seq<u8>>,
    data_local: Seq<char>,
    entry: EntryView,
)
    requires
        same_presence(first, second, local_candidates(data_local, entry)),
    ensures
        entry_conflicts(first, data_local, entry) == entry_conflicts(second, data_local, entry),
{
    let custom = joined(custom_asset_path(data_local, false), stem_of(entry.texture_type));
    let random = joined(custom_asset_path(data_local, true), stem_of(entry.texture_type));
    let all = local_candidates(data_local, entry);
    assert forall|i: int| 0 <= i < 3 implies first.contains_key(
        #[trigger] dir_candidates(custom, entry.name)[i],
    ) == second.contains_key(dir_candidates(custom, entry.name)[i]) by {
        assert(all[i] == dir_candidates(custom, entry.name)[i]);
    }
    assert forall|i: int| 0 <= i < 3 implies first.contains_key(
        #[trigger] dir_candidates(random, entry.name)[i],
    ) == second.contains_key(dir_candidates(random, entry.name)[i]) by {
        assert(all[i + 3] == dir_candidates(random, entry.name)[i]);
    }
    lemma_first_match_reads_candidates(first, second, custom, entry.name);
    lemma_first_match_reads_candidates(first, second, random, entry.name);
}

/// Which textures are kept for packing depends on the presence of their
/// candidate paths and on nothing else. So it is enough to look at those
/// paths to know what `collect` will keep.
pub proof fn law_collect_reads_candidates(
    first: Map<Seq<char>, Seq<u8>>,
    second: Map<Seq<char>, Seq<u8>>,
    install: Seq<char>,
    data_local: Seq<char>,
    refs: Seq<AssetKey>,
)
    requires
        forall|i: int|
            0 <= i < refs.len() ==> same_presence(
                first,
                second,
                asset_candidates(install, data_local, #[trigger] refs[i]),
            ),
    ensures
        packed_keys(first, install, data_local, refs) == packed_keys(
            second,
            install,
            data_local,
            refs,
        ),
    decreases refs.len(),
{
    if refs.len() > 0 {
        let earlier = refs.drop_last();
        assert forall|i: int| 0 <= i < earlier.len() implies same_presence(
            first,
            second,
            asset_candidates(install, data_local, #[trigger] earlier[i]),
        ) by {
            assert(earlier[i] == refs[i]);
        }
        law_collect_reads_candidates(first, second, install, data_local, earlier);
        assert(refs.last() == refs[refs.len() - 1]);
        law_lookup_reads_candidates(first, second, install, data_local, refs.last());
    }
}

/// Which records are conflicts depends on the presence of their candidate
/// paths among the user's own textures and on nothing else.
pub proof fn law_conflicts_read_candidates(
    first: Map<Seq<char>, Seq<u8>>,
    second: Map<Seq<char>, Seq<u8>>,
    data_local: Seq<char>,
    entries: Seq<EntryView>,
)
    requires
        forall|i: int|
            0 <= i < entries.len() ==> same_presence(
                first,
                second,
                local_candidates(data_local, #[trigger] entries[i]),
            ),
    ensures
        conflicting(first, data_local, entries) == conflicting(second, data_local, entries),
    decreases entries.len(),
{
    if entries.len() > 0 {
        let earlier = entries.drop_last();
        assert forall|i: int| 0 <= i < earlier.len() implies same_presence(
            first,
            second,
            local_candidates(data_local, #[trigger] earlier[i]),
        ) by {
            assert(earlier[i] == entries[i]);
        }
        law_conflicts_read_candidates(first, second, data_local, earlier);
        assert(entries.last() == entries[entries.len() - 1]);
        law_conflict_reads_candidates(first, second, data_local, entries.last());
    }
}

/// Unpacking writes the preset and the textures of the index and nothing
/// else: a path that is the target of none of them holds afterwards what it
/// held before.
pub proof fn law_unpack_leaves_other_files(
    opened: PackedView,
    local: Map<Seq<char>, Seq<u8>>,
    path: Seq<char>,
)
    requires
        path != preset_target(opened.data_local, opened.metadata.name),
        forall|i: int|
            0 <= i < opened.metadata.assets.len() ==> path != asset_target(
                opened.data_local,
                #[trigger] opened.metadata.assets[i],
            ),
    ensures
        written(local, opened.writes()).contains_key(path) == local.contains_key(path),
        local.contains_key(path) ==> written(local, opened.writes())[path] == local[path],
{
    let writes = opened.writes();
    assert forall|j: int| 0 <= j < writes.len() implies (#[trigger] writes[j]).path != path by {
        if j > 0 {
            assert(writes[j] == opened.asset_writes()[j - 1]);
            assert(path != asset_target(opened.data_local, opened.metadata.assets[j - 1]));
        }
    }
    lemma_written_elsewhere(local, writes, path);
}

/// After an archive was unpacked, the user has a preset of its name: to
/// unpack the same archive once more is to overwrite.
pub proof fn law_unpacked_preset_is_present(opened: PackedView, local: Map<Seq<char>, Seq<u8>>)
    ensures
        written(local, opened.writes()).contains_key(
            preset_target(opened.data_local, opened.metadata.name),
        ),
{
    lemma_written_superset(local, opened.writes(), 0);
}

/// After a list of writes, every path that was written to is present.
pub proof fn lemma_written_superset(
    files: Map<Seq<char>, Seq<u8>>,
    writes: Seq<FileView>,
    k: int,
)
    requires
        0 <= k < writes.len(),
    ensures
        written(files, writes).contains_key(writes[k].path),
    decreases writes.len(),
{
    if k < writes.len() - 1 {
        let earlier = writes.drop_last();
        assert(earlier[k] == writes[k]);
        lemma_written_superset(files, earlier, k);
    }
}

/// The two ways of looking a texture up agree: a resolver for an
/// installation and a user decides as a packer for the same installation
/// and user finds.
pub proof fn law_resolver_agrees_with_packer(
    resolver: Resolver,
    files: Map<Seq<char>, Seq<u8>>,
    install: Seq<char>,
    data_local: Seq<char>,
    key: AssetKey,
)
    requires
        resolver.install() == install,
        resolver.custom() == saved_path(data_local),
    ensures
        locate(
            files,
            resolver.stem_default(key.typ),
            resolver.stem_custom(key.typ),
            resolver.stem_random(key.typ),
            key.name,
        ) == resolve(files, install, data_local, key),
{
}

/// Two categories with different directories have directory names that
/// differ in the first or the second character.
pub proof fn lemma_stems_differ_early(first: TextureType, second: TextureType)
    ensures
        stem_of(first).len() >= 2,
        stem_of(first) != stem_of(second) ==> stem_of(first)[0] != stem_of(second)[0] || stem_of(
            first,
        )[1] != stem_of(second)[1],
{
    reveal_strlit("Colour");
    reveal_strlit("Mask");
    reveal_strlit("Metal");
    reveal_strlit("Normal");
    reveal_strlit("Roughness");
    reveal_strlit("Particle stencil");
    reveal_strlit("Specular");
    reveal_strlit("Pulse stencil");
}

/// Two file names with different extensions differ.
pub proof fn lemma_extensions_differ(first: Seq<char>, i: int, second: Seq<char>, j: int)
    requires
        0 <= i < 3,
        0 <= j < 3,
        i != j,
    ensures
        first + "."@ + extension(i) != second + "."@ + extension(j),
{
    reveal_strlit("png");
    reveal_strlit("jpg");
    reveal_strlit("jpeg");
    let a = first + "."@ + extension(i);
    let b = second + "."@ + extension(j);
    if a == b {
        let n = a.len() as int;
        assert(a[n - 3] == extension(i)[extension(i).len() - 3]);
        assert(a[n - 2] == extension(i)[extension(i).len() - 2]);
        assert(b[n - 3] == extension(j)[extension(j).len() - 3]);
        assert(b[n - 2] == extension(j)[extension(j).len() - 2]);
    }
}

/// Two textures of the user that are unpacked to the same path were found
/// in the same file.
pub proof fn lemma_same_target_same_file(
    files: Map<Seq<char>, Seq<u8>>,
    install: Seq<char>,
    data_local: Seq<char>,
    target: Seq<char>,
    first: AssetKey,
    second: AssetKey,
)
    requires
        resolve(files, install, data_local, first).action == AssetAction::Pack,
        resolve(files, install, data_local, second).action == AssetAction::Pack,
        joined(
            joined(custom_asset_path(target, false), stem_of(first.typ)),
            first.name + "."@ + resolve(files, install, data_local, first).ext,
        ) == joined(
            joined(custom_asset_path(target, false), stem_of(second.typ)),
            second.name + "."@ + resolve(files, install, data_local, second).ext,
        ),
    ensures
        resolve(files, install, data_local, first) == resolve(files, install, data_local, second),
{
    let one = resolve(files, install, data_local, first);
    let two = resolve(files, install, data_local, second);
    let base = custom_asset_path(target, false) + "/"@;
    let stem_one = stem_of(first.typ);
    let stem_two = stem_of(second.typ);
    let file_one = first.name + "."@ + one.ext;
    let file_two = second.name + "."@ + two.ext;
    let path_one = base + stem_one + "/"@ + file_one;
    let path_two = base + stem_two + "/"@ + file_two;
    assert(path_one == joined(joined(custom_asset_path(target, false), stem_one), file_one));
    assert(path_two == joined(joined(custom_asset_path(target, false), stem_two), file_two));
    lemma_stems_differ_early(first.typ, second.typ);
    lemma_stems_differ_early(second.typ, first.typ);
    let at = base.len() as int;
    assert(path_one[at] == stem_one[0]);
    assert(path_one[at + 1] == stem_one[1]);
    assert(path_two[at] == stem_two[0]);
    assert(path_two[at + 1] == stem_two[1]);
    assert(stem_one == stem_two);
    let dir = base + stem_one + "/"@;
    assert(path_one.subrange(dir.len() as int, path_one.len() as int) =~= file_one);
    assert(path_two.subrange(dir.len() as int, path_two.len() as int) =~= file_two);
    assert(file_one == file_two);
    let i = choose|i: int| 0 <= i < 3 && one.ext == extension(i);
    let j = choose|j: int| 0 <= j < 3 && two.ext == extension(j);
    assert(0 <= i < 3 && one.ext == extension(i)) by {
        lemma_found_extension(files, install, data_local, first);
    }
    assert(0 <= j < 3 && two.ext == extension(j)) by {
        lemma_found_extension(files, install, data_local, second);
    }
    if i != j {
        lemma_extensions_differ(first.name, i, second.name, j);
    }
    let tail = "."@ + one.ext;
    assert(file_one =~= first.name + tail);
    assert(file_two =~= second.name + tail);
    assert(file_one.subrange(0, file_one.len() - tail.len()) =~= first.name);
    assert(file_two.subrange(0, file_two.len() - tail.len()) =~= second.name);
    assert(first.name == second.name);
}

/// A file that was found has one of the three extensions.
pub proof fn lemma_found_extension(
    files: Map<Seq<char>, Seq<u8>>,
    install: Seq<char>,
    data_local: Seq<char>,
    key: AssetKey,
)
    requires
        resolve(files, install, data_local, key).action != AssetAction::NotFound,
    ensures
        exists|i: int| 0 <= i < 3 && resolve(files, install, data_local, key).ext == extension(i),
{
    let found = resolve(files, install, data_local, key);
    let default = joined(root_asset_path(install), stem_of(key.typ));
    let custom = joined(custom_asset_path(data_local, false), stem_of(key.typ));
    let random = joined(custom_asset_path(data_local, true), stem_of(key.typ));
    if let Some(i) = first_match(files, default, key.name) {
        assert(0 <= i < 3 && found.ext == extension(i));
    } else if let Some(i) = first_match(files, custom, key.name) {
        assert(0 <= i < 3 && found.ext == extension(i));
    } else if let Some(i) = first_match(files, random, key.name) {
        assert(0 <= i < 3 && found.ext == extension(i));
    }
}

/// The textures that are kept for packing and are unpacked to the same
/// path were found in the same file, so they have the same contents.
pub proof fn lemma_kept_targets_tell_contents(
    files: Map<Seq<char>, Seq<u8>>,
    install: Seq<char>,
    data_local: Seq<char>,
    refs: Seq<AssetKey>,
    target: Seq<char>,
)
    ensures
        targets_tell_contents(
            target,
            items_for(files, install, data_local, packed_keys(files, install, data_local, refs)),
        ),
{
    let kept = packed_keys(files, install, data_local, refs);
    let items = items_for(files, install, data_local, kept);
    lemma_packed_keys(files, install, data_local, refs);
    assert forall|i: int, j: int|
        0 <= i < j < items.len() && asset_target(target, (#[trigger] items[i]).entry)
            == asset_target(target, (#[trigger] items[j]).entry) implies items[i].data
        == items[j].data by {
        assert(kept.contains(kept[i]));
        assert(kept.contains(kept[j]));
        lemma_same_target_same_file(files, install, data_local, target, kept[i], kept[j]);
    }
}

/// Packing a preset and unpacking the archive bring every file back.
///
/// The preset `doc` is packed from `files`, the bundle is laid out as an
/// archive, and the archive is unpacked below `target` into `local`. Then
/// the index has a record for every texture that was kept, the archive
/// lacks nothing, the preset's file arrives with its bytes, and every
/// texture arrives with the bytes of the file that was found for it.
///
/// One case is left out, in which a texture arrives with the bytes of
/// another: two files of different contents with the same digest.
pub proof fn law_pack_round_trip(
    packer: PackerView,
    files: Map<Seq<char>, Seq<u8>>,
    doc: PresetDocument,
    extra: ExtraMeta,
    packed: Seq<char>,
    metadata_document: Seq<u8>,
    target: Seq<char>,
    conflicts: Seq<EntryView>,
    local: Map<Seq<char>, Seq<u8>>,
)
    requires
        digests_tell_contents(
            items_for(files, packer.root, packer.data_local, packer.kept(files, doc)),
        ),
    ensures
        arrives(
            packer.bundle(files, doc, extra, packed),
            metadata_document,
            target,
            conflicts,
            local,
            files[packer.preset_path()],
            items_for(files, packer.root, packer.data_local, packer.kept(files, doc)),
        ),
{
    lemma_kept_targets_tell_contents(
        files,
        packer.root,
        packer.data_local,
        dedup(document_refs(doc)),
        target,
    );
    law_round_trip(
        packer.preset,
        extra,
        packed,
        files[packer.preset_path()],
        items_for(files, packer.root, packer.data_local, packer.kept(files, doc)),
        metadata_document,
        target,
        conflicts,
        local,
    );
}

} // verus!
