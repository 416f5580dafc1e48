//! What an archive holds: the preset, the index, and every distinct texture
//! content once, under the name of its digest.

use vstd::prelude::*;
use vstd::string::StringExecFns;
use crate::files::{copy_bytes, same_bytes, FileStore};
use crate::laws::{arrives, digests_tell_contents, law_round_trip, targets_tell_contents};
use crate::metadata::{
    digests_well_formed,
    entry_views,
    is_digest,
    EntryView,
    MetaEntry,
    MetaView,
    PackMetaData,
};

verus! {

/// A stored content and its digest.
#[derive(Debug, PartialEq, Eq)]
pub struct Blob {
    pub hash: String,
    pub data: Vec<u8>,
}

/// What a `Blob` holds.
pub struct BlobView {
    pub hash: Seq<char>,
    pub data: Seq<u8>,
}

impl View for Blob {
    type V = BlobView;

    open spec fn view(&self) -> BlobView {
        BlobView { hash: self.hash@, data: self.data@ }
    }
}

/// What a list of blobs holds.
pub open spec fn blob_views(blobs: Seq<Blob>) -> Seq<BlobView> {
    blobs.map_values(|b: Blob| b@)
}

/// A texture on its way into an archive: its record, digest included, and
/// its contents.
#[derive(Debug, PartialEq, Eq)]
pub struct PackItem {
    pub entry: MetaEntry,
    pub data: Vec<u8>,
}

/// What a `PackItem` holds.
pub struct ItemView {
    pub entry: EntryView,
    pub data: Seq<u8>,
}

impl View for PackItem {
    type V = ItemView;

    open spec fn view(&self) -> ItemView {
        ItemView { entry: self.entry@, data: self.data@ }
    }
}

/// What a list of items holds.
pub open spec fn item_views(items: Seq<PackItem>) -> Seq<ItemView> {
    items.map_values(|i: PackItem| i@)
}

/// The records of a list of items.
pub open spec fn item_entries(items: Seq<ItemView>) -> Seq<EntryView> {
    items.map_values(|i: ItemView| i.entry)
}

/// What the author says of the archive.
#[derive(Debug, PartialEq, Eq)]
pub struct ExtraMeta {
    /// A name for the packed preset, if it is to differ from the preset's own.
    pub rename: Option<String>,
    pub author: String,
    pub description: String,
    pub version: u32,
    pub current_ks_version: u32,
}

impl ExtraMeta {
    /// The name that the archive gives a preset called `name`.
    pub open spec fn packed_name(&self, name: Seq<char>) -> Seq<char> {
        match self.rename {
            Some(other) => other@,
            None => name,
        }
    }
}

/// A packed preset.
#[derive(Debug, PartialEq, Eq)]
pub struct Bundle {
    /// The preset's file, byte for byte.
    pub preset: Vec<u8>,
    pub metadata: PackMetaData,
    /// The distinct contents, each where it first occurred.
    pub blobs: Vec<Blob>,
}

/// What a `Bundle` holds.
pub struct BundleView {
    pub preset: Seq<u8>,
    pub metadata: MetaView,
    pub blobs: Seq<BlobView>,
}

impl View for Bundle {
    type V = BundleView;

    open spec fn view(&self) -> BundleView {
        BundleView {
            preset: self.preset@,
            metadata: self.metadata@,
            blobs: blob_views(self.blobs@),
        }
    }
}

/// Whether every record and every stored content of `bundle` has a digest
/// of the right form.
pub open spec fn well_formed_digests(bundle: BundleView) -> bool {
    &&& digests_well_formed(bundle.metadata.assets)
    &&& forall|b: int| 0 <= b < bundle.blobs.len() ==> is_digest((#[trigger] bundle.blobs[b]).hash)
}

/// Whether `blobs` holds a content under the digest `hash`.
pub open spec fn has_blob(blobs: Seq<BlobView>, hash: Seq<char>) -> bool {
    exists|i: int| 0 <= i < blobs.len() && #[trigger] blobs[i].hash == hash
}

/// `blobs` with `data` stored under `hash`, unless the digest is there
/// already.
pub open spec fn store_blob(blobs: Seq<BlobView>, hash: Seq<char>, data: Seq<u8>) -> Seq<
    BlobView,
> {
    if has_blob(blobs, hash) {
        blobs
    } else {
        blobs.push(BlobView { hash, data })
    }
}

/// The contents that are stored for `items`: one per digest, each with the
/// contents of the first item that has the digest.
pub open spec fn stored_blobs(items: Seq<ItemView>) -> Seq<BlobView>
    decreases items.len(),
{
    if items.len() == 0 {
        Seq::empty()
    } else {
        store_blob(stored_blobs(items.drop_last()), items.last().entry.hash, items.last().data)
    }
}

/// The bundle made of the preset's file, the author's words and the items:
/// every item is recorded, and every distinct digest is stored once.
pub open spec fn assembled(
    name: Seq<char>,
    extra: ExtraMeta,
    packed: Seq<char>,
    preset: Seq<u8>,
    items: Seq<ItemView>,
) -> BundleView {
    BundleView {
        preset,
        metadata: MetaView {
            name: extra.packed_name(name),
            author: extra.author@,
            description: extra.description@,
            packed,
            preset_version: extra.version,
            target_version: extra.current_ks_version,
            assets: item_entries(items),
        },
        blobs: stored_blobs(items),
    }
}

/// The name of the archive entry that holds the preset's file.
pub open spec fn preset_entry() -> Seq<char> {
    "preset.json"@
}

/// The name of the archive entry that holds the index.
pub open spec fn metadata_entry() -> Seq<char> {
    "metadata.json"@
}

/// The name of the archive entry that holds the content with digest `hash`.
pub open spec fn blob_entry(hash: Seq<char>) -> Seq<char> {
    "assets/"@ + hash
}

/// `entries` with every blob added under its entry name.
pub open spec fn with_blobs(entries: Map<Seq<char>, Seq<u8>>, blobs: Seq<BlobView>) -> Map<
    Seq<char>,
    Seq<u8>,
>
    decreases blobs.len(),
{
    if blobs.len() == 0 {
        entries
    } else {
        with_blobs(entries, blobs.drop_last()).insert(
            blob_entry(blobs.last().hash),
            blobs.last().data,
        )
    }
}

/// The entries of the archive that holds `bundle`, with the index encoded
/// as `metadata_document`.
pub open spec fn layout(bundle: BundleView, metadata_document: Seq<u8>) -> Map<
    Seq<char>,
    Seq<u8>,
> {
    with_blobs(
        Map::empty().insert(preset_entry(), bundle.preset).insert(
            metadata_entry(),
            metadata_document,
        ),
        bundle.blobs,
    )
}

/// The name of the archive entry that holds the content with digest `hash`.
pub fn blob_entry_name(hash: &str) -> (name: String)
    ensures
        name@ == blob_entry(hash@),
{
    String::from_str("assets/").concat(hash)
}

/// Whether `blobs` holds a content under the digest `hash`.
fn holds_blob(blobs: &Vec<Blob>, hash: &String) -> (held: bool)
    ensures
        held == has_blob(blob_views(blobs@), hash@),
{
    let mut i: usize = 0;
    while i < blobs.len()
        invariant
            i <= blobs.len(),
            forall|j: int| 0 <= j < i ==> (#[trigger] blob_views(blobs@)[j]).hash != hash@,
        decreases blobs.len() - i,
    {
        if blobs[i].hash == *hash {
            assert(blob_views(blobs@)[i as int].hash == hash@);
            return true;
        }
        i = i + 1;
    }
    false
}

/// Whether no two items with the same digest have different contents.
pub fn digests_tell(items: &Vec<PackItem>) -> (ok: bool)
    ensures
        ok == digests_tell_contents(item_views(items@)),
{
    let ghost all = item_views(items@);
    let mut j: usize = 0;
    while j < items.len()
        invariant
            j <= items.len(),
            all == item_views(items@),
            forall|a: int, b: int|
                0 <= a < b < j && (#[trigger] all[a]).entry.hash == (#[trigger] all[b]).entry.hash
                    ==> all[a].data == all[b].data,
        decreases items.len() - j,
    {
        let mut i: usize = 0;
        while i < j
            invariant
                i <= j < items.len(),
                all == item_views(items@),
                forall|a: int, b: int|
                    0 <= a < b < j && (#[trigger] all[a]).entry.hash == (
                    #[trigger] all[b]).entry.hash ==> all[a].data == all[b].data,
                forall|a: int|
                    0 <= a < i && (#[trigger] all[a]).entry.hash == all[j as int].entry.hash
                        ==> all[a].data == all[j as int].data,
            decreases j - i,
        {
            if items[i].entry.hash == items[j].entry.hash && !same_bytes(
                &items[i].data,
                &items[j].data,
            ) {
                proof {
                    let first = all[i as int];
                    let second = all[j as int];
                    assert(first.entry.hash == second.entry.hash && first.data != second.data);
                }
                return false;
            }
            i = i + 1;
        }
        j = j + 1;
    }
    true
}

impl Bundle {
    /// Makes a bundle as `assemble` does, where the digests tell the
    /// contents apart, and none where two items have the same digest and
    /// different contents.
    ///
    /// A bundle that is made can be unpacked without loss: laid out as an
    /// archive and unpacked below any directory, it brings the preset's
    /// file and the contents of every item to their places, so long as no
    /// two items of different contents go to the same path there.
    pub fn assemble_checked(
        name: &str,
        extra: ExtraMeta,
        packed: String,
        preset: Vec<u8>,
        items: &Vec<PackItem>,
    ) -> (result: Option<Bundle>)
        ensures
            match result {
                Some(bundle) => {
                    &&& digests_tell_contents(item_views(items@))
                    &&& bundle@ == assembled(name@, extra, packed@, preset@, item_views(items@))
                    &&& forall|
                        metadata_document: Seq<u8>,
                        target: Seq<char>,
                        conflicts: Seq<EntryView>,
                        local: Map<Seq<char>, Seq<u8>>,
                    |
                        targets_tell_contents(target, item_views(items@)) ==> #[trigger] arrives(
                            bundle@,
                            metadata_document,
                            target,
                            conflicts,
                            local,
                            preset@,
                            item_views(items@),
                        )
                },
                None => !digests_tell_contents(item_views(items@)),
            },
    {
        if !digests_tell(items) {
            return None;
        }
        proof {
            assert forall|
                metadata_document: Seq<u8>,
                target: Seq<char>,
                conflicts: Seq<EntryView>,
                local: Map<Seq<char>, Seq<u8>>,
            |
                targets_tell_contents(target, item_views(items@)) implies #[trigger] arrives(
                assembled(name@, extra, packed@, preset@, item_views(items@)),
                metadata_document,
                target,
                conflicts,
                local,
                preset@,
                item_views(items@),
            ) by {
                law_round_trip(
                    name@,
                    extra,
                    packed@,
                    preset@,
                    item_views(items@),
                    metadata_document,
                    target,
                    conflicts,
                    local,
                );
            }
        }
        Some(Bundle::assemble(name, extra, packed, preset, items))
    }

    /// Makes the bundle of a preset called `name` out of the preset's file,
    /// the author's words, the time of packing and the textures, each with
    /// its digest and its contents.
    ///
    /// Every item gets a record in the index, in the order given. A content
    /// is stored when its digest occurs for the first time; a later item
    /// with the same digest is recorded and refers to what is stored.
    pub fn assemble(
        name: &str,
        extra: ExtraMeta,
        packed: String,
        preset: Vec<u8>,
        items: &Vec<PackItem>,
    ) -> (bundle: Bundle)
        ensures
            bundle@ == assembled(name@, extra, packed@, preset@, item_views(items@)),
    {
        let ghost all = item_views(items@);
        let mut entries: Vec<MetaEntry> = Vec::new();
        let mut blobs: Vec<Blob> = Vec::new();
        let mut i: usize = 0;
        assert(entry_views(entries@) =~= item_entries(all.take(0)));
        assert(blob_views(blobs@) =~= stored_blobs(all.take(0)));
        while i < items.len()
            invariant
                i <= items.len(),
                all == item_views(items@),
                entry_views(entries@) == item_entries(all.take(i as int)),
                blob_views(blobs@) == stored_blobs(all.take(i as int)),
            decreases items.len() - i,
        {
            let item = &items[i];
            let ghost entries_before = entries@;
            let ghost blobs_before = blobs@;
            proof {
                assert(all.take(i + 1).drop_last() =~= all.take(i as int));
                assert(all.take(i + 1).last() == item@);
            }
            if !holds_blob(&blobs, &item.entry.hash) {
                let blob = Blob { hash: item.entry.hash.clone(), data: copy_bytes(&item.data) };
                proof {
                    assert(blob_views(blobs@.push(blob)) =~= blob_views(blobs@).push(blob@));
                }
                blobs.push(blob);
            }
            let entry = item.entry.clone();
            entries.push(entry);
            proof {
                assert(entry_views(entries@) =~= entry_views(entries_before).push(entry@));
                assert(item_entries(all.take(i + 1)) =~= item_entries(all.take(i as int)).push(
                    item@.entry,
                ));
            }
            i = i + 1;
        }
        proof {
            assert(all.take(i as int) =~= all);
        }
        let packed_name = match &extra.rename {
            Some(other) => other.clone(),
            None => String::from_str(name),
        };
        Bundle {
            preset,
            metadata: PackMetaData {
                name: packed_name,
                author: extra.author,
                description: extra.description,
                packed,
                preset_version: extra.version,
                target_version: extra.current_ks_version,
                assets: entries,
            },
            blobs,
        }
    }

    /// The entries of the archive that holds this bundle: the preset's file
    /// as `preset.json`, the encoded index as `metadata.json`, and every
    /// stored content as `assets/` followed by its digest.
    pub fn layout(&self, metadata_document: Vec<u8>) -> (archive: FileStore)
        ensures
            archive@ == layout(self@, metadata_document@),
    {
        let mut archive = FileStore::new();
        archive.write(String::from_str("preset.json"), copy_bytes(&self.preset));
        archive.write(String::from_str("metadata.json"), metadata_document);
        let ghost base = archive@;
        let ghost all = blob_views(self.blobs@);
        let mut i: usize = 0;
        while i < self.blobs.len()
            invariant
                i <= self.blobs.len(),
                all == blob_views(self.blobs@),
                archive@ == with_blobs(base, all.take(i as int)),
            decreases self.blobs.len() - i,
        {
            let blob = &self.blobs[i];
            proof {
                assert(all.take(i + 1).drop_last() =~= all.take(i as int));
                assert(all.take(i + 1).last() == blob@);
            }
            archive.write(blob_entry_name(blob.hash.as_str()), copy_bytes(&blob.data));
            i = i + 1;
        }
        proof {
            assert(all.take(i as int) =~= all);
        }
        archive
    }
}

} // verus!
