//! The index of an archive: who packed what, and which textures it holds.

use vstd::prelude::*;
use crate::texture::TextureType;

verus! {

/// Whether `c` is a decimal digit.
pub open spec fn is_decimal(c: char) -> bool {
    c == '0' || c == '1' || c == '2' || c == '3' || c == '4' || c == '5' || c == '6' || c == '7'
        || c == '8' || c == '9'
}

/// Whether `c` is a digit to the base sixteen, with small letters.
pub open spec fn is_hex(c: char) -> bool {
    is_decimal(c) || c == 'a' || c == 'b' || c == 'c' || c == 'd' || c == 'e' || c == 'f'
}

/// Whether `text` has the form of a digest: sixty-four digits to the base
/// sixteen, which stand for 256 bits.
pub open spec fn is_digest(text: Seq<char>) -> bool {
    text.len() == 64 && forall|i: int| 0 <= i < 64 ==> is_hex(#[trigger] text[i])
}

/// Whether every record of `entries` has a digest of the right form.
pub open spec fn digests_well_formed(entries: Seq<EntryView>) -> bool {
    forall|i: int| 0 <= i < entries.len() ==> is_digest((#[trigger] entries[i]).hash)
}

/// Whether `text` consists of decimal digits.
pub open spec fn all_decimal(text: Seq<char>) -> bool {
    forall|i: int| 0 <= i < text.len() ==> is_decimal(#[trigger] text[i])
}

/// Whether `text` is a year: four digits, or a sign and at least four
/// digits for a year before 0 or after 9999.
pub open spec fn is_year(text: Seq<char>) -> bool {
    ||| text.len() == 4 && all_decimal(text)
    ||| text.len() >= 5 && (text[0] == '+' || text[0] == '-') && all_decimal(
        text.subrange(1, text.len() as int),
    )
}

/// Whether `text` is what follows the year: `-MM-DDTHH:MM:SS`.
pub open spec fn is_day_and_time(text: Seq<char>) -> bool {
    &&& text.len() == 15
    &&& text[0] == '-' && is_decimal(text[1]) && is_decimal(text[2])
    &&& text[3] == '-' && is_decimal(text[4]) && is_decimal(text[5])
    &&& text[6] == 'T' && is_decimal(text[7]) && is_decimal(text[8])
    &&& text[9] == ':' && is_decimal(text[10]) && is_decimal(text[11])
    &&& text[12] == ':' && is_decimal(text[13]) && is_decimal(text[14])
}

/// Whether `text` is a fraction of a second: nothing, or a point and
/// three, six or nine digits.
pub open spec fn is_fraction(text: Seq<char>) -> bool {
    ||| text.len() == 0
    ||| (text.len() == 4 || text.len() == 7 || text.len() == 10) && text[0] == '.' && all_decimal(
        text.subrange(1, text.len() as int),
    )
}

/// Whether `text` is a year of `year` characters, the day and the time, a
/// fraction of `fraction` characters, and `Z`.
pub open spec fn timestamp_parts(text: Seq<char>, year: int, fraction: int) -> bool {
    &&& 0 <= year
    &&& 0 <= fraction
    &&& text.len() == year + 15 + fraction + 1
    &&& is_year(text.subrange(0, year))
    &&& is_day_and_time(text.subrange(year, year + 15))
    &&& is_fraction(text.subrange(year + 15, year + 15 + fraction))
    &&& text[text.len() - 1] == 'Z'
}

/// Whether `text` has the form of a time of packing: an ISO 8601 date and
/// time in universal time, such as `2022-08-01T10:00:00.250Z`.
pub open spec fn is_timestamp(text: Seq<char>) -> bool {
    exists|year: int, fraction: int| timestamp_parts(text, year, fraction)
}

/// The record of one packed texture.
#[derive(Debug, PartialEq, Eq)]
pub struct MetaEntry {
    /// The digest of the texture's contents, in hexadecimal. The contents
    /// are stored in the archive under this name.
    pub hash: String,
    /// The logical name of the texture, without extension.
    pub name: String,
    /// The extension of the file the texture was read from.
    pub extension: String,
    pub texture_type: TextureType,
    /// Whether the file came from the directory for randomized textures.
    pub source_was_random: bool,
}

/// What a `MetaEntry` holds.
pub struct EntryView {
    pub hash: Seq<char>,
    pub name: Seq<char>,
    pub extension: Seq<char>,
    pub texture_type: TextureType,
    pub source_was_random: bool,
}

impl View for MetaEntry {
    type V = EntryView;

    open spec fn view(&self) -> EntryView {
        EntryView {
            hash: self.hash@,
            name: self.name@,
            extension: self.extension@,
            texture_type: self.texture_type,
            source_was_random: self.source_was_random,
        }
    }
}

impl Clone for MetaEntry {
    fn clone(&self) -> (copy: MetaEntry)
        ensures
            copy@ == self@,
    {
        MetaEntry {
            hash: self.hash.clone(),
            name: self.name.clone(),
            extension: self.extension.clone(),
            texture_type: self.texture_type,
            source_was_random: self.source_was_random,
        }
    }
}

/// What a list of entries holds.
pub open spec fn entry_views(entries: Seq<MetaEntry>) -> Seq<EntryView> {
    entries.map_values(|e: MetaEntry| e@)
}

/// The index of an archive.
#[derive(Debug, PartialEq, Eq)]
pub struct PackMetaData {
    pub name: String,
    pub author: String,
    pub description: String,
    /// When the archive was packed, as an ISO 8601 date and time.
    pub packed: String,
    /// The version that the author gave the preset.
    pub preset_version: u32,
    /// The version of the installation the preset was packed on.
    pub target_version: u32,
    pub assets: Vec<MetaEntry>,
}

/// What a `PackMetaData` holds.
pub struct MetaView {
    pub name: Seq<char>,
    pub author: Seq<char>,
    pub description: Seq<char>,
    pub packed: Seq<char>,
    pub preset_version: u32,
    pub target_version: u32,
    pub assets: Seq<EntryView>,
}

impl View for PackMetaData {
    type V = MetaView;

    open spec fn view(&self) -> MetaView {
        MetaView {
            name: self.name@,
            author: self.author@,
            description: self.description@,
            packed: self.packed@,
            preset_version: self.preset_version,
            target_version: self.target_version,
            assets: entry_views(self.assets@),
        }
    }
}

/// A copy of a list of entries.
pub fn copy_entries(entries: &Vec<MetaEntry>) -> (copy: Vec<MetaEntry>)
    ensures
        entry_views(copy@) == entry_views(entries@),
{
    let mut copy: Vec<MetaEntry> = Vec::new();
    let mut i: usize = 0;
    while i < entries.len()
        invariant
            i <= entries.len(),
            entry_views(copy@) == entry_views(entries@).take(i as int),
        decreases entries.len() - i,
    {
        let ghost before = copy@;
        let entry = entries[i].clone();
        copy.push(entry);
        proof {
            assert(entry_views(copy@) =~= entry_views(before).push(entry@));
            assert(entry_views(entries@).take(i + 1) =~= entry_views(entries@).take(i as int).push(
                entries@[i as int]@,
            ));
        }
        i = i + 1;
    }
    proof {
        assert(entry_views(entries@).take(i as int) =~= entry_views(entries@));
    }
    copy
}

impl Clone for PackMetaData {
    fn clone(&self) -> (copy: PackMetaData)
        ensures
            copy@ == self@,
    {
        PackMetaData {
            name: self.name.clone(),
            author: self.author.clone(),
            description: self.description.clone(),
            packed: self.packed.clone(),
            preset_version: self.preset_version,
            target_version: self.target_version,
            assets: copy_entries(&self.assets),
        }
    }
}

} // verus!
