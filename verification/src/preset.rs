//! The preset document and the texture references it contains.
//!
//! Of a preset only the fields that name textures are kept: a list of
//! materials, each with up to seven texture slots, and the particle and
//! pulse effects, each with a switch for the whole block and one per
//! element.

use vstd::prelude::*;
use crate::texture::TextureType;

verus! {

/// The texture slots of one material. A slot that is `None` or holds the
/// empty name refers to nothing.
#[derive(Clone, Debug, PartialEq, Eq)]
pub struct Material {
    pub diffuse: Option<String>,
    pub emissive: Option<String>,
    pub mask: Option<String>,
    pub metalness: Option<String>,
    pub normal: Option<String>,
    pub roughness: Option<String>,
    pub specular: Option<String>,
}

/// One particle effect.
#[derive(Clone, Debug, PartialEq, Eq)]
pub struct Particle {
    pub enabled: bool,
    pub shape: String,
}

/// One pulse effect.
#[derive(Clone, Debug, PartialEq, Eq)]
pub struct Pulse {
    pub enabled: bool,
    pub stencil: String,
    pub world_stencil: String,
}

/// A preset, as far as texture references go.
#[derive(Clone, Debug, PartialEq, Eq)]
pub struct PresetDocument {
    /// The version of the installation the preset was saved with.
    pub version: u32,
    pub materials: Vec<Material>,
    pub particles_enabled: bool,
    pub particles: Vec<Particle>,
    pub pulses_enabled: bool,
    pub pulses: Vec<Pulse>,
}

/// A reference to a texture: its logical name, without extension, and its
/// category.
#[derive(Clone, Debug, PartialEq, Eq, Hash)]
pub struct AssetReference {
    pub name: String,
    pub typ: TextureType,
}

/// What identifies a referenced texture.
pub struct AssetKey {
    pub name: Seq<char>,
    pub typ: TextureType,
}

impl AssetReference {
    pub open spec fn key(&self) -> AssetKey {
        AssetKey { name: self.name@, typ: self.typ }
    }
}

/// The keys of a list of references.
pub open spec fn keys(refs: Seq<AssetReference>) -> Seq<AssetKey> {
    refs.map_values(|r: AssetReference| r.key())
}

/// The reference that a name makes: none if the name is empty.
pub open spec fn name_refs(name: Seq<char>, typ: TextureType) -> Seq<AssetKey> {
    if name.len() == 0 {
        Seq::empty()
    } else {
        seq![AssetKey { name, typ }]
    }
}

/// The reference that a slot makes: none if the slot is unset.
pub open spec fn slot_refs(slot: Option<String>, typ: TextureType) -> Seq<AssetKey> {
    match slot {
        Some(name) => name_refs(name@, typ),
        None => Seq::empty(),
    }
}

/// The references of one material, slot by slot.
pub open spec fn material_refs(m: Material) -> Seq<AssetKey> {
    slot_refs(m.diffuse, TextureType::Diffuse) + slot_refs(m.emissive, TextureType::Emissive)
        + slot_refs(m.mask, TextureType::Mask) + slot_refs(m.metalness, TextureType::Metalness)
        + slot_refs(m.normal, TextureType::Normal) + slot_refs(
        m.roughness,
        TextureType::Roughness,
    ) + slot_refs(m.specular, TextureType::Specular)
}

/// The references of a list of materials, in order.
pub open spec fn materials_refs(ms: Seq<Material>) -> Seq<AssetKey>
    decreases ms.len(),
{
    if ms.len() == 0 {
        Seq::empty()
    } else {
        materials_refs(ms.drop_last()) + material_refs(ms.last())
    }
}

/// The reference of one particle effect: its shape, if the effect is on.
pub open spec fn particle_refs(p: Particle) -> Seq<AssetKey> {
    if p.enabled {
        name_refs(p.shape@, TextureType::Shape)
    } else {
        Seq::empty()
    }
}

/// The references of a list of particle effects, in order.
pub open spec fn particles_refs(ps: Seq<Particle>) -> Seq<AssetKey>
    decreases ps.len(),
{
    if ps.len() == 0 {
        Seq::empty()
    } else {
        particles_refs(ps.drop_last()) + particle_refs(ps.last())
    }
}

/// The references of one pulse effect: its stencil and its world stencil,
/// if the effect is on.
pub open spec fn pulse_refs(p: Pulse) -> Seq<AssetKey> {
    if p.enabled {
        name_refs(p.stencil@, TextureType::Stencil) + name_refs(
            p.world_stencil@,
            TextureType::WorldStencil,
        )
    } else {
        Seq::empty()
    }
}

/// The references of a list of pulse effects, in order.
pub open spec fn pulses_refs(ps: Seq<Pulse>) -> Seq<AssetKey>
    decreases ps.len(),
{
    if ps.len() == 0 {
        Seq::empty()
    } else {
        pulses_refs(ps.drop_last()) + pulse_refs(ps.last())
    }
}

/// The particle references of a document: none while the block is off.
pub open spec fn particle_block_refs(doc: PresetDocument) -> Seq<AssetKey> {
    if doc.particles_enabled {
        particles_refs(doc.particles@)
    } else {
        Seq::empty()
    }
}

/// The pulse references of a document: none while the block is off.
pub open spec fn pulse_block_refs(doc: PresetDocument) -> Seq<AssetKey> {
    if doc.pulses_enabled {
        pulses_refs(doc.pulses@)
    } else {
        Seq::empty()
    }
}

/// Every reference of a document in the order of the document, repeats
/// included.
pub open spec fn document_refs(doc: PresetDocument) -> Seq<AssetKey> {
    materials_refs(doc.materials@) + particle_block_refs(doc) + pulse_block_refs(doc)
}

/// `acc` with `key` added at the end, unless it is in `acc` already.
pub open spec fn with_key(acc: Seq<AssetKey>, key: AssetKey) -> Seq<AssetKey> {
    if acc.contains(key) {
        acc
    } else {
        acc.push(key)
    }
}

/// `acc` with the keys of `new` added one after the other.
pub open spec fn with_keys(acc: Seq<AssetKey>, new: Seq<AssetKey>) -> Seq<AssetKey>
    decreases new.len(),
{
    if new.len() == 0 {
        acc
    } else {
        with_key(with_keys(acc, new.drop_last()), new.last())
    }
}

/// The keys of `refs` with each kept where it first occurs.
pub open spec fn dedup(refs: Seq<AssetKey>) -> Seq<AssetKey> {
    with_keys(Seq::empty(), refs)
}

/// Adding a single key.
pub proof fn lemma_with_keys_single(acc: Seq<AssetKey>, key: AssetKey)
    ensures
        with_keys(acc, seq![key]) == with_key(acc, key),
{
    let one = seq![key];
    assert(one.drop_last() =~= Seq::<AssetKey>::empty());
    assert(with_keys(acc, one.drop_last()) == acc);
    assert(one.last() == key);
}

/// Adding `a + b` is adding `a`, then `b`.
pub proof fn lemma_with_keys_concat(acc: Seq<AssetKey>, a: Seq<AssetKey>, b: Seq<AssetKey>)
    ensures
        with_keys(acc, a + b) == with_keys(with_keys(acc, a), b),
    decreases b.len(),
{
    if b.len() == 0 {
        assert(a + b =~= a);
    } else {
        assert((a + b).drop_last() =~= a + b.drop_last());
        assert((a + b).last() == b.last());
        lemma_with_keys_concat(acc, a, b.drop_last());
    }
}

/// Adding keys keeps a list free of repeats, keeps what it held, and adds
/// exactly the new keys.
pub proof fn lemma_with_keys_distinct(acc: Seq<AssetKey>, new: Seq<AssetKey>)
    requires
        acc.no_duplicates(),
    ensures
        with_keys(acc, new).no_duplicates(),
        forall|k: AssetKey|
            with_keys(acc, new).contains(k) <==> acc.contains(k) || new.contains(k),
    decreases new.len(),
{
    if new.len() > 0 {
        let before = with_keys(acc, new.drop_last());
        let last = new.last();
        lemma_with_keys_distinct(acc, new.drop_last());
        assert forall|k: AssetKey|
            with_keys(acc, new).contains(k) <==> acc.contains(k) || new.contains(k) by {
            if new.contains(k) {
                let i = choose|i: int| 0 <= i < new.len() && new[i] == k;
                if i < new.len() - 1 {
                    assert(new.drop_last()[i] == k);
                }
            }
            if new.drop_last().contains(k) {
                let i = choose|i: int| 0 <= i < new.drop_last().len() && new.drop_last()[i] == k;
                assert(new[i] == k);
            }
            if !before.contains(last) {
                assert(before.push(last)[before.len() as int] == last);
                if before.contains(k) {
                    let i = choose|i: int| 0 <= i < before.len() && before[i] == k;
                    assert(before.push(last)[i] == k);
                }
            }
            assert(new[new.len() - 1] == last);
        }
    }
}

/// Adds a reference to the texture `name` of category `typ`, unless the
/// name is empty or the list holds the reference already.
pub fn add_reference(refs: &mut Vec<AssetReference>, typ: TextureType, name: &str)
    ensures
        keys(final(refs)@) == with_keys(keys(old(refs)@), name_refs(name@, typ)),
{
    let ghost key = AssetKey { name: name@, typ };
    proof {
        lemma_with_keys_single(keys(refs@), key);
    }
    if name.is_empty() {
        return ;
    }
    let owned = name.to_owned();
    let mut i: usize = 0;
    while i < refs.len()
        invariant
            i <= refs.len(),
            owned@ == name@,
            refs@ == old(refs)@,
            key == (AssetKey { name: name@, typ }),
            name@.len() != 0,
            forall|j: int| 0 <= j < i ==> keys(refs@)[j] != key,
        decreases refs.len() - i,
    {
        if refs[i].typ == typ && refs[i].name == owned {
            assert(keys(refs@)[i as int] == refs@[i as int].key());
            proof {
                assert(keys(refs@).contains(key));
                lemma_with_keys_single(keys(refs@), key);
            }
            return ;
        }
        i = i + 1;
    }
    proof {
        let entry = AssetReference { name: owned, typ };
        assert(keys(refs@.push(entry)) =~= keys(refs@).push(key));
        assert(!keys(refs@).contains(key));
    }
    refs.push(AssetReference { name: owned, typ });
}

/// Adds the reference of one texture slot.
pub fn add_slot(refs: &mut Vec<AssetReference>, typ: TextureType, slot: &Option<String>)
    ensures
        keys(final(refs)@) == with_keys(keys(old(refs)@), slot_refs(*slot, typ)),
{
    if let Some(texture) = slot {
        add_reference(refs, typ, texture.as_str());
    }
}

/// Adds the references of one material, slot by slot.
pub fn add_material(refs: &mut Vec<AssetReference>, t: &Material)
    ensures
        keys(final(refs)@) == with_keys(keys(old(refs)@), material_refs(*t)),
{
    let ghost start = keys(refs@);
    let ghost s1 = slot_refs(t.diffuse, TextureType::Diffuse);
    let ghost s2 = s1 + slot_refs(t.emissive, TextureType::Emissive);
    let ghost s3 = s2 + slot_refs(t.mask, TextureType::Mask);
    let ghost s4 = s3 + slot_refs(t.metalness, TextureType::Metalness);
    let ghost s5 = s4 + slot_refs(t.normal, TextureType::Normal);
    let ghost s6 = s5 + slot_refs(t.roughness, TextureType::Roughness);
    add_slot(refs, TextureType::Diffuse, &t.diffuse);
    add_slot(refs, TextureType::Emissive, &t.emissive);
    proof {
        lemma_with_keys_concat(start, s1, slot_refs(t.emissive, TextureType::Emissive));
    }
    add_slot(refs, TextureType::Mask, &t.mask);
    proof {
        lemma_with_keys_concat(start, s2, slot_refs(t.mask, TextureType::Mask));
    }
    add_slot(refs, TextureType::Metalness, &t.metalness);
    proof {
        lemma_with_keys_concat(start, s3, slot_refs(t.metalness, TextureType::Metalness));
    }
    add_slot(refs, TextureType::Normal, &t.normal);
    proof {
        lemma_with_keys_concat(start, s4, slot_refs(t.normal, TextureType::Normal));
    }
    add_slot(refs, TextureType::Roughness, &t.roughness);
    proof {
        lemma_with_keys_concat(start, s5, slot_refs(t.roughness, TextureType::Roughness));
    }
    add_slot(refs, TextureType::Specular, &t.specular);
    proof {
        lemma_with_keys_concat(start, s6, slot_refs(t.specular, TextureType::Specular));
    }
}

/// The references of a preset: each texture that the preset names, once,
/// in the order in which the document first names it.
///
/// The materials come first, then the particle effects, then the pulse
/// effects. An effect contributes only while both its block and the effect
/// itself are switched on.
pub fn extract_references(doc: &PresetDocument) -> (refs: Vec<AssetReference>)
    ensures
        keys(refs@) == dedup(document_refs(*doc)),
{
    let mut refs: Vec<AssetReference> = Vec::new();
    let ghost none = Seq::<AssetKey>::empty();
    assert(keys(refs@) =~= none);

    let mut i: usize = 0;
    while i < doc.materials.len()
        invariant
            i <= doc.materials.len(),
            keys(refs@) == with_keys(none, materials_refs(doc.materials@.take(i as int))),
        decreases doc.materials.len() - i,
    {
        proof {
            let upto = doc.materials@.take(i as int);
            let next = doc.materials@.take(i + 1);
            assert(next.drop_last() =~= upto);
            lemma_with_keys_concat(none, materials_refs(upto), material_refs(doc.materials@[i as int]));
        }
        add_material(&mut refs, &doc.materials[i]);
        i = i + 1;
    }
    let ghost from_materials = materials_refs(doc.materials@);
    assert(doc.materials@.take(i as int) =~= doc.materials@);

    assert(from_materials + Seq::<AssetKey>::empty() =~= from_materials);
    if doc.particles_enabled {
        let mut j: usize = 0;
        while j < doc.particles.len()
            invariant
                j <= doc.particles.len(),
                from_materials == materials_refs(doc.materials@),
                keys(refs@) == with_keys(
                    none,
                    from_materials + particles_refs(doc.particles@.take(j as int)),
                ),
            decreases doc.particles.len() - j,
        {
            let particle = &doc.particles[j];
            proof {
                let upto = doc.particles@.take(j as int);
                let next = doc.particles@.take(j + 1);
                assert(next.drop_last() =~= upto);
                assert(from_materials + particles_refs(next) =~= (from_materials + particles_refs(
                    upto,
                )) + particle_refs(*particle));
                lemma_with_keys_concat(
                    none,
                    from_materials + particles_refs(upto),
                    particle_refs(*particle),
                );
            }
            if particle.enabled {
                add_reference(&mut refs, TextureType::Shape, particle.shape.as_str());
            }
            j = j + 1;
        }
        assert(doc.particles@.take(j as int) =~= doc.particles@);
    }
    let ghost before_pulses = from_materials + particle_block_refs(*doc);

    assert(before_pulses + Seq::<AssetKey>::empty() =~= before_pulses);
    if doc.pulses_enabled {
        let mut k: usize = 0;
        while k < doc.pulses.len()
            invariant
                k <= doc.pulses.len(),
                before_pulses == materials_refs(doc.materials@) + particle_block_refs(*doc),
                keys(refs@) == with_keys(
                    none,
                    before_pulses + pulses_refs(doc.pulses@.take(k as int)),
                ),
            decreases doc.pulses.len() - k,
        {
            let pulse = &doc.pulses[k];
            proof {
                let upto = doc.pulses@.take(k as int);
                let next = doc.pulses@.take(k + 1);
                assert(next.drop_last() =~= upto);
                assert(before_pulses + pulses_refs(next) =~= (before_pulses + pulses_refs(upto))
                    + pulse_refs(*pulse));
                lemma_with_keys_concat(
                    none,
                    before_pulses + pulses_refs(upto),
                    pulse_refs(*pulse),
                );
            }
            if pulse.enabled {
                let ghost mid = keys(refs@);
                add_reference(&mut refs, TextureType::Stencil, pulse.stencil.as_str());
                add_reference(&mut refs, TextureType::WorldStencil, pulse.world_stencil.as_str());
                proof {
                    lemma_with_keys_concat(
                        mid,
                        name_refs(pulse.stencil@, TextureType::Stencil),
                        name_refs(pulse.world_stencil@, TextureType::WorldStencil),
                    );
                }
            }
            k = k + 1;
        }
        assert(doc.pulses@.take(k as int) =~= doc.pulses@);
    }
    refs
}

} // verus!
