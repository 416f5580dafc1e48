use kspacker::packer::Packer;
use kspacker::preset::{
    add_material, add_reference, add_slot, extract_references, AssetReference, Material,
    Particle, PresetDocument, Pulse,
};
use kspacker::texture::TextureType;

fn material() -> Material {
    Material {
        diffuse: None,
        emissive: None,
        mask: None,
        metalness: None,
        normal: None,
        roughness: None,
        specular: None,
    }
}

fn document() -> PresetDocument {
    PresetDocument {
        version: 1500,
        materials: Vec::new(),
        particles_enabled: false,
        particles: Vec::new(),
        pulses_enabled: false,
        pulses: Vec::new(),
    }
}

fn reference(name: &str, typ: TextureType) -> AssetReference {
    AssetReference { name: name.to_string(), typ }
}

fn some(name: &str) -> Option<String> {
    Some(name.to_string())
}

#[test]
fn empty_document_names_nothing() {
    assert!(extract_references(&document()).is_empty());
}

#[test]
fn slots_of_a_material_come_in_a_fixed_order() {
    let full = Material {
        diffuse: some("d"),
        emissive: some("e"),
        mask: some("m"),
        metalness: some("t"),
        normal: some("n"),
        roughness: some("r"),
        specular: some("s"),
    };
    let mut doc = document();
    doc.materials.push(full);
    assert_eq!(
        extract_references(&doc),
        vec![
            reference("d", TextureType::Diffuse),
            reference("e", TextureType::Emissive),
            reference("m", TextureType::Mask),
            reference("t", TextureType::Metalness),
            reference("n", TextureType::Normal),
            reference("r", TextureType::Roughness),
            reference("s", TextureType::Specular),
        ]
    );
}

#[test]
fn unset_and_empty_slots_are_skipped() {
    let mut m = material();
    m.diffuse = some("");
    m.normal = some("n");
    m.specular = None;
    let mut doc = document();
    doc.materials.push(m);
    assert_eq!(extract_references(&doc), vec![reference("n", TextureType::Normal)]);
}

#[test]
fn repeated_texture_is_listed_once_where_it_first_occurs() {
    let mut first = material();
    first.diffuse = some("a");
    first.normal = some("b");
    let mut second = material();
    second.diffuse = some("c");
    second.normal = some("b");
    let mut third = material();
    third.diffuse = some("a");
    third.emissive = some("a");
    let mut doc = document();
    doc.materials = vec![first, second, third];
    assert_eq!(
        extract_references(&doc),
        vec![
            reference("a", TextureType::Diffuse),
            reference("b", TextureType::Normal),
            reference("c", TextureType::Diffuse),
            reference("a", TextureType::Emissive),
        ]
    );
}

#[test]
fn same_name_in_two_categories_is_two_references() {
    let mut m = material();
    m.mask = some("x");
    m.metalness = some("x");
    let mut doc = document();
    doc.materials.push(m);
    assert_eq!(extract_references(&doc).len(), 2);
}

#[test]
fn disabled_particle_block_names_nothing() {
    let mut doc = document();
    doc.particles_enabled = false;
    doc.particles = vec![
        Particle { enabled: true, shape: "Star".to_string() },
        Particle { enabled: true, shape: "Dot".to_string() },
    ];
    assert!(extract_references(&doc).is_empty());
}

#[test]
fn enabled_particle_block_names_its_enabled_particles() {
    let mut doc = document();
    doc.particles_enabled = true;
    doc.particles = vec![
        Particle { enabled: true, shape: "Star".to_string() },
        Particle { enabled: false, shape: "Dot".to_string() },
        Particle { enabled: true, shape: "".to_string() },
        Particle { enabled: true, shape: "Star".to_string() },
        Particle { enabled: true, shape: "Ring".to_string() },
    ];
    assert_eq!(
        extract_references(&doc),
        vec![reference("Star", TextureType::Shape), reference("Ring", TextureType::Shape)]
    );
}

#[test]
fn disabled_pulse_block_names_nothing() {
    let mut doc = document();
    doc.pulses = vec![Pulse {
        enabled: true,
        stencil: "Ring".to_string(),
        world_stencil: "Wave".to_string(),
    }];
    assert!(extract_references(&doc).is_empty());
}

#[test]
fn enabled_pulse_names_its_stencil_and_its_world_stencil() {
    let mut doc = document();
    doc.pulses_enabled = true;
    doc.pulses = vec![
        Pulse { enabled: false, stencil: "Off".to_string(), world_stencil: "Off".to_string() },
        Pulse { enabled: true, stencil: "Ring".to_string(), world_stencil: "Wave".to_string() },
        Pulse { enabled: true, stencil: "".to_string(), world_stencil: "Ring".to_string() },
        Pulse { enabled: true, stencil: "Ring".to_string(), world_stencil: "".to_string() },
    ];
    assert_eq!(
        extract_references(&doc),
        vec![
            reference("Ring", TextureType::Stencil),
            reference("Wave", TextureType::WorldStencil),
            reference("Ring", TextureType::WorldStencil),
        ]
    );
}

#[test]
fn materials_come_before_particles_and_particles_before_pulses() {
    let mut m = material();
    m.specular = some("Shine");
    let doc = PresetDocument {
        version: 1,
        materials: vec![m],
        particles_enabled: true,
        particles: vec![Particle { enabled: true, shape: "Star".to_string() }],
        pulses_enabled: true,
        pulses: vec![Pulse {
            enabled: true,
            stencil: "Ring".to_string(),
            world_stencil: "Wave".to_string(),
        }],
    };
    assert_eq!(
        extract_references(&doc),
        vec![
            reference("Shine", TextureType::Specular),
            reference("Star", TextureType::Shape),
            reference("Ring", TextureType::Stencil),
            reference("Wave", TextureType::WorldStencil),
        ]
    );
}

#[test]
fn mask_of_a_material_and_world_stencil_of_a_pulse_stay_apart() {
    let mut m = material();
    m.mask = some("Shared");
    let doc = PresetDocument {
        version: 1,
        materials: vec![m],
        particles_enabled: false,
        particles: Vec::new(),
        pulses_enabled: true,
        pulses: vec![Pulse {
            enabled: true,
            stencil: "S".to_string(),
            world_stencil: "Shared".to_string(),
        }],
    };
    assert_eq!(
        extract_references(&doc),
        vec![
            reference("Shared", TextureType::Mask),
            reference("S", TextureType::Stencil),
            reference("Shared", TextureType::WorldStencil),
        ]
    );
}

#[test]
fn extracting_twice_gives_the_same_list() {
    let mut m = material();
    m.diffuse = some("a");
    m.emissive = some("a");
    m.roughness = some("r");
    let mut doc = document();
    doc.materials = vec![m.clone(), m];
    assert_eq!(extract_references(&doc), extract_references(&doc));
}

#[test]
fn add_reference_skips_what_is_there() {
    let mut refs = vec![reference("a", TextureType::Diffuse)];
    add_reference(&mut refs, TextureType::Diffuse, "a");
    assert_eq!(refs.len(), 1);
    add_reference(&mut refs, TextureType::Emissive, "a");
    assert_eq!(refs.len(), 2);
    add_reference(&mut refs, TextureType::Emissive, "");
    assert_eq!(refs.len(), 2);
    add_reference(&mut refs, TextureType::Diffuse, "b");
    assert_eq!(refs[2], reference("b", TextureType::Diffuse));
}

#[test]
fn add_slot_adds_a_set_slot_only() {
    let mut refs = Vec::new();
    add_slot(&mut refs, TextureType::Normal, &None);
    assert!(refs.is_empty());
    add_slot(&mut refs, TextureType::Normal, &some("n"));
    assert_eq!(refs, vec![reference("n", TextureType::Normal)]);
}

#[test]
fn get_textures_adds_the_slots_of_one_material() {
    let mut m = material();
    m.emissive = some("Glow");
    m.roughness = some("Grit");
    let mut refs = vec![reference("Grit", TextureType::Roughness)];
    Packer::get_textures(&mut refs, &m);
    assert_eq!(
        refs,
        vec![reference("Grit", TextureType::Roughness), reference("Glow", TextureType::Emissive)]
    );
    let mut again = Vec::new();
    add_material(&mut again, &m);
    assert_eq!(
        again,
        vec![reference("Glow", TextureType::Emissive), reference("Grit", TextureType::Roughness)]
    );
}
