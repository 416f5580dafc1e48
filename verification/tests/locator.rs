use kspacker::files::FileStore;
use kspacker::info::PresetInfo;
use kspacker::packer::{AssetAction, Packer};
use kspacker::preset::{Material, Particle, PresetDocument, Pulse};
use kspacker::resolver::{
    candidates_in, extension_at, find_in, FileAction, PresetAsset, Resolver, EXTENSIONS,
};
use kspacker::texture::TextureType;
use kspacker::version::{reference_document_path, InstallError};

const DEFAULT: &str = "/ks/Keysight/Default textures";
const CUSTOM: &str = "/data/Keysight/Saved/Textures";
const RANDOM: &str = "/data/Keysight/Saved/Textures (randomizer enabled)";

fn store(paths: &[&str]) -> FileStore {
    let mut files = FileStore::new();
    for path in paths {
        files.write(path.to_string(), path.as_bytes().to_vec());
    }
    files
}

fn at(root: &str, rest: &str) -> String {
    format!("{}/{}", root, rest)
}

#[test]
fn extensions_are_tried_in_a_fixed_order() {
    assert_eq!(EXTENSIONS, 3);
    assert_eq!(extension_at(0), "png");
    assert_eq!(extension_at(1), "jpg");
    assert_eq!(extension_at(2), "jpeg");
}

#[test]
fn candidates_of_a_directory() {
    assert_eq!(
        candidates_in("dir", "Glow"),
        vec!["dir/Glow.png".to_string(), "dir/Glow.jpg".to_string(), "dir/Glow.jpeg".to_string()]
    );
}

#[test]
fn first_extension_that_is_present_wins() {
    let files = store(&["dir/a.jpeg", "dir/a.jpg", "dir/b.jpeg", "dir/c.png", "dir/c.jpg"]);
    assert_eq!(find_in(&files, "dir", "a"), Some(("dir/a.jpg".to_string(), "jpg")));
    assert_eq!(find_in(&files, "dir", "b"), Some(("dir/b.jpeg".to_string(), "jpeg")));
    assert_eq!(find_in(&files, "dir", "c"), Some(("dir/c.png".to_string(), "png")));
    assert_eq!(find_in(&files, "dir", "d"), None);
    assert_eq!(find_in(&files, "other", "a"), None);
}

#[test]
fn file_with_another_extension_is_not_found() {
    let files = store(&["dir/a.bmp", "dir/a", "dir/a.PNG"]);
    assert_eq!(find_in(&files, "dir", "a"), None);
}

#[test]
fn stems_of_a_category() {
    let resolver = Resolver::new("/ks", "/data");
    let stem = resolver.stem_from_name(TextureType::Emissive);
    assert_eq!(stem.default, "/ks/Keysight/Default textures/Colour");
    assert_eq!(stem.custom, "/data/Keysight/Saved/Textures/Colour");
    assert_eq!(stem.random, "/data/Keysight/Saved/Textures (randomizer enabled)/Colour");
    let stem = resolver.stem_from_name(TextureType::Shape);
    assert_eq!(stem.default, "/ks/Keysight/Default textures/Particle stencil");
    let stem = resolver.stem_from_name(TextureType::Stencil);
    assert_eq!(stem.custom, "/data/Keysight/Saved/Textures/Pulse stencil");
    let stem = resolver.stem_from_name(TextureType::WorldStencil);
    assert_eq!(stem.random, "/data/Keysight/Saved/Textures (randomizer enabled)/Mask");
}

#[test]
fn preset_of_the_user() {
    let resolver = Resolver::new("/ks", "/data");
    assert_eq!(resolver.preset_path("Mine"), "/data/Keysight/Saved/Presets/Mine.json");
    let files = store(&["/data/Keysight/Saved/Presets/Mine.json"]);
    assert_eq!(
        resolver.get_preset(&files, "Mine"),
        Some("/data/Keysight/Saved/Presets/Mine.json".to_string())
    );
    assert_eq!(resolver.get_preset(&files, "Other"), None);
}

#[test]
fn texture_of_the_installation_is_not_packed() {
    let resolver = Resolver::new("/ks", "/data");
    let stem = resolver.stem_from_name(TextureType::Normal);
    let files = store(&[&at(DEFAULT, "Normal/Bumps.jpg")]);
    assert_eq!(resolver.action_for_file(&files, &stem, "Bumps"), FileAction::DontPack);
    assert!(!resolver.test_file(&files, &stem, "Bumps"));
}

#[test]
fn texture_of_the_user_is_packed() {
    let resolver = Resolver::new("/ks", "/data");
    let stem = resolver.stem_from_name(TextureType::Normal);
    let files = store(&[&at(CUSTOM, "Normal/Bumps.jpg")]);
    assert_eq!(
        resolver.action_for_file(&files, &stem, "Bumps"),
        FileAction::Pack { path: at(CUSTOM, "Normal/Bumps.jpg"), random: false }
    );
    assert!(resolver.test_file(&files, &stem, "Bumps"));
}

#[test]
fn randomized_texture_is_packed_as_random() {
    let resolver = Resolver::new("/ks", "/data");
    let stem = resolver.stem_from_name(TextureType::Normal);
    let files = store(&[&at(RANDOM, "Normal/Bumps.jpeg")]);
    assert_eq!(
        resolver.action_for_file(&files, &stem, "Bumps"),
        FileAction::Pack { path: at(RANDOM, "Normal/Bumps.jpeg"), random: true }
    );
    assert!(resolver.test_file(&files, &stem, "Bumps"));
}

#[test]
fn plain_directory_wins_over_the_randomized_one() {
    let resolver = Resolver::new("/ks", "/data");
    let stem = resolver.stem_from_name(TextureType::Mask);
    let files = store(&[&at(RANDOM, "Mask/M.png"), &at(CUSTOM, "Mask/M.jpeg")]);
    assert_eq!(
        resolver.action_for_file(&files, &stem, "M"),
        FileAction::Pack { path: at(CUSTOM, "Mask/M.jpeg"), random: false }
    );
}

#[test]
fn installation_wins_over_the_user() {
    let resolver = Resolver::new("/ks", "/data");
    let stem = resolver.stem_from_name(TextureType::Mask);
    let files =
        store(&[&at(RANDOM, "Mask/M.png"), &at(CUSTOM, "Mask/M.png"), &at(DEFAULT, "Mask/M.jpeg")]);
    assert_eq!(resolver.action_for_file(&files, &stem, "M"), FileAction::DontPack);
    assert!(resolver.test_file(&files, &stem, "M"));
}

#[test]
fn missing_texture_is_not_found() {
    let resolver = Resolver::new("/ks", "/data");
    let stem = resolver.stem_from_name(TextureType::Mask);
    let files = store(&[&at(CUSTOM, "Colour/M.png")]);
    assert_eq!(resolver.action_for_file(&files, &stem, "M"), FileAction::NotFound);
    assert!(!resolver.test_file(&files, &stem, "M"));
}

#[test]
fn found_file_of_the_installation_is_ignored() {
    let packer = Packer::new("/ks", "/data", 1500, "Mine");
    let files = store(&[&at(DEFAULT, "Metal/Steel.png"), &at(CUSTOM, "Metal/Steel.png")]);
    let found = packer.make_found_file(&files, TextureType::Metalness, "Steel");
    assert_eq!(found.name, "Steel");
    assert_eq!(found.texture_type, TextureType::Metalness);
    assert_eq!(found.action, AssetAction::Ignore);
    assert_eq!(found.path, at(DEFAULT, "Metal/Steel.png"));
    assert_eq!(found.ext, "png");
    assert!(!found.random);
}

#[test]
fn found_file_of_the_user_is_packed() {
    let packer = Packer::new("/ks", "/data", 1500, "Mine");
    let files = store(&[&at(CUSTOM, "Roughness/Grit.jpg")]);
    let found = packer.make_found_file(&files, TextureType::Roughness, "Grit");
    assert_eq!(found.action, AssetAction::Pack);
    assert_eq!(found.path, at(CUSTOM, "Roughness/Grit.jpg"));
    assert_eq!(found.ext, "jpg");
    assert!(!found.random);
}

#[test]
fn randomizer_only_texture_is_packed_as_random() {
    let packer = Packer::new("/ks", "/data", 1500, "Mine");
    let files = store(&[&at(RANDOM, "Colour/Glow.png")]);
    let found = packer.make_found_file(&files, TextureType::Emissive, "Glow");
    assert_eq!(found.action, AssetAction::Pack);
    assert!(found.random);
    assert_eq!(found.ext, "png");
    assert_eq!(found.path, at(RANDOM, "Colour/Glow.png"));
}

#[test]
fn file_that_is_nowhere_is_not_found() {
    let packer = Packer::new("/ks", "/data", 1500, "Mine");
    let files = store(&[&at(CUSTOM, "Colour/Glow.png")]);
    let found = packer.make_found_file(&files, TextureType::Specular, "Glow");
    assert_eq!(found.name, "Glow");
    assert_eq!(found.action, AssetAction::NotFound);
    assert_eq!(found.path, "");
    assert_eq!(found.ext, "");
    assert!(!found.random);
}

#[test]
fn categories_that_share_a_directory_find_the_same_file() {
    let packer = Packer::new("/ks", "/data", 1500, "Mine");
    let files = store(&[&at(CUSTOM, "Colour/Sky.png")]);
    let diffuse = packer.make_found_file(&files, TextureType::Diffuse, "Sky");
    let emissive = packer.make_found_file(&files, TextureType::Emissive, "Sky");
    assert_eq!(diffuse.path, emissive.path);
    assert_eq!(diffuse.action, AssetAction::Pack);
    assert_eq!(emissive.action, AssetAction::Pack);
}

#[test]
fn candidate_paths_are_the_nine_places_looked_at() {
    let packer = Packer::new("/ks", "/data", 1500, "Mine");
    let paths = packer.candidate_paths(TextureType::Emissive, "Glow");
    assert_eq!(
        paths,
        vec![
            at(DEFAULT, "Colour/Glow.png"),
            at(DEFAULT, "Colour/Glow.jpg"),
            at(DEFAULT, "Colour/Glow.jpeg"),
            at(CUSTOM, "Colour/Glow.png"),
            at(CUSTOM, "Colour/Glow.jpg"),
            at(CUSTOM, "Colour/Glow.jpeg"),
            at(RANDOM, "Colour/Glow.png"),
            at(RANDOM, "Colour/Glow.jpg"),
            at(RANDOM, "Colour/Glow.jpeg"),
        ]
    );
}

#[test]
fn lookup_is_the_same_on_the_candidates_alone() {
    let packer = Packer::new("/ks", "/data", 1500, "Mine");
    let full = store(&[
        &at(CUSTOM, "Colour/Glow.jpg"),
        &at(RANDOM, "Colour/Glow.png"),
        &at(CUSTOM, "Mask/Glow.png"),
        "/unrelated",
    ]);
    let mut probed = FileStore::new();
    for path in packer.candidate_paths(TextureType::Emissive, "Glow") {
        if let Some(data) = full.read(&path) {
            probed.write(path, data);
        }
    }
    assert_eq!(probed.paths().len(), 2);
    let first = packer.make_found_file(&full, TextureType::Emissive, "Glow");
    let second = packer.make_found_file(&probed, TextureType::Emissive, "Glow");
    assert_eq!(first, second);
}

#[test]
fn paths_of_the_packer() {
    let packer = Packer::new("/ks", "/data", 1500, "Mine");
    assert_eq!(packer.preset_path(), "/data/Keysight/Saved/Presets/Mine.json");
    assert_eq!(packer.builtin_path(), "/ks/Keysight/Default presets/Standard/Mine.json");
}

#[test]
fn builtin_preset_is_recognised() {
    let packer = Packer::new("/ks", "/data", 1500, "Mine");
    let files = store(&["/ks/Keysight/Default presets/Standard/Mine.json"]);
    assert!(packer.check_builtin_preset(&files));
    let files = store(&["/data/Keysight/Saved/Presets/Mine.json"]);
    assert!(!packer.check_builtin_preset(&files));
}

#[test]
fn identify_gives_the_version_unchanged() {
    let resolver = Resolver::new("/ks", "/data");
    let mut files = FileStore::new();
    files.write(reference_document_path("/ks"), vec![]);
    assert_eq!(resolver.identify(&files, Some(1500)), Ok(1500));
    assert_eq!(resolver.identify(&files, Some(999)), Ok(999));
    assert_eq!(resolver.identify(&files, Some(150)), Ok(150));
    assert_eq!(resolver.identify(&files, Some(15000)), Ok(15000));
    assert_eq!(resolver.identify(&files, Some(0)), Ok(0));
    assert_eq!(resolver.identify(&files, Some(u32::MAX)), Ok(u32::MAX));
    assert_eq!(resolver.identify(&files, None), Err(InstallError::MalformedInstallation));
    assert_eq!(
        resolver.identify(&FileStore::new(), Some(1500)),
        Err(InstallError::NotAnInstallation)
    );
}

#[test]
fn resolver_of_this_user_keeps_the_installation() {
    if let Some(resolver) = Resolver::for_user("/ks") {
        let stem = resolver.stem_from_name(TextureType::Normal);
        assert_eq!(stem.default, "/ks/Keysight/Default textures/Normal");
        assert!(stem.custom.ends_with("/Keysight/Saved/Textures/Normal"));
        assert!(stem.random.ends_with("/Keysight/Saved/Textures (randomizer enabled)/Normal"));
        assert!(resolver.preset_path("P").ends_with("/Keysight/Saved/Presets/P.json"));
    }
}

fn material() -> Material {
    Material {
        diffuse: None,
        emissive: None,
        mask: None,
        metalness: None,
        normal: None,
        roughness: None,
        specular: None,
    }
}

#[test]
fn preset_info_lists_every_texture_with_its_decision() {
    let mut first = material();
    first.diffuse = Some("Sky".to_string());
    first.normal = Some("Bumps".to_string());
    first.specular = Some("Gone".to_string());
    let doc = PresetDocument {
        version: 1500,
        materials: vec![first],
        particles_enabled: true,
        particles: vec![Particle { enabled: true, shape: "Star".to_string() }],
        pulses_enabled: false,
        pulses: vec![Pulse {
            enabled: true,
            stencil: "Ring".to_string(),
            world_stencil: "Wave".to_string(),
        }],
    };
    let files = store(&[
        &at(DEFAULT, "Colour/Sky.png"),
        &at(CUSTOM, "Normal/Bumps.jpg"),
        &at(RANDOM, "Particle stencil/Star.jpeg"),
    ]);
    let mut info = PresetInfo::new("Mine", Resolver::new("/ks", "/data"));
    assert!(info.files.is_empty());
    info.load(&files, &doc);
    assert_eq!(
        info.files,
        vec![
            PresetAsset {
                name: "Sky".to_string(),
                typ: TextureType::Diffuse,
                src: FileAction::DontPack
            },
            PresetAsset {
                name: "Bumps".to_string(),
                typ: TextureType::Normal,
                src: FileAction::Pack { path: at(CUSTOM, "Normal/Bumps.jpg"), random: false }
            },
            PresetAsset {
                name: "Gone".to_string(),
                typ: TextureType::Specular,
                src: FileAction::NotFound
            },
            PresetAsset {
                name: "Star".to_string(),
                typ: TextureType::Shape,
                src: FileAction::Pack {
                    path: at(RANDOM, "Particle stencil/Star.jpeg"),
                    random: true
                }
            },
        ]
    );
    info.load(&files, &doc);
    assert_eq!(info.files.len(), 4);
    assert_eq!(info.assets(), &info.files);
    assert_eq!(info.assets()[0].name, "Sky");
}

#[test]
fn file_from_kn_decides_on_one_texture() {
    let info = PresetInfo::new("Mine", Resolver::new("/ks", "/data"));
    let files = store(&[&at(CUSTOM, "Metal/Steel.png")]);
    assert_eq!(
        info.file_from_kn(&files, TextureType::Metalness, "Steel"),
        PresetAsset {
            name: "Steel".to_string(),
            typ: TextureType::Metalness,
            src: FileAction::Pack { path: at(CUSTOM, "Metal/Steel.png"), random: false }
        }
    );
}

#[test]
fn resolver_for_a_saved_directory_looks_below_it() {
    let resolver = Resolver::with_saved_dir("/ks", Some("/data/Keysight/Saved".to_string()));
    let resolver = resolver.unwrap();
    let stem = resolver.stem_from_name(TextureType::Mask);
    assert_eq!(stem.default, "/ks/Keysight/Default textures/Mask");
    assert_eq!(stem.custom, "/data/Keysight/Saved/Textures/Mask");
    assert_eq!(stem.random, "/data/Keysight/Saved/Textures (randomizer enabled)/Mask");
    assert_eq!(resolver.preset_path("P"), "/data/Keysight/Saved/Presets/P.json");
}

#[test]
fn resolver_without_a_saved_directory_is_none() {
    assert!(Resolver::with_saved_dir("/ks", None).is_none());
}
