use kspacker::bundle::{blob_entry_name, digests_tell, Blob, Bundle, ExtraMeta, PackItem};
use kspacker::files::FileStore;
use kspacker::metadata::MetaEntry;
use kspacker::packer::{AssetAction, DecodedPreset, PackError, PackablePreset, Packer};
use kspacker::preset::{Material, Particle, PresetDocument};
use kspacker::texture::TextureType;

const DEFAULT: &str = "/ks/Keysight/Default textures";
const CUSTOM: &str = "/data/Keysight/Saved/Textures";
const RANDOM: &str = "/data/Keysight/Saved/Textures (randomizer enabled)";
const PRESET: &str = "/data/Keysight/Saved/Presets/Mine.json";
const BUILTIN: &str = "/ks/Keysight/Default presets/Standard/Mine.json";
const EMPTY_DIGEST: &str = "af1349b9f5f9a1a6a0404dea36dcc9499bcb25c9adc112b7cc9a93cae41f3262";

fn at(root: &str, rest: &str) -> String {
    format!("{}/{}", root, rest)
}

fn material() -> Material {
    Material {
        diffuse: None,
        emissive: None,
        mask: None,
        metalness: None,
        normal: None,
        roughness: None,
        specular: None,
    }
}

fn document(version: u32) -> PresetDocument {
    let mut m = material();
    m.diffuse = Some("A".to_string());
    m.normal = Some("B".to_string());
    m.specular = Some("C".to_string());
    PresetDocument {
        version,
        materials: vec![m],
        particles_enabled: false,
        particles: Vec::new(),
        pulses_enabled: false,
        pulses: Vec::new(),
    }
}

fn three_textures() -> FileStore {
    let mut files = FileStore::new();
    files.write(PRESET.to_string(), b"{\"the\":\"preset\"}".to_vec());
    files.write(at(CUSTOM, "Colour/A.png"), vec![1, 1, 1]);
    files.write(at(CUSTOM, "Normal/B.jpg"), vec![1, 1, 1]);
    files.write(at(CUSTOM, "Specular/C.jpeg"), vec![2, 2]);
    files
}

fn extra() -> ExtraMeta {
    ExtraMeta {
        rename: None,
        author: "someone".to_string(),
        description: "three textures".to_string(),
        version: 7,
        current_ks_version: 1500,
    }
}

fn packer() -> Packer {
    Packer::new("/ks", "/data", 1500, "Mine")
}

fn collected(files: &FileStore) -> PackablePreset {
    packer().collect(files, &DecodedPreset::Document(document(1500)), false).unwrap()
}

fn digest(data: &[u8]) -> String {
    blake3::hash(data).to_hex().to_string()
}

#[test]
fn builtin_preset_is_refused() {
    let mut files = three_textures();
    files.write(BUILTIN.to_string(), vec![]);
    let result = packer().collect(&files, &DecodedPreset::Document(document(1500)), false);
    assert_eq!(result.unwrap_err(), PackError::IsBuiltin);
}

#[test]
fn preset_that_the_user_lacks_is_not_found_though_a_builtin_has_its_name() {
    let mut files = FileStore::new();
    files.write(BUILTIN.to_string(), vec![]);
    let result = packer().collect(&files, &DecodedPreset::Malformed, false);
    assert_eq!(result.unwrap_err(), PackError::NotFound { name: "Mine".to_string() });
    let result = packer().collect(&files, &DecodedPreset::Document(document(1500)), false);
    assert_eq!(result.unwrap_err(), PackError::NotFound { name: "Mine".to_string() });
}

#[test]
fn builtin_preset_is_refused_before_its_file_is_decoded() {
    let mut files = three_textures();
    files.write(BUILTIN.to_string(), vec![]);
    let result = packer().collect(&files, &DecodedPreset::Malformed, false);
    assert_eq!(result.unwrap_err(), PackError::IsBuiltin);
    let result = packer().collect(&files, &DecodedPreset::VersionOnly { version: 1 }, false);
    assert_eq!(result.unwrap_err(), PackError::IsBuiltin);
}

#[test]
fn builtin_preset_is_packed_when_allowed() {
    let mut files = three_textures();
    files.write(BUILTIN.to_string(), vec![]);
    let result = packer().collect(&files, &DecodedPreset::Document(document(1500)), true);
    assert_eq!(result.unwrap().assets().len(), 3);
}

#[test]
fn preset_that_the_user_lacks_is_not_found() {
    let files = FileStore::new();
    let result = packer().collect(&files, &DecodedPreset::Document(document(1500)), false);
    assert_eq!(result.unwrap_err(), PackError::NotFound { name: "Mine".to_string() });
}

#[test]
fn builtin_preset_that_the_user_lacks_is_not_found_when_allowed() {
    let mut files = FileStore::new();
    files.write(BUILTIN.to_string(), vec![]);
    let result = packer().collect(&files, &DecodedPreset::Document(document(1500)), true);
    assert_eq!(result.unwrap_err(), PackError::NotFound { name: "Mine".to_string() });
}

#[test]
fn undecodable_preset_is_malformed() {
    let files = three_textures();
    let result = packer().collect(&files, &DecodedPreset::Malformed, false);
    assert_eq!(result.unwrap_err(), PackError::MalformedPreset);
}

#[test]
fn preset_of_the_right_version_with_unreadable_rest_is_malformed() {
    let files = three_textures();
    let result = packer().collect(&files, &DecodedPreset::VersionOnly { version: 1500 }, false);
    assert_eq!(result.unwrap_err(), PackError::MalformedPreset);
}

#[test]
fn preset_of_another_version_with_unreadable_rest_has_the_wrong_version() {
    let files = three_textures();
    let result = packer().collect(&files, &DecodedPreset::VersionOnly { version: 1400 }, false);
    assert_eq!(result.unwrap_err(), PackError::WrongVersion { wanted: 1500, got: 1400 });
}

#[test]
fn preset_of_version_1600_is_not_packed_for_version_1500() {
    let files = three_textures();
    let result = packer().collect(&files, &DecodedPreset::Document(document(1600)), false);
    assert_eq!(result.unwrap_err(), PackError::WrongVersion { wanted: 1500, got: 1600 });
}

#[test]
fn collect_keeps_the_textures_of_the_user() {
    let mut files = three_textures();
    files.write(at(DEFAULT, "Normal/B.png"), vec![9]);
    let preset = collected(&files);
    assert_eq!(preset.name(), "Mine");
    assert_eq!(preset.path(), PRESET);
    let assets = preset.assets();
    assert_eq!(assets.len(), 2);
    assert_eq!(assets[0].name, "A");
    assert_eq!(assets[0].texture_type, TextureType::Diffuse);
    assert_eq!(assets[0].path, at(CUSTOM, "Colour/A.png"));
    assert_eq!(assets[0].ext, "png");
    assert_eq!(assets[0].action, AssetAction::Pack);
    assert_eq!(assets[1].name, "C");
    assert_eq!(assets[1].ext, "jpeg");
    assert!(assets.iter().all(|a| a.action == AssetAction::Pack));
}

#[test]
fn texture_in_both_directories_is_left_out_of_the_archive() {
    let mut files = three_textures();
    files.write(at(DEFAULT, "Colour/A.jpeg"), vec![5]);
    let preset = collected(&files);
    assert!(preset.assets().iter().all(|a| a.name != "A"));
    let bundle = preset.pack_at(&files, extra(), "t".to_string()).unwrap();
    assert!(bundle.metadata.assets.iter().all(|e| e.name != "A"));
    assert_eq!(bundle.metadata.assets.len(), 2);
}

#[test]
fn missing_texture_is_dropped_without_an_error() {
    let mut files = FileStore::new();
    files.write(PRESET.to_string(), vec![]);
    files.write(at(CUSTOM, "Specular/C.png"), vec![1]);
    let preset = collected(&files);
    assert_eq!(preset.assets().len(), 1);
    assert_eq!(preset.assets()[0].name, "C");
}

#[test]
fn collecting_twice_gives_the_same_textures() {
    let files = three_textures();
    let first = collected(&files);
    let second = collected(&files);
    assert_eq!(first.assets(), second.assets());
}

#[test]
fn equal_contents_are_stored_once() {
    let files = three_textures();
    let bundle = collected(&files).pack_at(&files, extra(), "2022-08-01T10:00:00Z".to_string());
    let bundle = bundle.unwrap();
    assert_eq!(bundle.blobs.len(), 2);
    assert_eq!(bundle.metadata.assets.len(), 3);
    assert_eq!(bundle.blobs[0], Blob { hash: digest(&[1, 1, 1]), data: vec![1, 1, 1] });
    assert_eq!(bundle.blobs[1], Blob { hash: digest(&[2, 2]), data: vec![2, 2] });
    assert_eq!(bundle.metadata.assets[0].hash, bundle.metadata.assets[1].hash);
    assert_ne!(bundle.metadata.assets[0].hash, bundle.metadata.assets[2].hash);
    for entry in &bundle.metadata.assets {
        assert!(bundle.blobs.iter().any(|b| b.hash == entry.hash));
    }
    for blob in &bundle.blobs {
        assert!(bundle.metadata.assets.iter().any(|e| e.hash == blob.hash));
    }
}

#[test]
fn index_records_every_texture() {
    let files = three_textures();
    let bundle = collected(&files).pack_at(&files, extra(), "2022-08-01T10:00:00Z".to_string());
    let bundle = bundle.unwrap();
    assert_eq!(bundle.preset, b"{\"the\":\"preset\"}".to_vec());
    assert_eq!(bundle.metadata.name, "Mine");
    assert_eq!(bundle.metadata.author, "someone");
    assert_eq!(bundle.metadata.description, "three textures");
    assert_eq!(bundle.metadata.packed, "2022-08-01T10:00:00Z");
    assert_eq!(bundle.metadata.preset_version, 7);
    assert_eq!(bundle.metadata.target_version, 1500);
    assert_eq!(
        bundle.metadata.assets,
        vec![
            MetaEntry {
                hash: digest(&[1, 1, 1]),
                name: "A".to_string(),
                extension: "png".to_string(),
                texture_type: TextureType::Diffuse,
                source_was_random: false,
            },
            MetaEntry {
                hash: digest(&[1, 1, 1]),
                name: "B".to_string(),
                extension: "jpg".to_string(),
                texture_type: TextureType::Normal,
                source_was_random: false,
            },
            MetaEntry {
                hash: digest(&[2, 2]),
                name: "C".to_string(),
                extension: "jpeg".to_string(),
                texture_type: TextureType::Specular,
                source_was_random: false,
            },
        ]
    );
}

#[test]
fn digest_is_that_of_the_contents() {
    let mut files = FileStore::new();
    files.write(PRESET.to_string(), vec![]);
    files.write(at(CUSTOM, "Colour/A.png"), vec![]);
    let bundle = collected(&files).pack_at(&files, extra(), String::new()).unwrap();
    assert_eq!(bundle.metadata.assets[0].hash, EMPTY_DIGEST);
    assert_eq!(bundle.blobs[0].hash, EMPTY_DIGEST);
    assert_eq!(bundle.blobs[0].hash.len(), 64);
}

#[test]
fn digest_is_not_the_contents() {
    let mut files = FileStore::new();
    files.write(PRESET.to_string(), vec![]);
    files.write(at(CUSTOM, "Colour/A.png"), b"abc".to_vec());
    let bundle = collected(&files).pack_at(&files, extra(), String::new()).unwrap();
    assert_ne!(bundle.metadata.assets[0].hash.as_bytes(), b"abc");
    assert_eq!(
        bundle.metadata.assets[0].hash,
        "6437b3ac38465133ffb63b75273a8db548c558465d79db03fd359c6cd5bd9d85"
    );
}

#[test]
fn randomized_texture_is_recorded_as_random() {
    let mut m = material();
    m.emissive = Some("Glow".to_string());
    let doc = PresetDocument {
        version: 1500,
        materials: vec![m],
        particles_enabled: false,
        particles: Vec::new(),
        pulses_enabled: false,
        pulses: Vec::new(),
    };
    let mut files = FileStore::new();
    files.write(PRESET.to_string(), vec![]);
    files.write(at(RANDOM, "Colour/Glow.png"), vec![7]);
    let preset = packer().collect(&files, &DecodedPreset::Document(doc), false).unwrap();
    assert_eq!(preset.assets().len(), 1);
    assert!(preset.assets()[0].random);
    assert_eq!(preset.assets()[0].action, AssetAction::Pack);
    let bundle = preset.pack_at(&files, extra(), String::new()).unwrap();
    assert_eq!(bundle.metadata.assets.len(), 1);
    assert!(bundle.metadata.assets[0].source_was_random);
    assert_eq!(bundle.metadata.assets[0].name, "Glow");
    assert_eq!(bundle.metadata.assets[0].texture_type, TextureType::Emissive);
}

#[test]
fn disabled_particles_are_not_packed() {
    let doc = PresetDocument {
        version: 1500,
        materials: Vec::new(),
        particles_enabled: false,
        particles: vec![Particle { enabled: true, shape: "Star".to_string() }],
        pulses_enabled: false,
        pulses: Vec::new(),
    };
    let mut files = FileStore::new();
    files.write(PRESET.to_string(), vec![]);
    files.write(at(CUSTOM, "Particle stencil/Star.png"), vec![7]);
    let preset = packer().collect(&files, &DecodedPreset::Document(doc), false).unwrap();
    assert!(preset.assets().is_empty());
    let bundle = preset.pack_at(&files, extra(), String::new()).unwrap();
    assert!(bundle.blobs.is_empty());
    assert!(bundle.metadata.assets.is_empty());
}

#[test]
fn rename_gives_the_archive_another_name() {
    let files = three_textures();
    let mut meta = extra();
    meta.rename = Some("Renamed".to_string());
    let bundle = collected(&files).pack_at(&files, meta, String::new()).unwrap();
    assert_eq!(bundle.metadata.name, "Renamed");
}

#[test]
fn texture_that_vanished_stops_the_packing() {
    let files = three_textures();
    let preset = collected(&files);
    let mut later = FileStore::new();
    later.write(PRESET.to_string(), vec![]);
    later.write(at(CUSTOM, "Colour/A.png"), vec![1]);
    later.write(at(CUSTOM, "Specular/C.jpeg"), vec![1]);
    let result = preset.pack_at(&later, extra(), String::new());
    assert_eq!(result.unwrap_err(), PackError::PackIoError { path: at(CUSTOM, "Normal/B.jpg") });
}

#[test]
fn preset_that_vanished_stops_the_packing() {
    let files = three_textures();
    let preset = collected(&files);
    let mut later = FileStore::new();
    later.write(at(CUSTOM, "Colour/A.png"), vec![1]);
    later.write(at(CUSTOM, "Normal/B.jpg"), vec![1]);
    later.write(at(CUSTOM, "Specular/C.jpeg"), vec![1]);
    let result = preset.pack_at(&later, extra(), String::new());
    assert_eq!(result.unwrap_err(), PackError::PackIoError { path: PRESET.to_string() });
}

#[test]
fn pack_stamps_the_archive_with_the_time() {
    let files = three_textures();
    let bundle = collected(&files).pack(&files, extra()).unwrap();
    let packed = chrono::DateTime::parse_from_rfc3339(&bundle.metadata.packed).unwrap();
    assert!(packed.timestamp() > 1_600_000_000);
    assert!(bundle.metadata.packed.ends_with('Z'));
    assert_eq!(bundle.blobs.len(), 2);
    assert_eq!(bundle.metadata.assets.len(), 3);
}

#[test]
fn pack_reports_a_missing_file_like_pack_at() {
    let files = three_textures();
    let preset = collected(&files);
    let result = preset.pack(&FileStore::new(), extra());
    assert_eq!(result.unwrap_err(), PackError::PackIoError { path: at(CUSTOM, "Colour/A.png") });
}

fn item(hash: &str, name: &str, data: &[u8]) -> PackItem {
    PackItem {
        entry: MetaEntry {
            hash: hash.to_string(),
            name: name.to_string(),
            extension: "png".to_string(),
            texture_type: TextureType::Mask,
            source_was_random: false,
        },
        data: data.to_vec(),
    }
}

#[test]
fn assemble_stores_each_digest_where_it_first_occurs() {
    let items = vec![
        item("h1", "a", &[1]),
        item("h2", "b", &[2]),
        item("h1", "c", &[1]),
        item("h3", "d", &[3]),
        item("h2", "e", &[2]),
    ];
    let bundle = Bundle::assemble("P", extra(), "t".to_string(), vec![42], &items);
    assert_eq!(
        bundle.blobs,
        vec![
            Blob { hash: "h1".to_string(), data: vec![1] },
            Blob { hash: "h2".to_string(), data: vec![2] },
            Blob { hash: "h3".to_string(), data: vec![3] },
        ]
    );
    let names: Vec<&str> = bundle.metadata.assets.iter().map(|e| e.name.as_str()).collect();
    assert_eq!(names, vec!["a", "b", "c", "d", "e"]);
    assert_eq!(bundle.preset, vec![42]);
    assert_eq!(bundle.metadata.name, "P");
}

#[test]
fn assemble_of_nothing_is_an_empty_bundle() {
    let bundle = Bundle::assemble("P", extra(), "t".to_string(), Vec::new(), &Vec::new());
    assert!(bundle.blobs.is_empty());
    assert!(bundle.metadata.assets.is_empty());
    assert!(bundle.preset.is_empty());
}

#[test]
fn archive_has_the_preset_the_index_and_the_contents() {
    let files = three_textures();
    let bundle = collected(&files).pack_at(&files, extra(), "t".to_string()).unwrap();
    let archive = bundle.layout(b"{index}".to_vec());
    assert_eq!(
        archive.paths(),
        vec![
            "preset.json".to_string(),
            "metadata.json".to_string(),
            format!("assets/{}", digest(&[1, 1, 1])),
            format!("assets/{}", digest(&[2, 2])),
        ]
    );
    assert_eq!(archive.read("preset.json"), Some(b"{\"the\":\"preset\"}".to_vec()));
    assert_eq!(archive.read("metadata.json"), Some(b"{index}".to_vec()));
    assert_eq!(archive.read(&format!("assets/{}", digest(&[2, 2]))), Some(vec![2, 2]));
}

#[test]
fn content_is_stored_under_assets_and_its_digest() {
    assert_eq!(blob_entry_name("abc"), "assets/abc");
    assert_eq!(blob_entry_name(""), "assets/");
}

#[test]
fn packing_in_one_step_is_collecting_and_packing() {
    let files = three_textures();
    let decoded = DecodedPreset::Document(document(1500));
    let at_once = packer().pack_at(&files, &decoded, false, extra(), "t".to_string()).unwrap();
    let in_steps = collected(&files).pack_at(&files, extra(), "t".to_string()).unwrap();
    assert_eq!(at_once, in_steps);
    assert_eq!(at_once.blobs.len(), 2);
    assert_eq!(at_once.metadata.assets.len(), 3);
}

#[test]
fn packing_in_one_step_refuses_what_collecting_refuses() {
    let files = three_textures();
    let wrong = DecodedPreset::Document(document(1600));
    assert_eq!(
        packer().pack_at(&files, &wrong, false, extra(), String::new()).unwrap_err(),
        PackError::WrongVersion { wanted: 1500, got: 1600 }
    );
    assert_eq!(
        packer().pack(&files, &DecodedPreset::Malformed, false, extra()).unwrap_err(),
        PackError::MalformedPreset
    );
    assert_eq!(
        packer().pack(&FileStore::new(), &wrong, true, extra()).unwrap_err(),
        PackError::NotFound { name: "Mine".to_string() }
    );
    let mut builtin = three_textures();
    builtin.write(BUILTIN.to_string(), vec![]);
    assert_eq!(
        packer().pack(&builtin, &wrong, false, extra()).unwrap_err(),
        PackError::IsBuiltin
    );
}

#[test]
fn packing_in_one_step_stamps_the_archive() {
    let files = three_textures();
    let decoded = DecodedPreset::Document(document(1500));
    let bundle = packer().pack(&files, &decoded, false, extra()).unwrap();
    assert!(chrono::DateTime::parse_from_rfc3339(&bundle.metadata.packed).is_ok());
    assert_eq!(bundle.metadata.name, "Mine");
    assert_eq!(bundle.preset, b"{\"the\":\"preset\"}".to_vec());
}

fn is_timestamp(text: &str) -> bool {
    let Some(rest) = text.strip_suffix('Z') else { return false };
    let (rest, fraction) = match rest.find('.') {
        Some(at) => (&rest[..at], &rest[at + 1..]),
        None => (rest, ""),
    };
    if !(fraction.is_empty() || [3, 6, 9].contains(&fraction.len())) {
        return false;
    }
    if !fraction.bytes().all(|b| b.is_ascii_digit()) || rest.len() < 19 {
        return false;
    }
    let (year, tail) = rest.split_at(rest.len() - 15);
    let digits = year.trim_start_matches(|c| c == '+' || c == '-');
    let year_ok = (year.len() == 4 && digits.len() == 4 || year.len() >= 5 && digits.len() == year.len() - 1)
        && digits.bytes().all(|b| b.is_ascii_digit());
    let tail = tail.as_bytes();
    let shape = b"-dd-ddTdd:dd:dd";
    year_ok
        && tail.iter().zip(shape.iter()).all(|(c, s)| if *s == b'd' { c.is_ascii_digit() } else { c == s })
}

#[test]
fn time_of_packing_has_the_form_of_a_timestamp() {
    assert!(is_timestamp("2022-08-01T10:00:00Z"));
    assert!(is_timestamp("2022-08-01T10:00:00.250Z"));
    assert!(!is_timestamp(""));
    assert!(!is_timestamp("2022-08-01 10:00:00Z"));
    let files = three_textures();
    let bundle = collected(&files).pack(&files, extra()).unwrap();
    assert!(is_timestamp(&bundle.metadata.packed), "{}", bundle.metadata.packed);
    let decoded = DecodedPreset::Document(document(1500));
    let bundle = packer().pack(&files, &decoded, false, extra()).unwrap();
    assert!(is_timestamp(&bundle.metadata.packed), "{}", bundle.metadata.packed);
    let bundle = packer().pack_checked(&files, &decoded, false, extra()).unwrap().unwrap();
    assert!(is_timestamp(&bundle.metadata.packed), "{}", bundle.metadata.packed);
    let bundle = collected(&files).pack_checked(&files, extra()).unwrap().unwrap();
    assert!(is_timestamp(&bundle.metadata.packed), "{}", bundle.metadata.packed);
}

#[test]
fn digests_are_sixty_four_small_hexadecimal_digits() {
    let files = three_textures();
    let bundle = collected(&files).pack_at(&files, extra(), String::new()).unwrap();
    for hash in bundle
        .metadata
        .assets
        .iter()
        .map(|e| &e.hash)
        .chain(bundle.blobs.iter().map(|b| &b.hash))
    {
        assert_eq!(hash.len(), 64);
        assert!(hash.bytes().all(|b| b.is_ascii_digit() || (b'a'..=b'f').contains(&b)));
    }
}

#[test]
fn digests_tell_contents_apart_where_equal_digests_have_equal_contents() {
    assert!(digests_tell(&Vec::new()));
    assert!(digests_tell(&vec![item("h1", "a", &[1])]));
    assert!(digests_tell(&vec![item("h1", "a", &[1]), item("h2", "b", &[1]), item("h1", "c", &[1])]));
    assert!(!digests_tell(&vec![item("h1", "a", &[1]), item("h2", "b", &[2]), item("h1", "c", &[3])]));
    assert!(!digests_tell(&vec![item("h1", "a", &[1]), item("h1", "b", &[1, 1])]));
    assert!(!digests_tell(&vec![item("h1", "a", &[]), item("h2", "b", &[]), item("h2", "c", &[0])]));
}

#[test]
fn checked_assembly_gives_the_bundle_of_assemble() {
    let items = vec![item("h1", "a", &[1]), item("h2", "b", &[2]), item("h1", "c", &[1])];
    let checked = Bundle::assemble_checked("P", extra(), "t".to_string(), vec![42], &items);
    let plain = Bundle::assemble("P", extra(), "t".to_string(), vec![42], &items);
    assert_eq!(checked, Some(plain));
}

#[test]
fn checked_assembly_refuses_one_digest_for_two_contents() {
    let items = vec![item("h1", "a", &[1]), item("h2", "b", &[2]), item("h1", "c", &[9])];
    assert_eq!(Bundle::assemble_checked("P", extra(), "t".to_string(), vec![42], &items), None);
}

#[test]
fn checked_packing_gives_the_bundle_of_packing() {
    let files = three_textures();
    let decoded = DecodedPreset::Document(document(1500));
    let plain = packer().pack_at(&files, &decoded, false, extra(), "t".to_string()).unwrap();
    let checked = packer().pack_checked_at(&files, &decoded, false, extra(), "t".to_string());
    assert_eq!(checked, Ok(Some(plain)));
    let plain = collected(&files).pack_at(&files, extra(), "t".to_string()).unwrap();
    let checked = collected(&files).pack_checked_at(&files, extra(), "t".to_string());
    assert_eq!(checked, Ok(Some(plain)));
}

#[test]
fn checked_packing_refuses_what_packing_refuses() {
    let files = three_textures();
    let wrong = DecodedPreset::Document(document(1600));
    assert_eq!(
        packer().pack_checked_at(&files, &wrong, false, extra(), String::new()),
        Err(PackError::WrongVersion { wanted: 1500, got: 1600 })
    );
    assert_eq!(
        packer().pack_checked(&FileStore::new(), &wrong, false, extra()),
        Err(PackError::NotFound { name: "Mine".to_string() })
    );
    let preset = collected(&files);
    assert_eq!(
        preset.pack_checked_at(&FileStore::new(), extra(), String::new()),
        Err(PackError::PackIoError { path: at(CUSTOM, "Colour/A.png") })
    );
}

#[test]
fn packer_for_a_data_directory_looks_below_it() {
    let made = Packer::with_data_dir("/ks", Some("/data".to_string()), 1500, "Mine").unwrap();
    assert_eq!(made.data_local(), "/data");
    assert_eq!(made.preset_path(), PRESET);
    assert_eq!(made.builtin_path(), BUILTIN);
    assert_eq!(packer().data_local(), "/data");
    assert!(Packer::with_data_dir("/ks", None, 1500, "Mine").is_none());
}

#[test]
fn packer_of_this_user_keeps_the_installation_and_the_preset() {
    if let Some(made) = Packer::for_user("/ks", 1500, "Mine") {
        assert_eq!(made.builtin_path(), BUILTIN);
        let expected = format!("{}/Keysight/Saved/Presets/Mine.json", made.data_local());
        assert_eq!(made.preset_path(), expected);
    }
}
