use gyroflow_core::lens_profile::{cleanup_name, profile_file_name, profile_file_stem, setting_without_size, Dimensions};
use gyroflow_core::lensfun_import::{lens_fits_mount, pick_lens, query_is_selective, ProfileSet, MAX_PROFILES_PER_QUERY};
use gyroflow_core::lensfun_integration::{find_lensfun_database, lensfun_database_candidates, LensFunParser, TargetOs};

#[test]
fn cleanup_takes_out_file_name_noise() {
    assert_eq!(cleanup_name("GoPro_HERO9_4by3_2.7K_Wide.json".to_string()), "GoPro HERO9   Wide");
    assert_eq!(cleanup_name("a_16:9_b".to_string()), "a  b");
    assert_eq!(cleanup_name("169169".to_string()), "");
    assert_eq!(cleanup_name("no noise".to_string()), "no noise");
    assert!(!cleanup_name("__x__4_3_".to_string()).contains('_'));
}

#[test]
fn file_stems() {
    assert_eq!(profile_file_stem("  Sony a7 | 4K: 25fps <wide> \"x\" /\\ "), "Sony a7 _ 4K_ 25fps wide x");
    assert_eq!(profile_file_stem("Zoom*é\n"), "Zoom_");
}

#[test]
fn size_classes() {
    assert_eq!(Dimensions { w: 1920, h: 1440 }.size_str(), "1440p");
    assert_eq!(Dimensions { w: 1920, h: 1080 }.size_str(), "1080p");
    assert_eq!(Dimensions { w: 4096, h: 2160 }.size_str(), "C4k");
    assert_eq!(Dimensions { w: 100, h: 100 }.size_str(), "");
}

#[test]
fn short_queries_are_not_selective() {
    assert!(!query_is_selective("a"));
    assert!(!query_is_selective("  "));
    assert!(!query_is_selective(" ab "));
    assert!(query_is_selective(" EOS 5D "));
}

#[test]
fn mounts_and_makers() {
    let mounts = vec!["Canon EF".to_string(), "Canon EF-S".to_string()];
    assert!(lens_fits_mount(&mounts, "Canon EF-S"));
    assert!(!lens_fits_mount(&mounts, "canon ef"));
    let makers = vec!["Sigma".to_string(), "Canon".to_string(), "canon".to_string()];
    assert_eq!(pick_lens(&makers, ""), Some(0));
    assert_eq!(pick_lens(&makers, "CANON"), Some(1));
    assert_eq!(pick_lens(&makers, "Nikon"), None);
    assert_eq!(pick_lens(&vec![], ""), None);
}

#[test]
fn kept_profiles_are_unique_and_capped() {
    let mut set = ProfileSet::new();
    assert!(set.insert("lensfun://a".to_string()));
    assert!(!set.insert("lensfun://a".to_string()));
    assert!(set.contains("lensfun://a"));
    assert!(!set.contains("lensfun://b"));
    let mut i = 0;
    while !set.is_full() {
        set.insert(format!("id {}", i));
        i += 1;
    }
    assert_eq!(set.len(), MAX_PROFILES_PER_QUERY);
    assert!(!set.insert("one more".to_string()));
    assert_eq!(set.identifiers().len(), MAX_PROFILES_PER_QUERY);
    assert_eq!(set.identifiers()[0], "lensfun://a");
}

#[test]
fn lensfun_locations() {
    let linux = lensfun_database_candidates(TargetOs::Linux);
    assert_eq!(linux, vec!["/usr/share/lensfun/version_1", "/usr/local/share/lensfun/version_1"]);
    assert_eq!(lensfun_database_candidates(TargetOs::Windows), vec!["C:/Program Files/Lensfun/version_1"]);
    assert!(lensfun_database_candidates(TargetOs::Other).is_empty());
    let found = find_lensfun_database(&vec![(linux[0].clone(), false), (linux[1].clone(), true)]);
    assert_eq!(found.as_deref(), Some("/usr/local/share/lensfun/version_1"));
    assert_eq!(find_lensfun_database(&vec![(linux[0].clone(), false)]), None);
    let (cameras, lenses) = LensFunParser::parse_xml("/nowhere.xml").unwrap();
    assert!(cameras.is_empty() && lenses.is_empty());
}

fn names(v: &[&str]) -> Vec<String> {
    v.iter().map(|s| s.to_string()).collect()
}

#[test]
fn a_profile_already_under_its_name_stays() {
    let taken = names(&["Sony_A7 - 24mm.json"]);
    assert_eq!(profile_file_name("Sony_A7 - 24mm", "Ann", "Sony_A7 - 24mm.json", &taken), "Sony_A7 - 24mm.json");
}

#[test]
fn a_free_name_is_taken_as_it_is() {
    let taken = names(&["old.json"]);
    assert_eq!(profile_file_name("GoPro 4K", "Ann", "old.json", &taken), "GoPro 4K.json");
}

#[test]
fn a_taken_name_gets_the_authors_name_then_a_number() {
    let taken = names(&["old.json", "GoPro 4K.json"]);
    assert_eq!(profile_file_name("GoPro 4K", "Ann", "old.json", &taken), "GoPro 4K - Ann.json");
    let taken = names(&["old.json", "GoPro 4K.json", "GoPro 4K - Ann.json", "GoPro 4K - Ann - 2.json"]);
    assert_eq!(profile_file_name("GoPro 4K", "Ann", "old.json", &taken), "GoPro 4K - Ann - 3.json");
}

#[test]
fn an_author_not_named_in_ascii_is_left_out() {
    let taken = names(&["old.json", "GoPro 4K.json"]);
    assert_eq!(profile_file_name("GoPro 4K", "Zoë", "old.json", &taken), "GoPro 4K - 2.json");
    assert_eq!(profile_file_name("GoPro 4K", "", "old.json", &taken), "GoPro 4K - 2.json");
}

#[test]
fn the_frame_size_is_taken_out_of_a_camera_setting() {
    let d = Dimensions { w: 3840, h: 2160 };
    assert_eq!(setting_without_size("Wide 3840x2160 16:9 4k 2160p UHD", d, "16:9"), "Wide     ");
    let d = Dimensions { w: 1920, h: 1080 };
    assert_eq!(setting_without_size("Linear 1080p 60fps", d, ""), "Linear  60fps");
    let d = Dimensions { w: 100, h: 50 };
    assert_eq!(setting_without_size("C4K x", d, "2:1"), " x");
}
