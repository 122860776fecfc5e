use soundboard::catalog::{CatalogError, SoundCatalog};
use soundboard::util::get_sounds;

fn strings(names: &[&str]) -> Vec<String> {
    names.iter().map(|s| s.to_string()).collect()
}

#[test]
fn load_deduplicates_keeping_first_occurrence() {
    let c = SoundCatalog::load(strings(&["airhorn", "sad-trombone", "airhorn", "tada"]));
    assert_eq!(c.list_all(), &strings(&["airhorn", "sad-trombone", "tada"]));
    assert_eq!(c.len(), 3);
}

#[test]
fn contains_finds_only_loaded_names() {
    let c = SoundCatalog::load(strings(&["airhorn", "sad-trombone"]));
    assert!(c.contains("airhorn"));
    assert!(c.contains("sad-trombone"));
    assert!(!c.contains("tada"));
    assert!(!c.contains(""));
}

#[test]
fn catalog_reflects_listing_after_load() {
    let listing = strings(&["a", "b", "c", "b"]);
    let c = SoundCatalog::load(listing.clone());
    for name in &listing {
        assert!(c.contains(name));
    }
    for name in c.list_all() {
        assert!(listing.contains(name));
    }
}

#[test]
fn resync_replaces_the_whole_catalog() {
    let mut c = SoundCatalog::load(strings(&["old-clip"]));
    c.resync(strings(&["new-clip", "other"]));
    assert!(!c.contains("old-clip"));
    assert!(c.contains("new-clip"));
    assert!(c.contains("other"));
}

#[test]
fn resync_twice_with_unchanged_listing_is_idempotent() {
    let listing = strings(&["b", "a", "b", "c"]);
    let mut c = SoundCatalog::load(strings(&[]));
    c.resync(listing.clone());
    let first = c.list_all().clone();
    c.resync(listing);
    assert_eq!(c.list_all(), &first);
}

#[test]
fn empty_catalog_is_empty() {
    let c = SoundCatalog::load(strings(&[]));
    assert!(c.is_empty());
    assert_eq!(c.len(), 0);
    assert_eq!(c.list_all().len(), 0);
}

#[test]
fn pick_random_on_empty_catalog_fails() {
    let c = SoundCatalog::load(strings(&[]));
    assert_eq!(c.pick_random(), Err(CatalogError::EmptyCatalog));
}

#[test]
fn pick_random_returns_only_catalog_names_and_eventually_all() {
    let c = SoundCatalog::load(strings(&["airhorn", "sad-trombone"]));
    let mut seen_airhorn = false;
    let mut seen_trombone = false;
    for _ in 0..1000 {
        let name = c.pick_random().expect("catalog is not empty");
        assert!(c.contains(&name));
        match name.as_str() {
            "airhorn" => seen_airhorn = true,
            "sad-trombone" => seen_trombone = true,
            other => panic!("picked a name outside the catalog: {other}"),
        }
    }
    assert!(seen_airhorn);
    assert!(seen_trombone);
}

#[test]
fn get_sounds_keeps_mp3_names_without_extension() {
    let files = strings(&[
        "airhorn.mp3",
        "readme.txt",
        "sad-trombone.mp3",
        "noext",
        "archive.mp3.bak",
        "double.dot.mp3",
    ]);
    let names = get_sounds(&files);
    assert_eq!(names, strings(&["airhorn", "sad-trombone", "double.dot"]));
}

#[test]
fn get_sounds_suffix_check_is_exact() {
    let files = strings(&["short", ".mp3", "x.mp3", "upper.MP3", "mp3"]);
    let names = get_sounds(&files);
    assert_eq!(names, strings(&["", "x"]));
}
