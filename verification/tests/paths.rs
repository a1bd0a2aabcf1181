use importer::paths::{
    kml_sidecar_path, parent_of, resolve, str_contains, str_ends_with, str_eq, temp_file_name,
    with_gz_suffix,
};

#[test]
fn resolve_joins_root_and_relative_path() {
    assert_eq!(resolve("root", "data/foo.bin"), "root/data/foo.bin");
    assert_eq!(resolve("", "x"), "/x");
}

#[test]
fn parent_of_cuts_at_the_last_separator() {
    assert_eq!(parent_of("root/data/foo.bin"), "root/data");
    assert_eq!(parent_of("root/data/extract/"), "root/data/extract");
    assert_eq!(parent_of("/x"), "");
}

#[test]
fn sidecar_swaps_the_binary_extension_for_kml() {
    assert_eq!(kml_sidecar_path("root/data/shapes.bin"), "root/data/shapes.kml");
    assert_eq!(kml_sidecar_path("root/data/shapes.geojson"), "root/data/shapes.geojson");
    assert_eq!(kml_sidecar_path(".bin"), ".kml");
}

#[test]
fn gz_suffix_is_appended() {
    assert_eq!(with_gz_suffix("root/data/extract.osm"), "root/data/extract.osm.gz");
}

#[test]
fn contains_finds_the_pattern_anywhere() {
    assert!(str_contains("https://host/file.zip?dl=0", ".zip"));
    assert!(str_contains(".zip", ".zip"));
    assert!(str_contains("a.zipb", ".zip"));
    assert!(!str_contains("https://host/file.tar", ".zip"));
    assert!(!str_contains("zip", ".zip"));
    assert!(str_contains("anything", ""));
    assert!(!str_contains("no", "none"));
}

#[test]
fn ends_with_matches_the_suffix_only() {
    assert!(str_ends_with("https://host/extract.osm.gz", ".gz"));
    assert!(!str_ends_with("https://host/extract.gz.osm", ".gz"));
    assert!(str_ends_with("x", ""));
    assert!(!str_ends_with("z", "gz"));
}

#[test]
fn str_eq_compares_contents() {
    assert!(str_eq("huge_seattle", "huge_seattle"));
    assert!(!str_eq("huge_seattle", "seattle"));
    assert!(!str_eq("a", "ab"));
}

#[test]
fn the_temporary_artifact_has_its_well_known_name() {
    assert_eq!(temp_file_name(), "tmp_output");
}
