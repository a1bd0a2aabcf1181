use importer::action::Action;
use importer::plans::{city_manifest_plan, download, download_kml, osmconvert, raw_to_map, rm};
use importer::shapes::GpsBounds;

fn bounds() -> GpsBounds {
    GpsBounds { min_lon: -123_000_000, min_lat: 47_000_000, max_lon: -122_000_000, max_lat: 48_000_000 }
}

#[test]
fn fetch_zip_with_query_string_downloads_unzips_and_cleans_up() {
    // A zip served through a URL that does not end cleanly in .zip.
    let plan = download("root", "data/foo.bin", "https://host/file.zip?dl=0", false);
    assert_eq!(
        plan,
        vec![
            Action::EnsureDir { path: "root/data".to_string() },
            Action::Download {
                url: "https://host/file.zip?dl=0".to_string(),
                to: "tmp_output".to_string(),
            },
            Action::Unzip { archive: "tmp_output".to_string(), into: "root/data".to_string() },
            Action::Remove { path: "tmp_output".to_string() },
        ]
    );
}

#[test]
fn fetch_zip_into_directory_shaped_target_unzips_into_the_target() {
    let plan = download("root", "data/extract/", "https://host/file.zip", false);
    assert_eq!(
        plan[2],
        Action::Unzip { archive: "tmp_output".to_string(), into: "root/data/extract/".to_string() }
    );
}

#[test]
fn fetch_gz_moves_then_gunzips_and_the_final_path_keeps_no_gz_suffix() {
    let plan = download("root", "data/extract.osm", "https://host/extract.osm.gz", false);
    assert_eq!(
        plan,
        vec![
            Action::EnsureDir { path: "root/data".to_string() },
            Action::Download {
                url: "https://host/extract.osm.gz".to_string(),
                to: "tmp_output".to_string(),
            },
            Action::MoveFile {
                from: "tmp_output".to_string(),
                to: "root/data/extract.osm.gz".to_string(),
            },
            Action::Gunzip { path: "root/data/extract.osm.gz".to_string() },
        ]
    );
}

#[test]
fn fetch_plain_moves_the_temporary_verbatim() {
    let plan = download("root", "data/raw.geojson", "https://host/raw.geojson", false);
    assert_eq!(
        plan,
        vec![
            Action::EnsureDir { path: "root/data".to_string() },
            Action::Download {
                url: "https://host/raw.geojson".to_string(),
                to: "tmp_output".to_string(),
            },
            Action::MoveFile { from: "tmp_output".to_string(), to: "root/data/raw.geojson".to_string() },
        ]
    );
}

#[test]
fn fetch_of_an_existing_target_plans_nothing() {
    let plan = download("root", "data/foo.bin", "https://host/file.zip?dl=0", true);
    assert!(plan.is_empty());
}

#[test]
fn kml_with_existing_sidecar_copies_it_and_never_downloads() {
    // The sidecar data/shapes.kml already exists: no network call, the sidecar
    // is parsed, the binary is written, and the sidecar is left in place.
    let plan = download_kml(
        "root",
        "data/shapes.bin",
        "https://host/shapes.kml",
        &bounds(),
        true,
        false,
        true,
    );
    assert_eq!(
        plan,
        vec![
            Action::EnsureDir { path: "root/data".to_string() },
            Action::CopyFile {
                from: "root/data/shapes.kml".to_string(),
                to: "tmp_output".to_string(),
            },
            Action::ConvertKml {
                src: "tmp_output".to_string(),
                out: "root/data/shapes.bin".to_string(),
                bounds: bounds(),
                require_all_pts_in_bounds: true,
            },
            Action::MoveFile {
                from: "tmp_output".to_string(),
                to: "root/data/shapes.kml".to_string(),
            },
        ]
    );
    assert!(!plan.iter().any(|a| matches!(a, Action::Download { .. })));
}

#[test]
fn kml_without_sidecar_downloads_the_url() {
    let plan = download_kml(
        "root",
        "data/shapes.bin",
        "https://host/shapes.kml",
        &bounds(),
        false,
        false,
        false,
    );
    assert_eq!(
        plan[1],
        Action::Download { url: "https://host/shapes.kml".to_string(), to: "tmp_output".to_string() }
    );
}

#[test]
fn kml_of_an_existing_target_plans_nothing() {
    let plan = download_kml(
        "root",
        "data/shapes.bin",
        "https://host/shapes.kml",
        &bounds(),
        true,
        true,
        true,
    );
    assert!(plan.is_empty());
}

#[test]
fn osmconvert_clips_with_all_paths_resolved() {
    let plan = osmconvert("root", "input/big.osm", "input/region.poly", "input/small.osm", false);
    assert_eq!(
        plan,
        vec![Action::Clip {
            input: "root/input/big.osm".to_string(),
            polygon: "root/input/region.poly".to_string(),
            output: "root/input/small.osm".to_string(),
        }]
    );
}

#[test]
fn osmconvert_of_an_existing_output_plans_nothing() {
    let plan = osmconvert("root", "input/big.osm", "input/region.poly", "input/small.osm", true);
    assert!(plan.is_empty());
}

#[test]
fn rm_removes_the_named_path() {
    let plan = rm("tmp_output");
    assert_eq!(plan, vec![Action::Remove { path: "tmp_output".to_string() }]);
}

#[test]
fn raw_to_map_reads_builds_and_saves() {
    let plan = raw_to_map("root", "montlake", true);
    assert_eq!(
        plan,
        vec![
            Action::ReadRaw { path: "root/input/raw_maps/montlake.bin".to_string() },
            Action::BuildMap { build_routing: true },
            Action::SaveMap,
        ]
    );
}

// The path an external-tool action writes at, if the plan names one: what an
// unzip deposits inside its destination directory is the archive's business.
fn tool_write_destination(action: &Action) -> Option<String> {
    match action {
        Action::Download { to, .. } => Some(to.clone()),
        Action::Gunzip { path } => Some(path.trim_end_matches(".gz").to_string()),
        Action::MoveFile { to, .. } => Some(to.clone()),
        Action::CopyFile { to, .. } => Some(to.clone()),
        Action::Clip { output, .. } => Some(output.clone()),
        _ => None,
    }
}

#[test]
fn no_tool_before_the_last_step_writes_at_the_target() {
    // A failing tool exit aborts the operation; until the final step nothing
    // has been written at the target path.
    let cases = vec![
        (
            download("root", "data/extract.osm", "https://host/extract.osm.gz", false),
            "root/data/extract.osm",
        ),
        (
            download("root", "data/extract.osm", "https://host/extract.osm", false),
            "root/data/extract.osm",
        ),
        (
            download_kml(
                "root",
                "data/shapes.bin",
                "https://host/shapes.kml",
                &bounds(),
                true,
                false,
                true,
            ),
            "root/data/shapes.bin",
        ),
        (
            osmconvert("root", "input/big.osm", "input/region.poly", "data/small.osm", false),
            "root/data/small.osm",
        ),
    ];
    for (plan, target) in cases {
        for action in &plan[..plan.len() - 1] {
            assert_ne!(tool_write_destination(action).as_deref(), Some(target));
        }
    }
}

#[test]
fn city_manifest_is_written_for_the_designated_map_only() {
    let plan = city_manifest_plan("root", "huge_seattle", "seattle");
    assert_eq!(
        plan,
        vec![Action::WriteCityManifest { path: "root/system/cities/seattle.bin".to_string() }]
    );
    assert!(city_manifest_plan("root", "montlake", "seattle").is_empty());
}
