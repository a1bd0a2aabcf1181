//! The planners: one per pipeline operation. Each takes the operation's
//! arguments together with the cache gate's answers (plain filesystem
//! presence, checked by the caller on the resolved paths) and returns the
//! exact sequence of steps the operation performs — nothing at all when the
//! target is already present.

use vstd::prelude::*;

use crate::action::{plan_view, Action, Step};
use crate::paths::{
    contains_seq, ends_with, gz_name, kml_sidecar, kml_sidecar_path, lemma_resolved_has_slash,
    parent_dir, parent_of, resolve, resolved, str_contains, str_ends_with, str_eq,
    temp_file_name, temp_path, with_gz_suffix,
};
use crate::shapes::GpsBounds;

verus! {

/// Where a zip archive aimed at `output` is extracted: into the target itself
/// when the target is directory-shaped (trailing separator), otherwise into
/// the target's parent directory.
pub open spec fn unzip_dest(output: Seq<char>) -> Seq<char> {
    if ends_with(output, "/"@) {
        output
    } else {
        parent_dir(output)
    }
}

/// The steps `download` takes when the target is absent: create the target's
/// parent directory, fetch the URL into the temporary artifact, then normalize
/// by the URL's shape — extract a zip (substring match, tolerating
/// query-string tails) and drop the temporary, or gunzip via `<target>.gz`,
/// or move the temporary to the target verbatim.
pub open spec fn download_steps(output: Seq<char>, url: Seq<char>) -> Seq<Step> {
    let head = seq![
        Step::EnsureDir { path: parent_dir(output) },
        Step::Download { url, to: temp_path() },
    ];
    if contains_seq(url, ".zip"@) {
        head + seq![
            Step::Unzip { archive: temp_path(), into: unzip_dest(output) },
            Step::Remove { path: temp_path() },
        ]
    } else if ends_with(url, ".gz"@) {
        head + seq![
            Step::MoveFile { from: temp_path(), to: gz_name(output) },
            Step::Gunzip { path: gz_name(output) },
        ]
    } else {
        head + seq![Step::MoveFile { from: temp_path(), to: output }]
    }
}

/// The plan of `download`: nothing when the target exists.
pub open spec fn download_plan(output: Seq<char>, url: Seq<char>, output_exists: bool) -> Seq<
    Step,
> {
    if output_exists {
        seq![]
    } else {
        download_steps(output, url)
    }
}

/// Format Normalizer. Plans the fetch of `url` into the target `output`
/// (resolved against `root`), uncompressing `.zip` and `.gz` sources.
/// `output_exists` is the cache gate's answer for the resolved target: when
/// the target is present the plan is empty and the operation a no-op.
pub fn download(root: &str, output: &str, url: &str, output_exists: bool) -> (plan: Vec<Action>)
    ensures
        plan_view(plan@) == download_plan(resolved(root@, output@), url@, output_exists),
{
    let mut plan: Vec<Action> = Vec::new();
    if output_exists {
        proof {
            assert(plan_view(plan@) =~= download_plan(resolved(root@, output@), url@, true));
        }
        return plan;
    }
    let out = resolve(root, output);
    proof {
        lemma_resolved_has_slash(root@, output@);
    }
    let parent = parent_of(out.as_str());
    plan.push(Action::EnsureDir { path: parent });
    plan.push(Action::Download { url: url.to_owned(), to: temp_file_name() });
    if str_contains(url, ".zip") {
        let dest = if str_ends_with(out.as_str(), "/") {
            out
        } else {
            parent_of(out.as_str())
        };
        plan.push(Action::Unzip { archive: temp_file_name(), into: dest });
        plan.push(Action::Remove { path: temp_file_name() });
    } else if str_ends_with(url, ".gz") {
        plan.push(Action::MoveFile { from: temp_file_name(), to: with_gz_suffix(out.as_str()) });
        plan.push(Action::Gunzip { path: with_gz_suffix(out.as_str()) });
    } else {
        plan.push(Action::MoveFile { from: temp_file_name(), to: out });
    }
    proof {
        assert(plan_view(plan@) =~= download_plan(resolved(root@, output@), url@, false));
    }
    plan
}

/// The steps `download_kml` takes when the binary target is absent: create the
/// parent directory; land the KML in the temporary artifact — copied from the
/// sidecar when one is already on disk (the pipeline never re-fetches a KML it
/// has captured once), downloaded otherwise; parse and filter it and persist
/// the binary collection; then retain the KML as the sidecar rather than
/// deleting it.
pub open spec fn download_kml_steps(
    output: Seq<char>,
    url: Seq<char>,
    bounds: GpsBounds,
    require_all: bool,
    sidecar_exists: bool,
) -> Seq<Step> {
    seq![
        Step::EnsureDir { path: parent_dir(output) },
        if sidecar_exists {
            Step::CopyFile { from: kml_sidecar(output), to: temp_path() }
        } else {
            Step::Download { url, to: temp_path() }
        },
        Step::ConvertKml {
            src: temp_path(),
            out: output,
            bounds,
            require_all_pts_in_bounds: require_all,
        },
        Step::MoveFile { from: temp_path(), to: kml_sidecar(output) },
    ]
}

/// The plan of `download_kml`: nothing when the binary target exists.
pub open spec fn download_kml_plan(
    output: Seq<char>,
    url: Seq<char>,
    bounds: GpsBounds,
    require_all: bool,
    output_exists: bool,
    sidecar_exists: bool,
) -> Seq<Step> {
    if output_exists {
        seq![]
    } else {
        download_kml_steps(output, url, bounds, require_all, sidecar_exists)
    }
}

/// KML-to-Shapes Converter. Plans the fetch-or-reuse of a KML resource and its
/// conversion to the binary target `output` (resolved against `root`),
/// retaining the KML sidecar. The caller guarantees the URL denotes a KML
/// resource; `output_exists` and `sidecar_exists` are the cache gate's answers
/// for the resolved target and for its sidecar (`kml_sidecar_path` of the
/// resolved target).
pub fn download_kml(
    root: &str,
    output: &str,
    url: &str,
    bounds: &GpsBounds,
    require_all_pts_in_bounds: bool,
    output_exists: bool,
    sidecar_exists: bool,
) -> (plan: Vec<Action>)
    requires
        ends_with(url@, ".kml"@),
    ensures
        plan_view(plan@) == download_kml_plan(
            resolved(root@, output@),
            url@,
            *bounds,
            require_all_pts_in_bounds,
            output_exists,
            sidecar_exists,
        ),
{
    let mut plan: Vec<Action> = Vec::new();
    if output_exists {
        proof {
            assert(plan_view(plan@) =~= download_kml_plan(
                resolved(root@, output@),
                url@,
                *bounds,
                require_all_pts_in_bounds,
                true,
                sidecar_exists,
            ));
        }
        return plan;
    }
    let out = resolve(root, output);
    proof {
        lemma_resolved_has_slash(root@, output@);
    }
    plan.push(Action::EnsureDir { path: parent_of(out.as_str()) });
    if sidecar_exists {
        plan.push(Action::CopyFile {
            from: kml_sidecar_path(out.as_str()),
            to: temp_file_name(),
        });
    } else {
        plan.push(Action::Download { url: url.to_owned(), to: temp_file_name() });
    }
    plan.push(Action::ConvertKml {
        src: temp_file_name(),
        out: out.clone(),
        bounds: *bounds,
        require_all_pts_in_bounds,
    });
    plan.push(Action::MoveFile { from: temp_file_name(), to: kml_sidecar_path(out.as_str()) });
    proof {
        assert(plan_view(plan@) =~= download_kml_plan(
            resolved(root@, output@),
            url@,
            *bounds,
            require_all_pts_in_bounds,
            false,
            sidecar_exists,
        ));
    }
    plan
}

/// The plan of `osmconvert`: one clipping step, or nothing when the output
/// exists.
pub open spec fn osmconvert_plan(
    input: Seq<char>,
    polygon: Seq<char>,
    output: Seq<char>,
    output_exists: bool,
) -> Seq<Step> {
    if output_exists {
        seq![]
    } else {
        seq![Step::Clip { input, polygon, output }]
    }
}

/// Polygon Clipper. Plans the clipping of the OSM extract `input` against
/// `clipping_polygon` into `output`, all three resolved against `root`.
/// `output_exists` is the cache gate's answer for the resolved output.
pub fn osmconvert(
    root: &str,
    input: &str,
    clipping_polygon: &str,
    output: &str,
    output_exists: bool,
) -> (plan: Vec<Action>)
    ensures
        plan_view(plan@) == osmconvert_plan(
            resolved(root@, input@),
            resolved(root@, clipping_polygon@),
            resolved(root@, output@),
            output_exists,
        ),
{
    let mut plan: Vec<Action> = Vec::new();
    if !output_exists {
        plan.push(Action::Clip {
            input: resolve(root, input),
            polygon: resolve(root, clipping_polygon),
            output: resolve(root, output),
        });
    }
    proof {
        assert(plan_view(plan@) =~= osmconvert_plan(
            resolved(root@, input@),
            resolved(root@, clipping_polygon@),
            resolved(root@, output@),
            output_exists,
        ));
    }
    plan
}

/// The plan of `rm`: one removal.
pub open spec fn rm_plan(path: Seq<char>) -> Seq<Step> {
    seq![Step::Remove { path }]
}

/// Plans the removal of a file or directory tree at `path` (not resolved
/// against the artifact root: the caller names the exact path).
pub fn rm(path: &str) -> (plan: Vec<Action>)
    ensures
        plan_view(plan@) == rm_plan(path@),
{
    let mut plan: Vec<Action> = Vec::new();
    plan.push(Action::Remove { path: path.to_owned() });
    proof {
        assert(plan_view(plan@) =~= rm_plan(path@));
    }
    plan
}

/// The canonical location of the raw map representation for `name`.
pub open spec fn raw_map_path(root: Seq<char>, name: Seq<char>) -> Seq<char> {
    resolved(root, "input/raw_maps/"@ + name + ".bin"@)
}

/// The plan of `raw_to_map`: read the raw representation, construct the map,
/// persist it.
pub open spec fn raw_to_map_plan(root: Seq<char>, name: Seq<char>, build_routing: bool) -> Seq<
    Step,
> {
    seq![
        Step::ReadRaw { path: raw_map_path(root, name) },
        Step::BuildMap { build_routing },
        Step::SaveMap,
    ]
}

/// Raw-to-Map Converter. Plans reading the raw representation of `name` from
/// its canonical location, constructing the map (with its routing structure
/// when `build_ch` is set) and persisting it. Whether the city manifest is
/// also owed depends on the constructed map's name: see `city_manifest_plan`.
pub fn raw_to_map(root: &str, name: &str, build_ch: bool) -> (plan: Vec<Action>)
    ensures
        plan_view(plan@) == raw_to_map_plan(root@, name@, build_ch),
{
    let mut rel = String::from_str("input/raw_maps/");
    rel.append(name);
    rel.append(".bin");
    let mut plan: Vec<Action> = Vec::new();
    plan.push(Action::ReadRaw { path: resolve(root, rel.as_str()) });
    plan.push(Action::BuildMap { build_routing: build_ch });
    plan.push(Action::SaveMap);
    proof {
        assert(plan_view(plan@) =~= raw_to_map_plan(root@, name@, build_ch));
    }
    plan
}

/// The designated large reference map: the one map that gets a city manifest.
pub open spec fn manifest_map_name() -> Seq<char> {
    "huge_seattle"@
}

/// The canonical location of the city manifest keyed by the map's city name.
pub open spec fn city_manifest_path(root: Seq<char>, city_name: Seq<char>) -> Seq<char> {
    resolved(root, "system/cities/"@ + city_name + ".bin"@)
}

/// The plan of `city_manifest_plan`: one manifest write for the designated
/// map, nothing for every other.
pub open spec fn city_manifest_steps(
    root: Seq<char>,
    map_name: Seq<char>,
    city_name: Seq<char>,
) -> Seq<Step> {
    if map_name == manifest_map_name() {
        seq![Step::WriteCityManifest { path: city_manifest_path(root, city_name) }]
    } else {
        seq![]
    }
}

/// The name-keyed special case of the Raw-to-Map Converter: only the
/// designated large reference map gets a city manifest, persisted under the
/// map's declared city name. `map_name` and `city_name` are the names the
/// constructed map declares.
pub fn city_manifest_plan(root: &str, map_name: &str, city_name: &str) -> (plan: Vec<Action>)
    ensures
        plan_view(plan@) == city_manifest_steps(root@, map_name@, city_name@),
{
    let mut plan: Vec<Action> = Vec::new();
    if str_eq(map_name, "huge_seattle") {
        let mut rel = String::from_str("system/cities/");
        rel.append(city_name);
        rel.append(".bin");
        plan.push(Action::WriteCityManifest { path: resolve(root, rel.as_str()) });
    }
    proof {
        assert(plan_view(plan@) =~= city_manifest_steps(root@, map_name@, city_name@));
    }
    plan
}

} // verus!
