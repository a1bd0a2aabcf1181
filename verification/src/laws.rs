//! The pipeline's laws, proved of the plans the planners return.

use vstd::prelude::*;

use crate::action::Step;
use crate::paths::{
    contains_seq, ends_with, gunzip_result, gz_name, has_slash, kml_sidecar,
    lemma_gz_round_trip, lemma_last_slash_in_range, lemma_resolved_has_slash,
    lemma_temp_path_no_slash, parent_dir, resolved, temp_path,
};
use crate::plans::{download_kml_plan, download_plan, download_steps, osmconvert_plan};
use crate::shapes::GpsBounds;

verus! {

/// Idempotence: when the cache gate reports the target already present, every
/// operation plans nothing at all — a second call with the same arguments and
/// no intervening filesystem change performs zero actions.
pub proof fn lemma_idempotent(
    output: Seq<char>,
    url: Seq<char>,
    input: Seq<char>,
    polygon: Seq<char>,
    bounds: GpsBounds,
    require_all: bool,
    sidecar_exists: bool,
)
    ensures
        download_plan(output, url, true) == Seq::<Step>::empty(),
        download_kml_plan(output, url, bounds, require_all, true, sidecar_exists) == Seq::<
            Step,
        >::empty(),
        osmconvert_plan(input, polygon, output, true) == Seq::<Step>::empty(),
{
    assert(download_plan(output, url, true) =~= Seq::<Step>::empty());
    assert(download_kml_plan(output, url, bounds, require_all, true, sidecar_exists) =~= Seq::<
        Step,
    >::empty());
    assert(osmconvert_plan(input, polygon, output, true) =~= Seq::<Step>::empty());
}

/// Format dispatch: a URL containing `.zip` (substring containment, tolerating
/// query-string tails) is extracted into the target's parent directory, or
/// into the target itself when the target is directory-shaped; a URL ending in
/// `.gz` is gunzipped so that the final path drops the suffix and is exactly
/// the target; any other URL is moved verbatim to the target.
pub proof fn lemma_format_dispatch(output: Seq<char>, url: Seq<char>)
    ensures
        contains_seq(url, ".zip"@) && ends_with(output, "/"@) ==> download_steps(output, url)[2]
            == (Step::Unzip { archive: temp_path(), into: output }),
        contains_seq(url, ".zip"@) && !ends_with(output, "/"@) ==> download_steps(output, url)[2]
            == (Step::Unzip { archive: temp_path(), into: parent_dir(output) }),
        !contains_seq(url, ".zip"@) && ends_with(url, ".gz"@) ==> download_steps(
            output,
            url,
        ).last() == (Step::Gunzip { path: gz_name(output) }) && gunzip_result(gz_name(output))
            == output,
        !contains_seq(url, ".zip"@) && !ends_with(url, ".gz"@) ==> download_steps(
            output,
            url,
        ).last() == (Step::MoveFile { from: temp_path(), to: output }),
{
    lemma_gz_round_trip(output);
}

/// Whether any step of the plan fetches from the network.
pub open spec fn fetches_nothing(plan: Seq<Step>) -> bool {
    forall|i: int| 0 <= i < plan.len() ==> !((#[trigger] plan[i]) is Download)
}

/// Whether any step of the plan removes the path.
pub open spec fn never_removes(plan: Seq<Step>, path: Seq<char>) -> bool {
    forall|i: int| 0 <= i < plan.len() ==> !((#[trigger] plan[i]) matches Step::Remove {
        path: p,
    } && p == path)
}

/// KML reuse: when the sidecar KML exists but the binary target does not, the
/// plan fetches nothing from the network — the sidecar is copied into the
/// temporary artifact and consumed directly — and no step removes the sidecar
/// (the final move writes the temporary, its copy, back over it).
pub proof fn lemma_kml_reuse(
    output: Seq<char>,
    url: Seq<char>,
    bounds: GpsBounds,
    require_all: bool,
)
    ensures
        fetches_nothing(download_kml_plan(output, url, bounds, require_all, false, true)),
        download_kml_plan(output, url, bounds, require_all, false, true)[1] == (Step::CopyFile {
            from: kml_sidecar(output),
            to: temp_path(),
        }),
        never_removes(
            download_kml_plan(output, url, bounds, require_all, false, true),
            kml_sidecar(output),
        ),
{
}

/// Whether the step is carried out by an external tool, whose non-zero exit
/// aborts the run, as opposed to in-process work.
pub open spec fn is_tool_step(s: Step) -> bool {
    match s {
        Step::EnsureDir { .. } => false,
        Step::Download { .. } => true,
        Step::Unzip { .. } => true,
        Step::Gunzip { .. } => true,
        Step::MoveFile { .. } => true,
        Step::CopyFile { .. } => true,
        Step::Remove { .. } => true,
        Step::ConvertKml { .. } => false,
        Step::Clip { .. } => true,
        Step::ReadRaw { .. } => false,
        Step::BuildMap { .. } => false,
        Step::SaveMap => false,
        Step::WriteCityManifest { .. } => false,
    }
}

/// The one path the step writes at, where the plan itself can name it. What a
/// zip archive holds is not modeled, so `Unzip`, which writes at paths the
/// archive alone determines inside its destination directory, names none.
pub open spec fn writes_at(s: Step, p: Seq<char>) -> bool {
    match s {
        Step::EnsureDir { path } => path == p,
        Step::Download { to, .. } => to == p,
        Step::Unzip { .. } => false,
        Step::Gunzip { path } => gunzip_result(path) == p,
        Step::MoveFile { to, .. } => to == p,
        Step::CopyFile { to, .. } => to == p,
        Step::Remove { .. } => false,
        Step::ConvertKml { out, .. } => out == p,
        Step::Clip { output, .. } => output == p,
        Step::ReadRaw { .. } => false,
        Step::BuildMap { .. } => false,
        Step::SaveMap => false,
        Step::WriteCityManifest { path } => path == p,
    }
}

/// Whether no external-tool step other than the plan's last writes at `target`.
pub open spec fn tools_spare_target_until_last(plan: Seq<Step>, target: Seq<char>) -> bool {
    forall|i: int|
        0 <= i < plan.len() - 1 ==> !(is_tool_step(#[trigger] plan[i]) && writes_at(
            plan[i],
            target,
        ))
}

/// Two strings differ when one holds a separator and the other holds none.
proof fn lemma_slash_distinguishes(a: Seq<char>, b: Seq<char>)
    requires
        has_slash(a),
        !has_slash(b),
    ensures
        a != b,
{
    let i = choose|i: int| 0 <= i < a.len() && a[i] == '/';
    if a == b {
        assert(b[i] == '/');
    }
}

/// The parent directory is strictly shorter than the path it came from.
proof fn lemma_parent_dir_differs(s: Seq<char>)
    requires
        has_slash(s),
    ensures
        parent_dir(s) != s,
{
    lemma_last_slash_in_range(s);
    assert(parent_dir(s).len() < s.len());
}

/// Fatal propagation: in every plan an operation returns for a resolved
/// target, an external-tool step that writes at the target is the plan's final
/// step. A simulated non-zero exit from any tool therefore terminates the
/// operation before anything stands at the target path; the final step's own
/// write (a move, or a gunzip in place) lands whole or not at all. What a zip
/// archive deposits inside the extraction directory is not modeled and not
/// covered.
pub proof fn lemma_fatal_exit_leaves_no_target(
    root: Seq<char>,
    output: Seq<char>,
    url: Seq<char>,
    input: Seq<char>,
    polygon: Seq<char>,
    bounds: GpsBounds,
    require_all: bool,
    sidecar_exists: bool,
)
    ensures
        tools_spare_target_until_last(
            download_plan(resolved(root, output), url, false),
            resolved(root, output),
        ),
        tools_spare_target_until_last(
            download_kml_plan(
                resolved(root, output),
                url,
                bounds,
                require_all,
                false,
                sidecar_exists,
            ),
            resolved(root, output),
        ),
        tools_spare_target_until_last(
            osmconvert_plan(resolved(root, input), resolved(root, polygon), resolved(
                root,
                output,
            ), false),
            resolved(root, output),
        ),
{
    let out = resolved(root, output);
    lemma_resolved_has_slash(root, output);
    lemma_temp_path_no_slash();
    lemma_slash_distinguishes(out, temp_path());
    lemma_parent_dir_differs(out);
    assert(gz_name(out) != out) by {
        reveal_strlit(".gz");
        assert(gz_name(out).len() == out.len() + 3);
    }
    let plan = download_plan(out, url, false);
    assert forall|i: int| 0 <= i < plan.len() - 1 implies !(is_tool_step(#[trigger] plan[i])
        && writes_at(plan[i], out)) by {
        if contains_seq(url, ".zip"@) {
            assert(plan.len() == 4);
        } else if ends_with(url, ".gz"@) {
            assert(plan.len() == 4);
        } else {
            assert(plan.len() == 3);
        }
    }
    let kplan = download_kml_plan(out, url, bounds, require_all, false, sidecar_exists);
    assert forall|i: int| 0 <= i < kplan.len() - 1 implies !(is_tool_step(#[trigger] kplan[i])
        && writes_at(kplan[i], out)) by {
        assert(kplan.len() == 4);
    }
}

} // verus!
