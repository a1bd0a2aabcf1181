//! The steps a pipeline operation plans. An `Action` is an executable value a
//! driver can carry out; its mathematical value is a `Step` over character
//! sequences, which the planners' contracts and the laws speak of.

use vstd::prelude::*;

use crate::shapes::GpsBounds;

verus! {

/// One step of a data-preparation plan, in the order the plan lists them.
#[derive(Debug, PartialEq, Eq)]
pub enum Action {
    /// Create the directory (and its ancestors) so the following writes land
    /// in an existing place. Done in-process, not by an external tool.
    EnsureDir { path: String },
    /// Fetch the URL into a local file with the external fetch tool, failing
    /// loudly on HTTP errors and following redirects.
    Download { url: String, to: String },
    /// Extract a zip archive into a directory with the external unzip tool.
    Unzip { archive: String, into: String },
    /// Decompress the `.gz` file in place with the external gunzip tool,
    /// leaving the name without its suffix.
    Gunzip { path: String },
    /// Move a file with the external move tool.
    MoveFile { from: String, to: String },
    /// Copy a file with the external copy tool.
    CopyFile { from: String, to: String },
    /// Remove a file or directory tree with the external remove tool.
    Remove { path: String },
    /// Parse the KML file at `src`, filter its shapes against `bounds` (see
    /// `crate::shapes::filter_shapes`), and persist the collection in its
    /// binary form at `out`. Done in-process by the parser and the codec.
    ConvertKml { src: String, out: String, bounds: GpsBounds, require_all_pts_in_bounds: bool },
    /// Clip the OSM extract `input` against the bounding `polygon`, keeping
    /// only complete ways, writing `output` (external clipping tool).
    Clip { input: String, polygon: String, output: String },
    /// Read the raw map representation at `path` (in-process codec).
    ReadRaw { path: String },
    /// Construct the map from the raw representation just read, optionally
    /// building its routing structure (in-process map construction).
    BuildMap { build_routing: bool },
    /// Persist the constructed map at its canonical location (in-process).
    SaveMap,
    /// Construct and persist the city manifest summarizing the map (in-process).
    WriteCityManifest { path: String },
}

/// The mathematical value of an `Action`: the same step over the paths' and
/// URLs' character sequences.
pub enum Step {
    EnsureDir { path: Seq<char> },
    Download { url: Seq<char>, to: Seq<char> },
    Unzip { archive: Seq<char>, into: Seq<char> },
    Gunzip { path: Seq<char> },
    MoveFile { from: Seq<char>, to: Seq<char> },
    CopyFile { from: Seq<char>, to: Seq<char> },
    Remove { path: Seq<char> },
    ConvertKml { src: Seq<char>, out: Seq<char>, bounds: GpsBounds, require_all_pts_in_bounds: bool },
    Clip { input: Seq<char>, polygon: Seq<char>, output: Seq<char> },
    ReadRaw { path: Seq<char> },
    BuildMap { build_routing: bool },
    SaveMap,
    WriteCityManifest { path: Seq<char> },
}

impl View for Action {
    type V = Step;

    open spec fn view(&self) -> Step {
        match self {
            Action::EnsureDir { path } => Step::EnsureDir { path: path@ },
            Action::Download { url, to } => Step::Download { url: url@, to: to@ },
            Action::Unzip { archive, into } => Step::Unzip { archive: archive@, into: into@ },
            Action::Gunzip { path } => Step::Gunzip { path: path@ },
            Action::MoveFile { from, to } => Step::MoveFile { from: from@, to: to@ },
            Action::CopyFile { from, to } => Step::CopyFile { from: from@, to: to@ },
            Action::Remove { path } => Step::Remove { path: path@ },
            Action::ConvertKml { src, out, bounds, require_all_pts_in_bounds } => Step::ConvertKml {
                src: src@,
                out: out@,
                bounds: *bounds,
                require_all_pts_in_bounds: *require_all_pts_in_bounds,
            },
            Action::Clip { input, polygon, output } => Step::Clip {
                input: input@,
                polygon: polygon@,
                output: output@,
            },
            Action::ReadRaw { path } => Step::ReadRaw { path: path@ },
            Action::BuildMap { build_routing } => Step::BuildMap {
                build_routing: *build_routing,
            },
            Action::SaveMap => Step::SaveMap,
            Action::WriteCityManifest { path } => Step::WriteCityManifest { path: path@ },
        }
    }
}

/// The mathematical value of a plan: its steps, in order.
pub open spec fn plan_view(plan: Seq<Action>) -> Seq<Step> {
    plan.map_values(|a: Action| a@)
}

} // verus!
