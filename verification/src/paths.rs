//! Where the stores live under a workspace root. The paths are plain
//! strings joined with `/`; the caller resolves the root and touches the
//! filesystem.
use vstd::prelude::*;
use vstd::string::StringExecFns;

verus! {

/// The path of a collaborator script, relative to the workspace root.
pub fn script_path(root: &str, relative: &str) -> (r: String)
    ensures
        r@ == root@ + "/"@ + relative@,
{
    let s: String = root.to_owned();
    s.concat("/").concat(relative)
}

/// The single collection file holding every project record.
pub fn projects_file_path(root: &str) -> (r: String)
    ensures
        r@ == root@ + "/desktop/data/projects.json"@,
{
    let s: String = root.to_owned();
    s.concat("/desktop/data/projects.json")
}

/// The per-project timeline document.
pub fn timeline_file_path(root: &str, project_id: &str) -> (r: String)
    ensures
        r@ == root@ + "/desktop/data/"@ + project_id@ + "/timeline.json"@,
{
    let s: String = root.to_owned();
    s.concat("/desktop/data/").concat(project_id).concat("/timeline.json")
}

/// The per-project render-history collection file.
pub fn render_history_file_path(root: &str, project_id: &str) -> (r: String)
    ensures
        r@ == root@ + "/desktop/data/"@ + project_id@ + "/renders/history.json"@,
{
    let s: String = root.to_owned();
    s.concat("/desktop/data/").concat(project_id).concat("/renders/history.json")
}

/// The per-project telemetry summary file.
pub fn telemetry_summary_file_path(root: &str, project_id: &str) -> (r: String)
    ensures
        r@ == root@ + "/desktop/data/"@ + project_id@ + "/telemetry/summary.json"@,
{
    let s: String = root.to_owned();
    s.concat("/desktop/data/").concat(project_id).concat("/telemetry/summary.json")
}

/// The per-project telemetry events append log.
pub fn telemetry_events_file_path(root: &str, project_id: &str) -> (r: String)
    ensures
        r@ == root@ + "/desktop/data/"@ + project_id@ + "/telemetry/events.jsonl"@,
{
    let s: String = root.to_owned();
    s.concat("/desktop/data/").concat(project_id).concat("/telemetry/events.jsonl")
}

} // verus!
