//! The project record and the mutations the store applies to the project
//! collection. The collection is read and rewritten whole by the caller;
//! these functions perform the in-memory mutation and say exactly which
//! record changed and how.
use crate::errors::CoreError;
use crate::stamp::generate_project_id;
use crate::stamp::now_iso;
use crate::text::dec_of;
use vstd::prelude::*;

verus! {

/// A project's settings: pure value data, replaced wholesale on update.
#[derive(Debug)]
pub struct ProjectSettings {
    pub aspect_ratio: String,
    pub fps: u32,
    pub resolution: String,
    pub language: String,
    pub ai_mode: String,
    pub fallback_policy: Option<String>,
    pub transcription_model: Option<String>,
    pub cut_planner_model: Option<String>,
    pub template_planner_model: Option<String>,
}

/// One project record: settings plus pipeline status.
#[derive(Debug)]
pub struct Project {
    pub id: String,
    pub name: String,
    pub settings: ProjectSettings,
    pub status: String,
    pub created_at: String,
    pub updated_at: String,
}

/// Some record in `s` has the id `id`.
pub open spec fn has_project(s: Seq<Project>, id: Seq<char>) -> bool {
    exists|i: int| 0 <= i < s.len() && s[i].id@ == id
}

/// `new_s` is `old_s` with only the record at `i` replaced, and `i` is the
/// first record whose id is `id`.
pub open spec fn record_replaced(
    old_s: Seq<Project>,
    new_s: Seq<Project>,
    i: int,
    id: Seq<char>,
) -> bool {
    &&& 0 <= i < old_s.len()
    &&& old_s[i].id@ == id
    &&& forall|k: int| 0 <= k < i ==> (#[trigger] old_s[k]).id@ != id
    &&& new_s == old_s.update(i, new_s[i])
}

/// The record at `i` of `new_s` keeps its identity and creation data from
/// `old_s`, carries the new settings, and is stamped `SETTINGS_SAVED`.
pub open spec fn settings_replaced(
    old_s: Seq<Project>,
    new_s: Seq<Project>,
    i: int,
    settings: ProjectSettings,
) -> bool {
    &&& new_s[i].id@ == old_s[i].id@
    &&& new_s[i].name@ == old_s[i].name@
    &&& new_s[i].settings == settings
    &&& new_s[i].status@ == "SETTINGS_SAVED"@
    &&& new_s[i].created_at@ == old_s[i].created_at@
    &&& exists|n: nat| new_s[i].updated_at@ == dec_of(n)
}

/// The record at `i` of `new_s` keeps everything from `old_s` but its
/// status, which becomes `status`, and its update stamp.
pub open spec fn status_replaced(
    old_s: Seq<Project>,
    new_s: Seq<Project>,
    i: int,
    status: Seq<char>,
) -> bool {
    &&& new_s[i].id@ == old_s[i].id@
    &&& new_s[i].name@ == old_s[i].name@
    &&& new_s[i].settings == old_s[i].settings
    &&& new_s[i].status@ == status
    &&& new_s[i].created_at@ == old_s[i].created_at@
    &&& exists|n: nat| new_s[i].updated_at@ == dec_of(n)
}

fn clone_opt_string(o: &Option<String>) -> (r: Option<String>)
    ensures
        r == o,
{
    match o {
        Option::Some(s) => Option::Some(s.clone()),
        Option::None => Option::None,
    }
}

/// A field-for-field copy of the settings.
pub fn clone_settings(s: &ProjectSettings) -> (r: ProjectSettings)
    ensures
        r == s,
{
    ProjectSettings {
        aspect_ratio: s.aspect_ratio.clone(),
        fps: s.fps,
        resolution: s.resolution.clone(),
        language: s.language.clone(),
        ai_mode: s.ai_mode.clone(),
        fallback_policy: clone_opt_string(&s.fallback_policy),
        transcription_model: clone_opt_string(&s.transcription_model),
        cut_planner_model: clone_opt_string(&s.cut_planner_model),
        template_planner_model: clone_opt_string(&s.template_planner_model),
    }
}

/// A field-for-field copy of the record.
pub fn clone_project(p: &Project) -> (r: Project)
    ensures
        r == p,
{
    Project {
        id: p.id.clone(),
        name: p.name.clone(),
        settings: clone_settings(&p.settings),
        status: p.status.clone(),
        created_at: p.created_at.clone(),
        updated_at: p.updated_at.clone(),
    }
}

/// Append a fresh project to the collection: fresh time-derived id, status
/// `PROJECT_CREATED`, creation and update stamps equal. Always succeeds;
/// returns a copy of the new record.
pub fn create_project(projects: &mut Vec<Project>, name: String, settings: ProjectSettings) -> (r:
    Project)
    ensures
        final(projects)@ == old(projects)@.push(r),
        r.name@ == name@,
        r.settings == settings,
        r.status@ == "PROJECT_CREATED"@,
        r.created_at@ == r.updated_at@,
        exists|n: nat| r.created_at@ == dec_of(n),
        exists|n: nat| r.id@ == "proj-"@ + dec_of(n),
{
    let now = now_iso();
    let project = Project {
        id: generate_project_id(),
        name,
        settings,
        status: "PROJECT_CREATED".to_owned(),
        created_at: now.clone(),
        updated_at: now,
    };
    let copy = clone_project(&project);
    projects.push(project);
    copy
}

/// Replace the settings of the project with the given id, stamp it
/// `SETTINGS_SAVED`, and return a copy of the updated record. Fails with
/// `NotFound` — and leaves the collection unchanged — exactly when no
/// record has the id.
pub fn update_project_settings(
    projects: &mut Vec<Project>,
    project_id: &String,
    settings: ProjectSettings,
) -> (r: Result<Project, CoreError>)
    ensures
        r is Ok <==> has_project(old(projects)@, project_id@),
        r matches Err(e) ==> {
            &&& final(projects)@ == old(projects)@
            &&& e matches CoreError::NotFound(m) && m@ == "Project not found."@
        },
        r matches Ok(p) ==> {
            &&& final(projects)@.len() == old(projects)@.len()
            &&& exists|i: int|
                {
                    &&& #[trigger] record_replaced(old(projects)@, final(projects)@, i, project_id@)
                    &&& settings_replaced(old(projects)@, final(projects)@, i, settings)
                    &&& final(projects)@[i] == p
                }
        },
{
    let now = now_iso();
    let n = projects.len();
    let mut i: usize = 0;
    while i < n
        invariant
            i <= n,
            n == projects@.len(),
            projects@ == old(projects)@,
            exists|x: nat| now@ == dec_of(x),
            forall|k: int| 0 <= k < i ==> (#[trigger] projects@[k]).id@ != project_id@,
        decreases n - i,
    {
        if projects[i].id == *project_id {
            let cur = &projects[i];
            let updated = Project {
                id: cur.id.clone(),
                name: cur.name.clone(),
                settings,
                status: "SETTINGS_SAVED".to_owned(),
                created_at: cur.created_at.clone(),
                updated_at: now,
            };
            let copy = clone_project(&updated);
            projects.set(i, updated);
            proof {
                let i0 = i as int;
                assert(record_replaced(old(projects)@, projects@, i0, project_id@));
                assert(projects@[i0].updated_at@ == now@);
                assert(settings_replaced(old(projects)@, projects@, i0, settings));
            }
            return Ok(copy);
        }
        i += 1;
    }
    Err(CoreError::NotFound("Project not found.".to_owned()))
}

/// Set the status of the project with the given id and stamp its update
/// time. Fails with `NotFound` — and leaves the collection unchanged —
/// exactly when no record has the id.
pub fn update_project_status(projects: &mut Vec<Project>, project_id: &String, status: &str) -> (r:
    Result<(), CoreError>)
    ensures
        r is Ok <==> has_project(old(projects)@, project_id@),
        r matches Err(e) ==> {
            &&& final(projects)@ == old(projects)@
            &&& e matches CoreError::NotFound(m) && m@ == "Project not found."@
        },
        r is Ok ==> {
            &&& final(projects)@.len() == old(projects)@.len()
            &&& exists|i: int|
                {
                    &&& #[trigger] record_replaced(old(projects)@, final(projects)@, i, project_id@)
                    &&& status_replaced(old(projects)@, final(projects)@, i, status@)
                }
        },
{
    let now = now_iso();
    let n = projects.len();
    let mut i: usize = 0;
    while i < n
        invariant
            i <= n,
            n == projects@.len(),
            projects@ == old(projects)@,
            exists|x: nat| now@ == dec_of(x),
            forall|k: int| 0 <= k < i ==> (#[trigger] projects@[k]).id@ != project_id@,
        decreases n - i,
    {
        if projects[i].id == *project_id {
            let cur = &projects[i];
            let updated = Project {
                id: cur.id.clone(),
                name: cur.name.clone(),
                settings: clone_settings(&cur.settings),
                status: status.to_owned(),
                created_at: cur.created_at.clone(),
                updated_at: now,
            };
            projects.set(i, updated);
            proof {
                let i0 = i as int;
                assert(record_replaced(old(projects)@, projects@, i0, project_id@));
                assert(projects@[i0].updated_at@ == now@);
                assert(status_replaced(old(projects)@, projects@, i0, status@));
            }
            return Ok(());
        }
        i += 1;
    }
    Err(CoreError::NotFound("Project not found.".to_owned()))
}

} // verus!
