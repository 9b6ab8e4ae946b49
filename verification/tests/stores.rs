use editor_core::errors::CoreError;
use editor_core::project::{
    create_project, update_project_settings, update_project_status, Project, ProjectSettings,
};
use editor_core::telemetry::{get_project_telemetry, get_render_history, recent_events};
use serde_json::Value;

fn settings(fps: u32, language: &str) -> ProjectSettings {
    ProjectSettings {
        aspect_ratio: "16:9".to_string(),
        fps,
        resolution: "1920x1080".to_string(),
        language: language.to_string(),
        ai_mode: "hybrid".to_string(),
        fallback_policy: None,
        transcription_model: None,
        cut_planner_model: None,
        template_planner_model: None,
    }
}

fn json(text: &str) -> Value {
    serde_json::from_str::<Value>(text).unwrap()
}

#[test]
fn create_project_appends_a_fresh_record() {
    let mut projects: Vec<Project> = Vec::new();
    let created = create_project(&mut projects, "My Cut".to_string(), settings(30, "en"));
    assert_eq!(projects.len(), 1);
    assert_eq!(created.name, "My Cut");
    assert_eq!(created.status, "PROJECT_CREATED");
    assert!(created.id.starts_with("proj-"));
    assert_eq!(created.created_at, created.updated_at);
    assert_eq!(projects[0].id, created.id);
    assert_eq!(projects[0].status, "PROJECT_CREATED");
}

#[test]
fn update_settings_replaces_wholesale_and_stamps_status() {
    let mut projects: Vec<Project> = Vec::new();
    let created = create_project(&mut projects, "A".to_string(), settings(30, "en"));
    let id = created.id.clone();
    let updated = update_project_settings(&mut projects, &id, settings(24, "de")).unwrap();
    assert_eq!(updated.id, id);
    assert_eq!(updated.name, "A");
    assert_eq!(updated.status, "SETTINGS_SAVED");
    assert_eq!(updated.settings.fps, 24);
    assert_eq!(updated.settings.language, "de");
    assert_eq!(projects[0].status, "SETTINGS_SAVED");
    assert_eq!(projects[0].settings.fps, 24);
}

#[test]
fn update_settings_on_unknown_id_is_not_found_and_changes_nothing() {
    let mut projects: Vec<Project> = Vec::new();
    create_project(&mut projects, "A".to_string(), settings(30, "en"));
    let before_status = projects[0].status.clone();
    let before_updated_at = projects[0].updated_at.clone();
    let before_fps = projects[0].settings.fps;

    let missing = "proj-does-not-exist".to_string();
    let result = update_project_settings(&mut projects, &missing, settings(24, "de"));
    match result {
        Err(CoreError::NotFound(message)) => assert_eq!(message, "Project not found."),
        _ => panic!("expected NotFound"),
    }
    assert_eq!(projects.len(), 1);
    assert_eq!(projects[0].status, before_status);
    assert_eq!(projects[0].updated_at, before_updated_at);
    assert_eq!(projects[0].settings.fps, before_fps);
}

#[test]
fn update_status_stamps_the_matching_record() {
    let mut projects: Vec<Project> = Vec::new();
    let a = create_project(&mut projects, "A".to_string(), settings(30, "en"));
    create_project(&mut projects, "B".to_string(), settings(30, "en"));
    let other_status = projects[1].status.clone();

    update_project_status(&mut projects, &a.id, "RENDER_IN_PROGRESS").unwrap();
    assert_eq!(projects[0].status, "RENDER_IN_PROGRESS");
    assert_eq!(projects[1].status, other_status);

    let missing = "proj-nope".to_string();
    match update_project_status(&mut projects, &missing, "RENDER_DONE") {
        Err(CoreError::NotFound(message)) => assert_eq!(message, "Project not found."),
        _ => panic!("expected NotFound"),
    }
}

#[test]
fn telemetry_skips_malformed_lines_newest_first() {
    let log = "{\"a\":1}\nnot json at all\n{\"b\":2}\n  \n{\"c\":3}\n";
    let events = recent_events(&log.as_bytes().to_vec(), 80);
    assert_eq!(events.len(), 3);
    assert_eq!(events[0], json("{\"c\":3}"));
    assert_eq!(events[1], json("{\"b\":2}"));
    assert_eq!(events[2], json("{\"a\":1}"));
}

#[test]
fn telemetry_limit_takes_the_most_recent_lines() {
    let log = "{\"a\":1}\n{\"b\":2}\n{\"c\":3}\n";
    let events = recent_events(&log.as_bytes().to_vec(), 2);
    assert_eq!(events.len(), 2);
    assert_eq!(events[0], json("{\"c\":3}"));
    assert_eq!(events[1], json("{\"b\":2}"));
}

#[test]
fn telemetry_report_defaults_and_clamps() {
    let log = "{\"a\":1}\n{\"b\":2}\n".as_bytes().to_vec();
    // A limit below the floor still returns one event.
    let report = get_project_telemetry(None, Some(&log), Some(0));
    assert_eq!(report.summary, None);
    assert_eq!(report.recent_events.len(), 1);
    assert_eq!(report.recent_events[0], json("{\"b\":2}"));

    // Absent events file: no events; absent summary: the null default.
    let report = get_project_telemetry(None, None, None);
    assert_eq!(report.summary, None);
    assert_eq!(report.recent_events.len(), 0);

    // A summary is parsed when present.
    let summary = "{\"renders\":4}".as_bytes().to_vec();
    let report = get_project_telemetry(Some(&summary), None, None);
    assert_eq!(report.summary, Some(json("{\"renders\":4}")));
}

#[test]
fn telemetry_malformed_summary_reads_as_null() {
    // A storage failure on this read path is downgraded: the summary falls
    // back to the null default and the events are still served.
    let summary = "{broken".as_bytes().to_vec();
    let log = "{\"a\":1}\n".as_bytes().to_vec();
    let report = get_project_telemetry(Some(&summary), Some(&log), None);
    assert_eq!(report.summary, None);
    assert_eq!(report.recent_events.len(), 1);
    assert_eq!(report.recent_events[0], json("{\"a\":1}"));
}

#[test]
fn blank_or_empty_event_logs_yield_no_events() {
    assert_eq!(recent_events(&Vec::new(), 80).len(), 0);
    assert_eq!(recent_events(&"\n\n  \t\n".as_bytes().to_vec(), 80).len(), 0);
}

#[test]
fn error_messages_surface_the_carried_text() {
    let mut projects: Vec<Project> = Vec::new();
    let missing = "proj-gone".to_string();
    let err = update_project_settings(&mut projects, &missing, settings(30, "en")).unwrap_err();
    assert_eq!(err.message(), "Project not found.");
    let err = CoreError::StorageFailure("Failed writing projects store: disk full".to_string());
    assert_eq!(err.message(), "Failed writing projects store: disk full");
}

#[test]
fn render_history_missing_file_is_empty_history() {
    // No history document: the caller serves the empty history.
    let history = get_render_history(None).unwrap_or(Value::Array(Vec::new()));
    assert_eq!(history, json("[]"));
}

#[test]
fn render_history_keeps_arrays_and_defends_against_bad_content() {
    let content = "[{\"output\":\"a.mp4\"}]".as_bytes().to_vec();
    let history = get_render_history(Some(&content));
    assert_eq!(history, Some(json("[{\"output\":\"a.mp4\"}]")));

    let content = "{\"not\":\"an array\"}".as_bytes().to_vec();
    assert_eq!(get_render_history(Some(&content)), None);

    // A storage failure on this read path is downgraded to the empty default.
    let content = "not json".as_bytes().to_vec();
    assert_eq!(get_render_history(Some(&content)), None);
}
