use editor_core::errors::CoreError;
use editor_core::paths::{
    projects_file_path, render_history_file_path, script_path, telemetry_events_file_path,
    telemetry_summary_file_path, timeline_file_path,
};
use editor_core::pipeline::{
    create_rough_cut_timeline, edit_now_plan, ingest_media_args, install_model_args,
    interpret_render_result, interpret_start_editing, open_path_command, parse_stage_output,
    render_video_plan, stage_outcome, start_editing_plan, CreateRoughCutTimelineRequest,
    EditNowRequest, InstallModelRequest, MediaIngestRequest, RenderVideoRequest,
    StartEditingRequest,
};
use editor_core::ranges::TimeRange;
use editor_core::stamp::{generate_project_id, now_iso};
use editor_core::text::{decimal_string, trim_str};

#[test]
fn paths_are_joined_under_the_workspace_root() {
    assert_eq!(script_path("/ws", "scripts/render_pipeline.mjs"), "/ws/scripts/render_pipeline.mjs");
    assert_eq!(projects_file_path("/ws"), "/ws/desktop/data/projects.json");
    assert_eq!(timeline_file_path("/ws", "proj-1"), "/ws/desktop/data/proj-1/timeline.json");
    assert_eq!(
        render_history_file_path("/ws", "proj-1"),
        "/ws/desktop/data/proj-1/renders/history.json"
    );
    assert_eq!(
        telemetry_summary_file_path("/ws", "proj-1"),
        "/ws/desktop/data/proj-1/telemetry/summary.json"
    );
    assert_eq!(
        telemetry_events_file_path("/ws", "proj-1"),
        "/ws/desktop/data/proj-1/telemetry/events.jsonl"
    );
}

#[test]
fn decimal_rendering_and_trimming() {
    assert_eq!(decimal_string(0), "0");
    assert_eq!(decimal_string(7), "7");
    assert_eq!(decimal_string(1234567890), "1234567890");
    assert_eq!(trim_str("  a b\t"), "a b");
    assert_eq!(trim_str(" \r\n "), "");
    assert_eq!(trim_str("x"), "x");
}

#[test]
fn stamps_are_decimal_and_ids_carry_the_prefix() {
    let now = now_iso();
    assert!(!now.is_empty());
    assert!(now.chars().all(|c| c.is_ascii_digit()));
    let id = generate_project_id();
    assert!(id.starts_with("proj-"));
    assert!(id["proj-".len()..].chars().all(|c| c.is_ascii_digit()));
}

#[test]
fn start_editing_plan_applies_defaults() {
    let req = StartEditingRequest {
        project_id: "proj-1".to_string(),
        input: "in.mp4".to_string(),
        mode: None,
        language: None,
        fps: None,
        source_ref: None,
        fallback_policy: Some("   ".to_string()),
        transcription_model: None,
        cut_planner_model: None,
    };
    let plan = start_editing_plan(&req);
    assert_eq!(plan.fps, 30);
    assert_eq!(plan.source_ref, "source-video");
    assert_eq!(plan.done_status, "ROUGH_CUT_READY");
    assert_eq!(
        plan.args,
        vec![
            "--project-id",
            "proj-1",
            "--input",
            "in.mp4",
            "--mode",
            "hybrid",
            "--language",
            "en",
            "--fps",
            "30",
            "--source-ref",
            "source-video",
        ]
    );
}

#[test]
fn start_editing_plan_passes_overrides() {
    let req = StartEditingRequest {
        project_id: "proj-1".to_string(),
        input: "in.mp4".to_string(),
        mode: Some("fast".to_string()),
        language: Some("de".to_string()),
        fps: Some(24),
        source_ref: Some("clip.mov".to_string()),
        fallback_policy: Some("strict".to_string()),
        transcription_model: Some("small".to_string()),
        cut_planner_model: Some("planner-x".to_string()),
    };
    let plan = start_editing_plan(&req);
    assert_eq!(plan.fps, 24);
    assert_eq!(
        plan.args,
        vec![
            "--project-id",
            "proj-1",
            "--input",
            "in.mp4",
            "--mode",
            "fast",
            "--language",
            "de",
            "--fps",
            "24",
            "--source-ref",
            "clip.mov",
            "--fallback-policy",
            "strict",
            "--transcription-model",
            "small",
            "--cut-planner-model",
            "planner-x",
        ]
    );
}

#[test]
fn edit_now_plan_applies_defaults() {
    let req = EditNowRequest {
        project_id: "proj-2".to_string(),
        fps: None,
        source_ref: None,
        fetch_external: Some(false),
        fallback_policy: None,
        template_planner_model: Some("tpl".to_string()),
    };
    let plan = edit_now_plan(&req);
    assert_eq!(plan.done_status, "ENRICHED_TIMELINE_READY");
    assert_eq!(
        plan.args,
        vec![
            "--project-id",
            "proj-2",
            "--fps",
            "30",
            "--source-ref",
            "source-video",
            "--fetch-external",
            "false",
            "--template-planner-model",
            "tpl",
        ]
    );
}

#[test]
fn render_plan_stamps_in_progress_before_the_stage() {
    let req = RenderVideoRequest {
        project_id: "proj-3".to_string(),
        output_name: None,
        burn_subtitles: None,
        quality: None,
    };
    let plan = render_video_plan(&req);
    assert_eq!(plan.start_status, "RENDER_IN_PROGRESS");
    assert_eq!(
        plan.args,
        vec![
            "--project-id",
            "proj-3",
            "--output-name",
            "",
            "--burn-subtitles",
            "false",
            "--quality",
            "balanced",
        ]
    );
}

#[test]
fn ingest_and_install_args() {
    let args = ingest_media_args(&MediaIngestRequest {
        project_id: "proj-4".to_string(),
        input: "raw.mov".to_string(),
        generate_proxy: None,
        generate_waveform: Some(false),
    });
    assert_eq!(
        args,
        vec![
            "--input",
            "raw.mov",
            "--project-id",
            "proj-4",
            "--generate-proxy",
            "true",
            "--generate-waveform",
            "false",
        ]
    );

    let args = install_model_args(&InstallModelRequest {
        runtime: "whisper".to_string(),
        model: Some("  ".to_string()),
    });
    assert_eq!(args, vec!["--runtime", "whisper"]);

    let args = install_model_args(&InstallModelRequest {
        runtime: "whisper".to_string(),
        model: Some("base.en".to_string()),
    });
    assert_eq!(args, vec!["--runtime", "whisper", "--model", "base.en"]);
}

#[test]
fn open_path_rejects_blank_paths_and_trims() {
    match open_path_command("   ", None) {
        Err(CoreError::InvalidInput(message)) => {
            assert_eq!(message, "Missing required field: path")
        }
        _ => panic!("expected InvalidInput"),
    }
    assert_eq!(open_path_command(" /tmp/out.mp4 ", None).unwrap(), vec!["-R", "/tmp/out.mp4"]);
    assert_eq!(open_path_command("/tmp/out.mp4", Some(false)).unwrap(), vec!["/tmp/out.mp4"]);
}

#[test]
fn stage_outcome_trims_and_routes_by_exit() {
    let r = stage_outcome(true, "  {\"ok\":true}\n".to_string(), "noise".to_string());
    assert_eq!(r, Ok("{\"ok\":true}".to_string()));
    let r = stage_outcome(false, "partial".to_string(), " encoder exploded \n".to_string());
    assert_eq!(r, Err("encoder exploded".to_string()));
}

#[test]
fn stage_output_parses_or_reports_the_stage() {
    let ok = parse_stage_output(&"{\"ok\":true}".as_bytes().to_vec(), "Invalid discovery JSON");
    assert_eq!(ok.unwrap(), serde_json::from_str::<serde_json::Value>("{\"ok\":true}").unwrap());
    match parse_stage_output(&"garbage".as_bytes().to_vec(), "Invalid discovery JSON") {
        Err(CoreError::InvalidPipelineResponse(message)) => {
            // The stage prefix plus serde_json's own diagnosis.
            assert!(message.starts_with("Invalid discovery JSON: "));
            assert!(message.len() > "Invalid discovery JSON: ".len());
        }
        _ => panic!("expected InvalidPipelineResponse"),
    }
}

#[test]
fn start_editing_response_builds_the_rough_cut() {
    let raw = "{\"durationUs\":10000000,\"removeRanges\":[{\"startUs\":2000000,\"endUs\":3000000}]}"
        .as_bytes()
        .to_vec();
    let (pipeline, timeline) =
        interpret_start_editing(&raw, "proj-5".to_string(), 30, "source-video".to_string())
            .unwrap();
    assert_eq!(pipeline.get("durationUs").and_then(|v| v.as_u64()), Some(10_000_000));
    assert_eq!(timeline.clips.len(), 2);
    assert_eq!(timeline.duration_us, 9_000_000);
    assert_eq!(timeline.status, "ROUGH_CUT_READY");
    assert_eq!(timeline.project_id, "proj-5");
}

#[test]
fn start_editing_response_errors_are_classified() {
    let missing = "{\"removeRanges\":[]}".as_bytes().to_vec();
    match interpret_start_editing(&missing, "p".to_string(), 30, "s".to_string()) {
        Err(CoreError::InvalidPipelineResponse(message)) => {
            assert_eq!(message, "Pipeline response missing durationUs.")
        }
        _ => panic!("expected InvalidPipelineResponse"),
    }

    let bad_ranges = "{\"durationUs\":5,\"removeRanges\":[{\"startUs\":\"x\"}]}".as_bytes().to_vec();
    match interpret_start_editing(&bad_ranges, "p".to_string(), 30, "s".to_string()) {
        Err(CoreError::InvalidRanges(message)) => {
            assert!(message.starts_with("Invalid removeRanges payload: "));
            assert!(message.len() > "Invalid removeRanges payload: ".len());
        }
        _ => panic!("expected InvalidRanges"),
    }

    let not_json = "oops".as_bytes().to_vec();
    match interpret_start_editing(&not_json, "p".to_string(), 30, "s".to_string()) {
        Err(CoreError::InvalidPipelineResponse(message)) => {
            assert!(message.starts_with("Invalid start editing JSON: "));
            assert!(message.len() > "Invalid start editing JSON: ".len());
        }
        _ => panic!("expected InvalidPipelineResponse"),
    }

    // An absent removeRanges member means nothing is removed.
    let no_ranges = "{\"durationUs\":1000}".as_bytes().to_vec();
    let (_, timeline) =
        interpret_start_editing(&no_ranges, "p".to_string(), 30, "s".to_string()).unwrap();
    assert_eq!(timeline.clips.len(), 1);
    assert_eq!(timeline.duration_us, 1000);
}

#[test]
fn failed_render_forces_render_failed_and_keeps_the_error_text() {
    let (status, result) = interpret_render_result(Err("encoder exploded".to_string()));
    assert_eq!(status.as_deref(), Some("RENDER_FAILED"));
    match result {
        Err(CoreError::CollaboratorFailure(message)) => assert_eq!(message, "encoder exploded"),
        _ => panic!("expected CollaboratorFailure"),
    }

    let (status, result) = interpret_render_result(Ok("{\"output\":\"a.mp4\"}".as_bytes().to_vec()));
    assert_eq!(status.as_deref(), Some("RENDER_DONE"));
    assert!(result.is_ok());

    let (status, result) = interpret_render_result(Ok("not json".as_bytes().to_vec()));
    assert_eq!(status, None);
    match result {
        Err(CoreError::InvalidPipelineResponse(message)) => {
            assert!(message.starts_with("Invalid render JSON: "));
            assert!(message.len() > "Invalid render JSON: ".len());
        }
        _ => panic!("expected InvalidPipelineResponse"),
    }
}

#[test]
fn direct_rough_cut_synthesis_applies_defaults() {
    let timeline = create_rough_cut_timeline(CreateRoughCutTimelineRequest {
        project_id: "proj-6".to_string(),
        duration_us: 2_000_000,
        fps: 30,
        source_ref: None,
        remove_ranges: Some(vec![TimeRange { start_us: 500_000, end_us: 1_000_000 }]),
    });
    assert_eq!(timeline.clips.len(), 2);
    assert_eq!(timeline.duration_us, 1_500_000);
    assert_eq!(timeline.clips[0].source_ref, "source-video");
}
