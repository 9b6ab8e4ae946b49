//! The pipeline orchestrator's decisions: the argument vector handed to
//! each external stage process, the status stamped around each stage, and
//! the interpretation of what a stage returned. Spawning the process and
//! touching the stores is the caller's part; everything decided here is
//! verified.
use crate::errors::CoreError;
use crate::jsondoc::duration_us_of;
use crate::jsondoc::extract_duration_us;
use crate::jsondoc::extract_remove_ranges;
use crate::jsondoc::json_doc;
use crate::jsondoc::json_err_of;
use crate::jsondoc::parse_json;
use crate::jsondoc::remove_ranges_err_of;
use crate::jsondoc::remove_ranges_of;
use crate::ranges::clamped_covers;
use crate::ranges::covers;
use crate::ranges::normalized;
use crate::ranges::pairs_of;
use crate::ranges::ranges_of_pairs;
use crate::ranges::total_len;
use crate::ranges::TimeRange;
use crate::text::dec_of;
use crate::text::decimal_string;
use crate::text::trim_str;
use crate::text::trimmed_chars;
use crate::timeline::build_rough_cut_timeline;
use crate::timeline::clip_sources;
use crate::timeline::clips_packed;
use crate::timeline::rough_cut_clips_ok;
use crate::timeline::rough_cut_tracks_ok;
use crate::timeline::Timeline;
use serde_json::Value;
use vstd::prelude::*;
use vstd::string::StringExecFns;

verus! {

/// The views of a vector of strings.
pub open spec fn str_views(s: Seq<String>) -> Seq<Seq<char>> {
    s.map_values(|x: String| x@)
}

/// The view of an optional string, or the given default.
pub open spec fn opt_view_or(o: Option<String>, default: Seq<char>) -> Seq<char> {
    match o {
        Option::Some(s) => s@,
        Option::None => default,
    }
}

/// The optional field is present with a non-blank value.
pub open spec fn present_nonblank(o: Option<String>) -> bool {
    trimmed_chars(opt_view_or(o, ""@)).len() != 0
}

fn opt_or(o: &Option<String>, default: &str) -> (r: String)
    ensures
        r@ == opt_view_or(*o, default@),
{
    match o {
        Option::Some(s) => s.clone(),
        Option::None => default.to_owned(),
    }
}

fn bool_arg(b: bool) -> (r: String)
    ensures
        r@ == if b {
            "true"@
        } else {
            "false"@
        },
{
    if b {
        "true".to_owned()
    } else {
        "false".to_owned()
    }
}

fn nonblank(s: &String) -> (r: bool)
    ensures
        r == (trimmed_chars(s@).len() != 0),
{
    let t = trim_str(s.as_str());
    !t.as_str().is_empty()
}

/// A request to run the transcription and cut-planning stage.
pub struct StartEditingRequest {
    pub project_id: String,
    pub input: String,
    pub mode: Option<String>,
    pub language: Option<String>,
    pub fps: Option<u32>,
    pub source_ref: Option<String>,
    pub fallback_policy: Option<String>,
    pub transcription_model: Option<String>,
    pub cut_planner_model: Option<String>,
}

/// A request to run the template-enrichment stage.
pub struct EditNowRequest {
    pub project_id: String,
    pub fps: Option<u32>,
    pub source_ref: Option<String>,
    pub fetch_external: Option<bool>,
    pub fallback_policy: Option<String>,
    pub template_planner_model: Option<String>,
}

/// A request to run the render stage.
pub struct RenderVideoRequest {
    pub project_id: String,
    pub output_name: Option<String>,
    pub burn_subtitles: Option<bool>,
    pub quality: Option<String>,
}

/// A request to ingest source media.
pub struct MediaIngestRequest {
    pub project_id: String,
    pub input: String,
    pub generate_proxy: Option<bool>,
    pub generate_waveform: Option<bool>,
}

/// A request to install a model runtime.
pub struct InstallModelRequest {
    pub runtime: String,
    pub model: Option<String>,
}

/// A request to synthesize a rough-cut timeline directly, bypassing the
/// transcription stage.
pub struct CreateRoughCutTimelineRequest {
    pub project_id: String,
    pub duration_us: u64,
    pub fps: u32,
    pub source_ref: Option<String>,
    pub remove_ranges: Option<Vec<TimeRange>>,
}

/// The remove-ranges named by a direct-synthesis request: none means an
/// empty set.
pub open spec fn requested_remove_ranges(req: CreateRoughCutTimelineRequest) -> Seq<TimeRange> {
    match req.remove_ranges {
        Option::Some(v) => v@,
        Option::None => Seq::<TimeRange>::empty(),
    }
}

/// Synthesize a rough-cut timeline directly from a duration and a
/// remove-range set, bypassing the transcription stage. Defaults: the
/// standard source reference, and no ranges to remove.
pub fn create_rough_cut_timeline(req: CreateRoughCutTimelineRequest) -> (r: Timeline)
    ensures
        r.project_id@ == req.project_id@,
        r.version == 1,
        r.status@ == "ROUGH_CUT_READY"@,
        r.fps == if req.fps >= 1 {
            req.fps
        } else {
            1u32
        },
        rough_cut_tracks_ok(r.tracks@),
        clips_packed(r.clips@),
        normalized(clip_sources(r.clips@), req.duration_us),
        forall|t: int| #[trigger] covers(clip_sources(r.clips@), t) <==> (0 <= t
            < req.duration_us && !clamped_covers(
            requested_remove_ranges(req),
            req.duration_us,
            t,
        )),
        exists|rem: Seq<TimeRange>|
            {
                &&& normalized(rem, req.duration_us)
                &&& (forall|t: int| #[trigger] covers(rem, t) <==> clamped_covers(
                    requested_remove_ranges(req),
                    req.duration_us,
                    t,
                ))
                &&& #[trigger] rough_cut_clips_ok(
                    r.clips@,
                    opt_view_or(req.source_ref, "source-video"@),
                    rem,
                )
            },
        r.duration_us == total_len(clip_sources(r.clips@)),
        r.duration_us == if r.clips@.len() == 0 {
            0int
        } else {
            r.clips@.last().end_us as int
        },
{
    let CreateRoughCutTimelineRequest { project_id, duration_us, fps, source_ref, remove_ranges } =
        req;
    let source_ref = match source_ref {
        Option::Some(s) => s,
        Option::None => "source-video".to_owned(),
    };
    let remove_ranges = match remove_ranges {
        Option::Some(v) => v,
        Option::None => Vec::new(),
    };
    proof {
        assert(remove_ranges@ =~= requested_remove_ranges(req));
    }
    let r = build_rough_cut_timeline(project_id, duration_us, fps, source_ref, remove_ranges);
    proof {
        let rem = choose|rem: Seq<TimeRange>|
            {
                &&& normalized(rem, duration_us)
                &&& (forall|t: int| #[trigger] covers(rem, t) <==> clamped_covers(
                    remove_ranges@,
                    duration_us,
                    t,
                ))
                &&& #[trigger] rough_cut_clips_ok(r.clips@, source_ref@, rem)
            };
        assert(rough_cut_clips_ok(r.clips@, opt_view_or(req.source_ref, "source-video"@), rem));
    }
    r
}

/// The resolved fps of a stage request: 30 when unspecified.
pub open spec fn resolved_fps(fps: Option<u32>) -> u32 {
    match fps {
        Option::Some(f) => f,
        Option::None => 30u32,
    }
}

/// The argument vector for the transcription and cut-planning stage.
pub open spec fn start_editing_args_spec(req: StartEditingRequest) -> Seq<Seq<char>> {
    let base = seq![
        "--project-id"@,
        req.project_id@,
        "--input"@,
        req.input@,
        "--mode"@,
        opt_view_or(req.mode, "hybrid"@),
        "--language"@,
        opt_view_or(req.language, "en"@),
        "--fps"@,
        dec_of(resolved_fps(req.fps) as nat),
        "--source-ref"@,
        opt_view_or(req.source_ref, "source-video"@),
    ];
    let with_fb = if present_nonblank(req.fallback_policy) {
        base + seq!["--fallback-policy"@, opt_view_or(req.fallback_policy, ""@)]
    } else {
        base
    };
    let with_tm = if present_nonblank(req.transcription_model) {
        with_fb + seq!["--transcription-model"@, opt_view_or(req.transcription_model, ""@)]
    } else {
        with_fb
    };
    if present_nonblank(req.cut_planner_model) {
        with_tm + seq!["--cut-planner-model"@, opt_view_or(req.cut_planner_model, ""@)]
    } else {
        with_tm
    }
}

/// Everything the caller needs to run the transcription and cut-planning
/// stage: the stage's argument vector, the resolved fps and source
/// reference that the synthesis step will reuse, and the status stamped on
/// success.
pub struct StartEditingPlan {
    pub args: Vec<String>,
    pub fps: u32,
    pub source_ref: String,
    pub done_status: String,
}

/// Resolve the defaults of a start-editing request and lay out the stage
/// invocation.
pub fn start_editing_plan(req: &StartEditingRequest) -> (r: StartEditingPlan)
    ensures
        r.fps == resolved_fps(req.fps),
        r.source_ref@ == opt_view_or(req.source_ref, "source-video"@),
        r.done_status@ == "ROUGH_CUT_READY"@,
        str_views(r.args@) == start_editing_args_spec(*req),
{
    let fps: u32 = match req.fps {
        Option::Some(f) => f,
        Option::None => 30,
    };
    let mode = opt_or(&req.mode, "hybrid");
    let language = opt_or(&req.language, "en");
    let source_ref = opt_or(&req.source_ref, "source-video");
    let fallback_policy = opt_or(&req.fallback_policy, "");
    let transcription_model = opt_or(&req.transcription_model, "");
    let cut_planner_model = opt_or(&req.cut_planner_model, "");
    let fps_arg = decimal_string(fps as u128);
    proof {
        assert((fps as u128) as nat == fps as nat);
    }
    let mut args: Vec<String> = Vec::new();
    args.push("--project-id".to_owned());
    args.push(req.project_id.clone());
    args.push("--input".to_owned());
    args.push(req.input.clone());
    args.push("--mode".to_owned());
    args.push(mode);
    args.push("--language".to_owned());
    args.push(language);
    args.push("--fps".to_owned());
    args.push(fps_arg);
    args.push("--source-ref".to_owned());
    args.push(source_ref.clone());
    if nonblank(&fallback_policy) {
        args.push("--fallback-policy".to_owned());
        args.push(fallback_policy);
    }
    if nonblank(&transcription_model) {
        args.push("--transcription-model".to_owned());
        args.push(transcription_model);
    }
    if nonblank(&cut_planner_model) {
        args.push("--cut-planner-model".to_owned());
        args.push(cut_planner_model);
    }
    proof {
        assert(str_views(args@) =~= start_editing_args_spec(*req));
    }
    StartEditingPlan { args, fps, source_ref, done_status: "ROUGH_CUT_READY".to_owned() }
}

/// The argument vector for the template-enrichment stage.
pub open spec fn edit_now_args_spec(req: EditNowRequest) -> Seq<Seq<char>> {
    let fetch = match req.fetch_external {
        Option::Some(b) => b,
        Option::None => true,
    };
    let base = seq![
        "--project-id"@,
        req.project_id@,
        "--fps"@,
        dec_of(resolved_fps(req.fps) as nat),
        "--source-ref"@,
        opt_view_or(req.source_ref, "source-video"@),
        "--fetch-external"@,
        if fetch {
            "true"@
        } else {
            "false"@
        },
    ];
    let with_fb = if present_nonblank(req.fallback_policy) {
        base + seq!["--fallback-policy"@, opt_view_or(req.fallback_policy, ""@)]
    } else {
        base
    };
    if present_nonblank(req.template_planner_model) {
        with_fb + seq!["--template-planner-model"@, opt_view_or(req.template_planner_model, ""@)]
    } else {
        with_fb
    }
}

/// The template-enrichment stage invocation and the status stamped on
/// success.
pub struct EditNowPlan {
    pub args: Vec<String>,
    pub done_status: String,
}

/// Resolve the defaults of an edit-now request and lay out the stage
/// invocation.
pub fn edit_now_plan(req: &EditNowRequest) -> (r: EditNowPlan)
    ensures
        r.done_status@ == "ENRICHED_TIMELINE_READY"@,
        str_views(r.args@) == edit_now_args_spec(*req),
{
    let fps: u32 = match req.fps {
        Option::Some(f) => f,
        Option::None => 30,
    };
    let source_ref = opt_or(&req.source_ref, "source-video");
    let fetch_external = match req.fetch_external {
        Option::Some(b) => b,
        Option::None => true,
    };
    let fallback_policy = opt_or(&req.fallback_policy, "");
    let template_planner_model = opt_or(&req.template_planner_model, "");
    let fps_arg = decimal_string(fps as u128);
    proof {
        assert((fps as u128) as nat == fps as nat);
    }
    let mut args: Vec<String> = Vec::new();
    args.push("--project-id".to_owned());
    args.push(req.project_id.clone());
    args.push("--fps".to_owned());
    args.push(fps_arg);
    args.push("--source-ref".to_owned());
    args.push(source_ref);
    args.push("--fetch-external".to_owned());
    args.push(bool_arg(fetch_external));
    if nonblank(&fallback_policy) {
        args.push("--fallback-policy".to_owned());
        args.push(fallback_policy);
    }
    if nonblank(&template_planner_model) {
        args.push("--template-planner-model".to_owned());
        args.push(template_planner_model);
    }
    proof {
        assert(str_views(args@) =~= edit_now_args_spec(*req));
    }
    EditNowPlan { args, done_status: "ENRICHED_TIMELINE_READY".to_owned() }
}

/// The argument vector for the render stage.
pub open spec fn render_video_args_spec(req: RenderVideoRequest) -> Seq<Seq<char>> {
    let burn = match req.burn_subtitles {
        Option::Some(b) => b,
        Option::None => false,
    };
    seq![
        "--project-id"@,
        req.project_id@,
        "--output-name"@,
        opt_view_or(req.output_name, ""@),
        "--burn-subtitles"@,
        if burn {
            "true"@
        } else {
            "false"@
        },
        "--quality"@,
        opt_view_or(req.quality, "balanced"@),
    ]
}

/// The render stage invocation, and the status stamped before the stage
/// starts — visible to any concurrent reader while the render runs.
pub struct RenderVideoPlan {
    pub args: Vec<String>,
    pub start_status: String,
}

/// Resolve the defaults of a render request and lay out the stage
/// invocation.
pub fn render_video_plan(req: &RenderVideoRequest) -> (r: RenderVideoPlan)
    ensures
        r.start_status@ == "RENDER_IN_PROGRESS"@,
        str_views(r.args@) == render_video_args_spec(*req),
{
    let output_name = opt_or(&req.output_name, "");
    let burn_subtitles = match req.burn_subtitles {
        Option::Some(b) => b,
        Option::None => false,
    };
    let quality = opt_or(&req.quality, "balanced");
    let mut args: Vec<String> = Vec::new();
    args.push("--project-id".to_owned());
    args.push(req.project_id.clone());
    args.push("--output-name".to_owned());
    args.push(output_name);
    args.push("--burn-subtitles".to_owned());
    args.push(bool_arg(burn_subtitles));
    args.push("--quality".to_owned());
    args.push(quality);
    proof {
        assert(str_views(args@) =~= render_video_args_spec(*req));
    }
    RenderVideoPlan { args, start_status: "RENDER_IN_PROGRESS".to_owned() }
}

/// The argument vector for the media-ingest stage.
pub open spec fn ingest_media_args_spec(req: MediaIngestRequest) -> Seq<Seq<char>> {
    let proxy = match req.generate_proxy {
        Option::Some(b) => b,
        Option::None => true,
    };
    let waveform = match req.generate_waveform {
        Option::Some(b) => b,
        Option::None => true,
    };
    seq![
        "--input"@,
        req.input@,
        "--project-id"@,
        req.project_id@,
        "--generate-proxy"@,
        if proxy {
            "true"@
        } else {
            "false"@
        },
        "--generate-waveform"@,
        if waveform {
            "true"@
        } else {
            "false"@
        },
    ]
}

/// Lay out the media-ingest stage invocation.
pub fn ingest_media_args(req: &MediaIngestRequest) -> (r: Vec<String>)
    ensures
        str_views(r@) == ingest_media_args_spec(*req),
{
    let proxy = match req.generate_proxy {
        Option::Some(b) => b,
        Option::None => true,
    };
    let waveform = match req.generate_waveform {
        Option::Some(b) => b,
        Option::None => true,
    };
    let mut args: Vec<String> = Vec::new();
    args.push("--input".to_owned());
    args.push(req.input.clone());
    args.push("--project-id".to_owned());
    args.push(req.project_id.clone());
    args.push("--generate-proxy".to_owned());
    args.push(bool_arg(proxy));
    args.push("--generate-waveform".to_owned());
    args.push(bool_arg(waveform));
    proof {
        assert(str_views(args@) =~= ingest_media_args_spec(*req));
    }
    args
}

/// The argument vector for the model-runtime install stage.
pub open spec fn install_model_args_spec(req: InstallModelRequest) -> Seq<Seq<char>> {
    let base = seq!["--runtime"@, req.runtime@];
    if present_nonblank(req.model) {
        base + seq!["--model"@, opt_view_or(req.model, ""@)]
    } else {
        base
    }
}

/// Lay out the model-runtime install invocation: the model flag is passed
/// only when a non-blank model name was given.
pub fn install_model_args(req: &InstallModelRequest) -> (r: Vec<String>)
    ensures
        str_views(r@) == install_model_args_spec(*req),
{
    let model = opt_or(&req.model, "");
    let mut args: Vec<String> = Vec::new();
    args.push("--runtime".to_owned());
    args.push(req.runtime.clone());
    if nonblank(&model) {
        args.push("--model".to_owned());
        args.push(model);
    }
    proof {
        assert(str_views(args@) =~= install_model_args_spec(*req));
    }
    args
}

/// Validate and lay out an open-path command: the trimmed path, revealed in
/// the file manager when `reveal` is absent or true. A blank path is the
/// one rejected input.
pub fn open_path_command(path: &str, reveal: Option<bool>) -> (r: Result<Vec<String>, CoreError>)
    ensures
        r is Err <==> trimmed_chars(path@).len() == 0,
        r matches Err(e) ==> e matches CoreError::InvalidInput(m) && m@
            == "Missing required field: path"@,
        r matches Ok(args) ==> str_views(args@) == (if (match reveal {
            Option::Some(b) => b,
            Option::None => true,
        }) {
            seq!["-R"@]
        } else {
            Seq::<Seq<char>>::empty()
        }) + seq![trimmed_chars(path@)],
{
    let target = trim_str(path);
    if target.as_str().is_empty() {
        return Err(CoreError::InvalidInput("Missing required field: path".to_owned()));
    }
    let reveal_flag = match reveal {
        Option::Some(b) => b,
        Option::None => true,
    };
    let mut args: Vec<String> = Vec::new();
    if reveal_flag {
        args.push("-R".to_owned());
    }
    args.push(target);
    proof {
        if reveal_flag {
            assert(str_views(args@) =~= seq!["-R"@] + seq![trimmed_chars(path@)]);
        } else {
            assert(str_views(args@) =~= Seq::<Seq<char>>::empty() + seq![trimmed_chars(path@)]);
        }
    }
    Ok(args)
}

/// The outcome of one collaborator invocation: exit code 0 hands back the
/// trimmed standard output, any other exit fails with the trimmed standard
/// error, surfaced verbatim as the error message.
pub fn stage_outcome(success: bool, stdout: String, stderr: String) -> (r: Result<String, String>)
    ensures
        success ==> (r matches Ok(s) && s@ == trimmed_chars(stdout@)),
        !success ==> (r matches Err(m) && m@ == trimmed_chars(stderr@)),
{
    if success {
        Ok(trim_str(stdout.as_str()))
    } else {
        Err(trim_str(stderr.as_str()))
    }
}

/// Interpret a stage's standard output: a single JSON document is success;
/// anything else is a malformed response whose message is the given prefix
/// followed by the parse error's text.
pub fn parse_stage_output(raw: &Vec<u8>, error_prefix: &str) -> (r: Result<Value, CoreError>)
    ensures
        r is Ok <==> json_doc(raw@),
        r matches Err(e) ==> e matches CoreError::InvalidPipelineResponse(m) && m@
            == error_prefix@ + ": "@ + json_err_of(raw@),
{
    match parse_json(raw.as_slice()) {
        Result::Ok(v) => Ok(v),
        Result::Err(detail) => {
            let message: String = error_prefix.to_owned();
            Err(CoreError::InvalidPipelineResponse(message.concat(": ").concat(detail.as_str())))
        },
    }
}

/// Interpret the transcription stage's response and synthesize the rough
/// cut. Success comes exactly when the response is one JSON document whose
/// `durationUs` is a u64 and whose `removeRanges`, when present, is a list
/// of time ranges; each failure names its cause. On success the response
/// and the freshly built timeline come back: a rough cut whose clip
/// sources are the unique normal complement of the response's remove set
/// within the response's duration.
pub fn interpret_start_editing(
    raw: &Vec<u8>,
    project_id: String,
    fps: u32,
    source_ref: String,
) -> (r: Result<(Value, Timeline), CoreError>)
    ensures
        r is Ok <==> (json_doc(raw@) && duration_us_of(raw@) is Some && remove_ranges_of(raw@)
            is Some),
        !json_doc(raw@) ==> (r matches Err(e) && e matches CoreError::InvalidPipelineResponse(m)
            && m@ == "Invalid start editing JSON: "@ + json_err_of(raw@)),
        (json_doc(raw@) && duration_us_of(raw@) is None) ==> (r matches Err(e)
            && e matches CoreError::InvalidPipelineResponse(m) && m@
            == "Pipeline response missing durationUs."@),
        (json_doc(raw@) && duration_us_of(raw@) is Some && remove_ranges_of(raw@) is None) ==> (
        r matches Err(e) && e matches CoreError::InvalidRanges(m) && m@
            == "Invalid removeRanges payload: "@ + remove_ranges_err_of(raw@)),
        r matches Ok(p) ==> (duration_us_of(raw@) matches Some(d) && remove_ranges_of(raw@)
            matches Some(rs) && {
            &&& p.1.project_id@ == project_id@
            &&& p.1.version == 1
            &&& p.1.status@ == "ROUGH_CUT_READY"@
            &&& p.1.fps == if fps >= 1 {
                fps
            } else {
                1u32
            }
            &&& rough_cut_tracks_ok(p.1.tracks@)
            &&& clips_packed(p.1.clips@)
            &&& normalized(clip_sources(p.1.clips@), d)
            &&& (forall|t: int| #[trigger] covers(clip_sources(p.1.clips@), t) <==> (0 <= t < d
                && !clamped_covers(ranges_of_pairs(rs), d, t)))
            &&& p.1.duration_us == total_len(clip_sources(p.1.clips@))
            &&& exists|rem: Seq<TimeRange>|
                {
                    &&& normalized(rem, d)
                    &&& (forall|t: int| #[trigger] covers(rem, t) <==> clamped_covers(
                        ranges_of_pairs(rs),
                        d,
                        t,
                    ))
                    &&& #[trigger] rough_cut_clips_ok(p.1.clips@, source_ref@, rem)
                }
        }),
{
    let pipeline = match parse_json(raw.as_slice()) {
        Result::Ok(v) => v,
        Result::Err(detail) => {
            let message: String = "Invalid start editing JSON: ".to_owned();
            return Err(CoreError::InvalidPipelineResponse(message.concat(detail.as_str())));
        },
    };
    let duration_us = match extract_duration_us(raw.as_slice()) {
        Option::Some(d) => d,
        Option::None => {
            return Err(
                CoreError::InvalidPipelineResponse(
                    "Pipeline response missing durationUs.".to_owned(),
                ),
            );
        },
    };
    let remove_ranges = match extract_remove_ranges(raw.as_slice()) {
        Result::Ok(rs) => rs,
        Result::Err(detail) => {
            let message: String = "Invalid removeRanges payload: ".to_owned();
            return Err(CoreError::InvalidRanges(message.concat(detail.as_str())));
        },
    };
    let ghost rr = remove_ranges@;
    proof {
        assert(remove_ranges_of(raw@) == Some(pairs_of(rr)));
        assert(ranges_of_pairs(pairs_of(rr)) =~= rr);
    }
    let timeline = build_rough_cut_timeline(project_id, duration_us, fps, source_ref, remove_ranges);
    proof {
        let rs = pairs_of(rr);
        let rem = choose|rem: Seq<TimeRange>|
            {
                &&& normalized(rem, duration_us)
                &&& (forall|t: int| #[trigger] covers(rem, t) <==> clamped_covers(
                    rr,
                    duration_us,
                    t,
                ))
                &&& #[trigger] rough_cut_clips_ok(timeline.clips@, source_ref@, rem)
            };
        assert(forall|t: int| #[trigger] covers(rem, t) <==> clamped_covers(
            ranges_of_pairs(rs),
            duration_us,
            t,
        ));
        assert(rough_cut_clips_ok(timeline.clips@, source_ref@, rem));
    }
    Ok((pipeline, timeline))
}

/// Map the render stage's outcome to the status stamped afterwards and the
/// caller's result. A stage failure forces `RENDER_FAILED` and propagates
/// the stage's error text unchanged; a success whose output parses is
/// `RENDER_DONE`; a success whose output does not parse leaves the status
/// untouched and reports the malformed response.
pub fn interpret_render_result(raw: Result<Vec<u8>, String>) -> (r: (
    Option<String>,
    Result<Value, CoreError>,
))
    ensures
        raw matches Err(msg) ==> {
            &&& r.0 matches Some(s) && s@ == "RENDER_FAILED"@
            &&& r.1 matches Err(e) && e matches CoreError::CollaboratorFailure(m) && m@ == msg@
        },
        raw matches Ok(bytes) ==> (json_doc(bytes@) ==> {
            &&& r.0 matches Some(s) && s@ == "RENDER_DONE"@
            &&& r.1 is Ok
        }),
        raw matches Ok(bytes) ==> (!json_doc(bytes@) ==> {
            &&& r.0 is None
            &&& r.1 matches Err(e) && e matches CoreError::InvalidPipelineResponse(m) && m@
                == "Invalid render JSON: "@ + json_err_of(bytes@)
        }),
{
    match raw {
        Result::Err(msg) => (
            Option::Some("RENDER_FAILED".to_owned()),
            Err(CoreError::CollaboratorFailure(msg)),
        ),
        Result::Ok(bytes) => match parse_json(bytes.as_slice()) {
            Result::Ok(v) => (Option::Some("RENDER_DONE".to_owned()), Ok(v)),
            Result::Err(detail) => {
                let message: String = "Invalid render JSON: ".to_owned();
                (
                    Option::None,
                    Err(CoreError::InvalidPipelineResponse(message.concat(detail.as_str()))),
                )
            },
        },
    }
}

} // verus!
