use editor_core::ranges::{invert_ranges, normalize_ranges, TimeRange};
use editor_core::timeline::{build_rough_cut_timeline, save_timeline, ClipMeta, Timeline};

fn tr(start_us: u64, end_us: u64) -> TimeRange {
    TimeRange { start_us, end_us }
}

#[test]
fn normalize_sorts_merges_and_clamps() {
    let out = normalize_ranges(vec![tr(5, 9), tr(1, 3)], 10);
    assert_eq!(out, vec![tr(1, 3), tr(5, 9)]);

    let out = normalize_ranges(vec![tr(1, 5), tr(4, 8)], 10);
    assert_eq!(out, vec![tr(1, 8)]);

    // Touching counts as overlap.
    let out = normalize_ranges(vec![tr(1, 2), tr(2, 3)], 10);
    assert_eq!(out, vec![tr(1, 3)]);

    // Out-of-bounds ranges are clamped, empty ones dropped.
    let out = normalize_ranges(vec![tr(5, 100), tr(20, 30), tr(3, 3)], 10);
    assert_eq!(out, vec![tr(5, 10)]);
}

#[test]
fn normalize_is_idempotent() {
    let raw = vec![tr(7, 20), tr(0, 2), tr(1, 4)];
    let once = normalize_ranges(raw, 15);
    let twice = normalize_ranges(once.clone(), 15);
    assert_eq!(once, twice);
}

#[test]
fn invert_partitions_the_duration() {
    let remove = normalize_ranges(vec![tr(5, 7), tr(2, 3)], 10);
    let keep = invert_ranges(&remove, 10);
    assert_eq!(keep, vec![tr(0, 2), tr(3, 5), tr(7, 10)]);
    let kept: u64 = keep.iter().map(|r| r.end_us - r.start_us).sum();
    let removed: u64 = remove.iter().map(|r| r.end_us - r.start_us).sum();
    assert_eq!(kept + removed, 10);

    // A remove-range starting at 0 emits no leading keep-range.
    let remove = normalize_ranges(vec![tr(0, 4)], 10);
    assert_eq!(invert_ranges(&remove, 10), vec![tr(4, 10)]);

    // Zero duration inverts to nothing.
    let empty = normalize_ranges(vec![], 0);
    assert_eq!(invert_ranges(&empty, 0), vec![]);
}

#[test]
fn rough_cut_removes_middle_range() {
    let timeline = build_rough_cut_timeline(
        "proj-x".to_string(),
        10_000_000,
        30,
        "source-video".to_string(),
        vec![tr(2_000_000, 3_000_000)],
    );
    assert_eq!(timeline.clips.len(), 2);
    assert_eq!(timeline.duration_us, 9_000_000);
    assert_eq!(timeline.version, 1);
    assert_eq!(timeline.status, "ROUGH_CUT_READY");
    assert_eq!(timeline.fps, 30);
    assert_eq!(timeline.project_id, "proj-x");

    let c1 = &timeline.clips[0];
    assert_eq!(c1.clip_id, "clip-1");
    assert_eq!((c1.start_us, c1.end_us), (0, 2_000_000));
    assert_eq!((c1.source_start_us, c1.source_end_us), (0, 2_000_000));
    assert_eq!(c1.track_id, "track-video-main");
    assert_eq!(c1.clip_type, "source_clip");
    assert_eq!(c1.source_ref, "source-video");
    match &c1.meta {
        ClipMeta::Generated {
            generated_by,
            remove_ranges_applied,
        } => {
            assert_eq!(generated_by, "ai-rough-cut");
            assert_eq!(remove_ranges_applied, &vec![tr(2_000_000, 3_000_000)]);
        }
        ClipMeta::External(_) => panic!("rough cut clips carry generated provenance"),
    }

    let c2 = &timeline.clips[1];
    assert_eq!(c2.clip_id, "clip-2");
    assert_eq!((c2.start_us, c2.end_us), (2_000_000, 9_000_000));
    assert_eq!((c2.source_start_us, c2.source_end_us), (3_000_000, 10_000_000));

    assert_eq!(timeline.tracks.len(), 2);
    assert_eq!(timeline.tracks[0].id, "track-video-main");
    assert_eq!(timeline.tracks[0].name, "Main Video");
    assert_eq!(timeline.tracks[0].kind, "video");
    assert_eq!(timeline.tracks[0].order, 0);
    assert!(!timeline.tracks[0].locked);
    assert_eq!(timeline.tracks[1].id, "track-captions");
    assert_eq!(timeline.tracks[1].kind, "caption");
    assert_eq!(timeline.tracks[1].order, 1);
    assert!(timeline.id.starts_with("timeline-proj-"));
    assert_eq!(timeline.created_at, timeline.updated_at);
}

#[test]
fn rough_cut_without_removes_is_one_full_clip() {
    let timeline = build_rough_cut_timeline(
        "proj-y".to_string(),
        4_000_000,
        25,
        "clip.mp4".to_string(),
        vec![],
    );
    assert_eq!(timeline.clips.len(), 1);
    let c = &timeline.clips[0];
    assert_eq!((c.start_us, c.end_us), (0, 4_000_000));
    assert_eq!((c.source_start_us, c.source_end_us), (0, 4_000_000));
    assert_eq!(c.source_ref, "clip.mp4");
    assert_eq!(timeline.duration_us, 4_000_000);
}

#[test]
fn rough_cut_removing_everything_is_empty() {
    let timeline = build_rough_cut_timeline(
        "proj-z".to_string(),
        5_000_000,
        30,
        "source-video".to_string(),
        vec![tr(0, 5_000_000)],
    );
    assert_eq!(timeline.clips.len(), 0);
    assert_eq!(timeline.duration_us, 0);
}

#[test]
fn rough_cut_floors_fps_at_one() {
    let timeline =
        build_rough_cut_timeline("p".to_string(), 1_000, 0, "s".to_string(), vec![]);
    assert_eq!(timeline.fps, 1);
}

fn sample_timeline(version: u32) -> Timeline {
    Timeline {
        id: "timeline-1".to_string(),
        project_id: "proj-1".to_string(),
        version,
        status: "ROUGH_CUT_READY".to_string(),
        fps: 30,
        duration_us: 1_000,
        created_at: "100".to_string(),
        updated_at: "100".to_string(),
        tracks: vec![],
        clips: vec![],
    }
}

#[test]
fn saving_twice_increments_version_by_two() {
    let t0 = sample_timeline(7);
    let t1 = save_timeline(t0);
    assert_eq!(t1.version, 8);
    let t2 = save_timeline(t1);
    assert_eq!(t2.version, 9);
    assert_eq!(t2.id, "timeline-1");
    assert_eq!(t2.project_id, "proj-1");
    assert_eq!(t2.status, "ROUGH_CUT_READY");
    assert_eq!(t2.duration_us, 1_000);
    assert_eq!(t2.created_at, "100");
}

#[test]
fn save_version_saturates_at_the_counter_maximum() {
    let t = save_timeline(sample_timeline(u32::MAX));
    assert_eq!(t.version, u32::MAX);
    let t = save_timeline(sample_timeline(u32::MAX - 1));
    assert_eq!(t.version, u32::MAX);
}
