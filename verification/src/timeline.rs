//! The timeline document, rough-cut synthesis, and the version-advancing
//! save. Synthesis turns a duration and a set of remove-ranges into a
//! gap-free packing of the kept source material on the principal video
//! track.
use crate::jsondoc::empty_json_object;
use crate::ranges::clamped_covers;
use crate::ranges::covers;
use crate::ranges::invert_ranges;
use crate::ranges::lemma_total_len_nonneg;
use crate::ranges::lemma_total_len_take_le;
use crate::ranges::lemma_total_len_take_mono;
use crate::ranges::lemma_total_len_take_step;
use crate::ranges::normalize_ranges;
use crate::ranges::normalized;
use crate::ranges::total_len;
use crate::ranges::TimeRange;
use crate::stamp::generate_project_id;
use crate::stamp::now_iso;
use crate::text::dec_of;
use crate::text::decimal_string;
use serde_json::Value;
use vstd::prelude::*;
use vstd::string::StringExecFns;

verus! {

/// One track of a timeline.
#[derive(Debug)]
pub struct TimelineTrack {
    pub id: String,
    pub name: String,
    pub kind: String,
    pub order: u32,
    pub locked: bool,
}

/// The provenance payload of a clip: stamped by rough-cut synthesis, or an
/// opaque document carried through for clips produced elsewhere.
pub enum ClipMeta {
    Generated { generated_by: String, remove_ranges_applied: Vec<TimeRange> },
    External(Value),
}

/// One clip: a timeline-space interval played from a source-space interval.
pub struct TimelineClip {
    pub clip_id: String,
    pub track_id: String,
    pub clip_type: String,
    pub start_us: u64,
    pub end_us: u64,
    pub source_start_us: u64,
    pub source_end_us: u64,
    pub source_ref: String,
    pub effects: Value,
    pub transform: Value,
    pub meta: ClipMeta,
}

/// The timeline document, one per project, versioned by the store.
pub struct Timeline {
    pub id: String,
    pub project_id: String,
    pub version: u32,
    pub status: String,
    pub fps: u32,
    pub duration_us: u64,
    pub created_at: String,
    pub updated_at: String,
    pub tracks: Vec<TimelineTrack>,
    pub clips: Vec<TimelineClip>,
}

/// The source-space ranges the clips play, in clip order.
pub open spec fn clip_sources(clips: Seq<TimelineClip>) -> Seq<TimeRange> {
    clips.map_values(
        |c: TimelineClip| TimeRange { start_us: c.source_start_us, end_us: c.source_end_us },
    )
}

/// The clips' timeline-space intervals pack their source ranges gap-free
/// from 0: each clip is as long as its source range, and starts where the
/// previous one ends.
pub open spec fn clips_packed(clips: Seq<TimelineClip>) -> bool {
    forall|j: int|
        0 <= j < clips.len() ==> {
            let c = #[trigger] clips[j];
            &&& c.source_start_us < c.source_end_us
            &&& c.start_us == total_len(clip_sources(clips).take(j))
            &&& c.end_us == total_len(clip_sources(clips).take(j + 1))
        }
}

/// Packed clips occupy the track without overlap: each clip begins exactly
/// where the previous one ends, and no two clips share an instant of
/// timeline time.
pub proof fn lemma_packed_clips_disjoint(clips: Seq<TimelineClip>)
    requires
        clips_packed(clips),
    ensures
        forall|a: int|
            0 <= a && a + 1 < clips.len() ==> (#[trigger] clips[a + 1]).start_us
                == clips[a].end_us,
        forall|a: int, b: int|
            0 <= a < b < clips.len() ==> (#[trigger] clips[a]).end_us <= (
            #[trigger] clips[b]).start_us,
{
    let srcs = clip_sources(clips);
    assert forall|a: int, b: int| 0 <= a < b < clips.len() implies (
    #[trigger] clips[a]).end_us <= (#[trigger] clips[b]).start_us by {
        assert(forall|k: int|
            0 <= k < srcs.len() ==> (#[trigger] srcs[k]).start_us < srcs[k].end_us);
        lemma_total_len_take_mono(srcs, a + 1, b);
    }
}

/// Every clip of a rough cut: timeline-space intervals pack the kept source
/// ranges gap-free from 0, on the main video track, with ids `clip-1`,
/// `clip-2`, ... and provenance naming the applied remove set `rem`.
pub open spec fn rough_cut_clips_ok(
    clips: Seq<TimelineClip>,
    source_ref: Seq<char>,
    rem: Seq<TimeRange>,
) -> bool {
    &&& clips_packed(clips)
    &&& forall|j: int|
        0 <= j < clips.len() ==> {
            let c = #[trigger] clips[j];
            &&& c.track_id@ == "track-video-main"@
            &&& c.clip_type@ == "source_clip"@
            &&& c.source_ref@ == source_ref
            &&& c.clip_id@ == "clip-"@ + dec_of((j + 1) as nat)
            &&& c.meta matches ClipMeta::Generated { generated_by, remove_ranges_applied }
                && generated_by@ == "ai-rough-cut"@ && remove_ranges_applied@ == rem
        }
}

/// The two tracks every rough cut starts with: the main video track at
/// order 0 and an empty captions track at order 1.
pub open spec fn rough_cut_tracks_ok(tracks: Seq<TimelineTrack>) -> bool {
    &&& tracks.len() == 2
    &&& tracks[0].id@ == "track-video-main"@
    &&& tracks[0].name@ == "Main Video"@
    &&& tracks[0].kind@ == "video"@
    &&& tracks[0].order == 0
    &&& !tracks[0].locked
    &&& tracks[1].id@ == "track-captions"@
    &&& tracks[1].name@ == "Captions"@
    &&& tracks[1].kind@ == "caption"@
    &&& tracks[1].order == 1
    &&& !tracks[1].locked
}

fn clone_ranges(v: &Vec<TimeRange>) -> (r: Vec<TimeRange>)
    ensures
        r@ == v@,
{
    let mut r: Vec<TimeRange> = Vec::new();
    let mut i: usize = 0;
    while i < v.len()
        invariant
            i <= v@.len(),
            r@ =~= v@.take(i as int),
        decreases v@.len() - i,
    {
        r.push(v[i]);
        i += 1;
    }
    proof {
        assert(v@.take(v@.len() as int) =~= v@);
    }
    r
}

/// Build a rough-cut timeline: normalize the remove-ranges against the
/// duration, invert them into keep-ranges, and emit one `source_clip` per
/// keep-range, packed gap-free from 0 on the main video track. The total
/// duration is the kept duration, not the source duration. `fps` is floored
/// at 1.
pub fn build_rough_cut_timeline(
    project_id: String,
    duration_us: u64,
    fps: u32,
    source_ref: String,
    remove_ranges: Vec<TimeRange>,
) -> (r: Timeline)
    ensures
        r.project_id@ == project_id@,
        r.version == 1,
        r.status@ == "ROUGH_CUT_READY"@,
        r.fps == if fps >= 1 {
            fps
        } else {
            1u32
        },
        r.created_at@ == r.updated_at@,
        exists|n: nat| r.id@ == "timeline-"@ + "proj-"@ + dec_of(n),
        rough_cut_tracks_ok(r.tracks@),
        clips_packed(r.clips@),
        normalized(clip_sources(r.clips@), duration_us),
        forall|t: int| #[trigger] covers(clip_sources(r.clips@), t) <==> (0 <= t < duration_us
            && !clamped_covers(remove_ranges@, duration_us, t)),
        exists|rem: Seq<TimeRange>|
            {
                &&& normalized(rem, duration_us)
                &&& (forall|t: int| #[trigger] covers(rem, t) <==> clamped_covers(
                    remove_ranges@,
                    duration_us,
                    t,
                ))
                &&& #[trigger] rough_cut_clips_ok(r.clips@, source_ref@, rem)
            },
        r.duration_us == total_len(clip_sources(r.clips@)),
        r.duration_us == if r.clips@.len() == 0 {
            0int
        } else {
            r.clips@.last().end_us as int
        },
{
    let rem = normalize_ranges(remove_ranges, duration_us);
    let keep = invert_ranges(&rem, duration_us);
    let video_track = TimelineTrack {
        id: "track-video-main".to_owned(),
        name: "Main Video".to_owned(),
        kind: "video".to_owned(),
        order: 0,
        locked: false,
    };
    let captions_track = TimelineTrack {
        id: "track-captions".to_owned(),
        name: "Captions".to_owned(),
        kind: "caption".to_owned(),
        order: 1,
        locked: false,
    };

    let mut clips: Vec<TimelineClip> = Vec::new();
    let mut timeline_cursor: u64 = 0;
    let mut k: usize = 0;
    proof {
        lemma_total_len_nonneg(rem@);
        assert(keep@.take(0) =~= Seq::<TimeRange>::empty());
    }
    while k < keep.len()
        invariant
            k <= keep@.len(),
            normalized(keep@, duration_us),
            normalized(rem@, duration_us),
            total_len(keep@) <= duration_us,
            timeline_cursor == total_len(keep@.take(k as int)),
            clips@.len() == k,
            video_track.id@ == "track-video-main"@,
            forall|j: int|
                0 <= j < k ==> {
                    let c = #[trigger] clips@[j];
                    &&& c.source_start_us == keep@[j].start_us
                    &&& c.source_end_us == keep@[j].end_us
                    &&& c.start_us == total_len(keep@.take(j))
                    &&& c.end_us == total_len(keep@.take(j + 1))
                    &&& c.track_id@ == "track-video-main"@
                    &&& c.clip_type@ == "source_clip"@
                    &&& c.source_ref@ == source_ref@
                    &&& c.clip_id@ == "clip-"@ + dec_of((j + 1) as nat)
                    &&& c.meta matches ClipMeta::Generated { generated_by, remove_ranges_applied }
                        && generated_by@ == "ai-rough-cut"@ && remove_ranges_applied@ == rem@
                },
        decreases keep@.len() - k,
    {
        let kr = keep[k];
        proof {
            lemma_total_len_take_step(keep@, k as int);
            lemma_total_len_take_le(keep@, k as int + 1);
        }
        let clip_duration = kr.end_us - kr.start_us;
        let timeline_start = timeline_cursor;
        let timeline_end = timeline_start + clip_duration;
        let clip_id: String = "clip-".to_owned();
        let digits = decimal_string((k + 1) as u128);
        proof {
            assert(((k + 1) as u128) as nat == (k as int + 1) as nat);
        }
        let clip_id = clip_id.concat(digits.as_str());
        let ghost pre_clips = clips@;
        clips.push(
            TimelineClip {
                clip_id,
                track_id: video_track.id.clone(),
                clip_type: "source_clip".to_owned(),
                start_us: timeline_start,
                end_us: timeline_end,
                source_start_us: kr.start_us,
                source_end_us: kr.end_us,
                source_ref: source_ref.clone(),
                effects: empty_json_object(),
                transform: empty_json_object(),
                meta: ClipMeta::Generated {
                    generated_by: "ai-rough-cut".to_owned(),
                    remove_ranges_applied: clone_ranges(&rem),
                },
            },
        );
        proof {
            let kk = k as int;
            assert(clips@ == pre_clips.push(clips@[kk]));
            assert(forall|j: int| 0 <= j < kk ==> (#[trigger] clips@[j]) == pre_clips[j]);
            let c = clips@[kk];
            assert(c.clip_id@ == "clip-"@ + dec_of((kk + 1) as nat));
            assert(c.start_us == total_len(keep@.take(kk)));
            assert(c.end_us == total_len(keep@.take(kk + 1)));
            assert(c.meta matches ClipMeta::Generated { generated_by, remove_ranges_applied }
                && generated_by@ == "ai-rough-cut"@ && remove_ranges_applied@ == rem@);
        }
        timeline_cursor = timeline_end;
        k += 1;
    }
    proof {
        assert(keep@.take(keep@.len() as int) =~= keep@);
        assert(clip_sources(clips@) =~= keep@);
        assert forall|j: int| 0 <= j <= keep@.len() implies #[trigger] clip_sources(
            clips@,
        ).take(j) =~= keep@.take(j) by {}
        if clips@.len() > 0 {
            lemma_total_len_take_step(keep@, keep@.len() - 1);
            assert(keep@.take(keep@.len() - 1 + 1) =~= keep@);
        }
    }
    let now = now_iso();
    let head: String = "timeline-".to_owned();
    let id = head.concat(generate_project_id().as_str());
    let r = Timeline {
        id,
        project_id,
        version: 1,
        status: "ROUGH_CUT_READY".to_owned(),
        fps: if fps >= 1 {
            fps
        } else {
            1
        },
        duration_us: timeline_cursor,
        created_at: now.clone(),
        updated_at: now,
        tracks: vec![video_track, captions_track],
        clips,
    };
    proof {
        assert(rough_cut_clips_ok(r.clips@, source_ref@, rem@));
    }
    r
}

/// The version counter after one save: advanced by 1, saturating at the
/// counter's maximum.
pub open spec fn bumped_version(v: u32) -> u32 {
    if v == u32::MAX {
        v
    } else {
        (v + 1) as u32
    }
}

/// Two saves in sequence advance the version by exactly 2 from whatever
/// the caller's payload held, as long as the counter has room.
pub proof fn lemma_save_twice_bumps_twice(v: u32)
    requires
        v + 2 <= u32::MAX,
    ensures
        bumped_version(bumped_version(v)) == v + 2,
{
}

/// Prepare a timeline for persisting: advance the version by 1 (saturating)
/// and stamp the update time. Everything else is the caller's payload,
/// trusted as the new full state — there is deliberately no concurrency
/// check against the previously stored version.
pub fn save_timeline(timeline: Timeline) -> (r: Timeline)
    ensures
        r.version == bumped_version(timeline.version),
        exists|n: nat| r.updated_at@ == dec_of(n),
        r.id@ == timeline.id@,
        r.project_id@ == timeline.project_id@,
        r.status@ == timeline.status@,
        r.fps == timeline.fps,
        r.duration_us == timeline.duration_us,
        r.created_at@ == timeline.created_at@,
        r.tracks@ == timeline.tracks@,
        r.clips@ == timeline.clips@,
{
    let Timeline {
        id,
        project_id,
        version,
        status,
        fps,
        duration_us,
        created_at,
        updated_at: _,
        tracks,
        clips,
    } = timeline;
    let new_version = if version == u32::MAX {
        u32::MAX
    } else {
        version + 1
    };
    Timeline {
        id,
        project_id,
        version: new_version,
        status,
        fps,
        duration_us,
        created_at,
        updated_at: now_iso(),
        tracks,
        clips,
    }
}

} // verus!
