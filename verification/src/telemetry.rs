//! Read-only access to the append-only logs the external stages produce:
//! the render history collection and the telemetry summary/event files.
//! The caller reads the files (or reports them absent); the selection and
//! defensive-parse logic lives here.
use crate::jsondoc::array_doc;
use crate::jsondoc::json_doc;
use crate::jsondoc::parse_json;
use crate::jsondoc::parse_json_array;
use crate::text::trim_bytes;
use crate::text::trimmed_bytes;
use serde_json::Value;
use vstd::prelude::*;

verus! {

/// The lines of `s`, split at newline bytes. Always at least one piece;
/// a trailing newline contributes a final empty piece.
pub open spec fn split_lines_spec(s: Seq<u8>) -> Seq<Seq<u8>>
    decreases s.len(),
{
    if s.len() == 0 {
        seq![Seq::<u8>::empty()]
    } else {
        let pre = split_lines_spec(s.drop_last());
        if s.last() == 10 {
            pre.push(Seq::<u8>::empty())
        } else {
            pre.update(pre.len() - 1, pre.last().push(s.last()))
        }
    }
}

proof fn lemma_split_lines_len(s: Seq<u8>)
    ensures
        split_lines_spec(s).len() >= 1,
    decreases s.len(),
{
    if s.len() > 0 {
        lemma_split_lines_len(s.drop_last());
    }
}

/// The lines, each trimmed of surrounding whitespace, with blank lines
/// dropped.
pub open spec fn tidy_lines_spec(lines: Seq<Seq<u8>>) -> Seq<Seq<u8>> {
    lines.map_values(|l: Seq<u8>| trimmed_bytes(l)).filter(|l: Seq<u8>| l.len() != 0)
}

/// How many of the lines with index in `[lo, hi)` parse as JSON documents.
pub open spec fn parsed_count_range(lines: Seq<Seq<u8>>, lo: int, hi: int) -> int
    decreases hi - lo,
{
    if lo >= hi {
        0
    } else {
        (if json_doc(lines[lo]) {
            1int
        } else {
            0int
        }) + parsed_count_range(lines, lo + 1, hi)
    }
}

/// How many of the last `limit` lines parse as JSON documents.
pub open spec fn recent_parsed_count(lines: Seq<Seq<u8>>, limit: nat) -> int {
    let n = lines.len() as int;
    let start = if limit < n {
        n - limit
    } else {
        0
    };
    parsed_count_range(lines, start, n)
}

/// The event limit after defaulting and clamping: 80 when absent, and
/// always within `[1, 400]`.
pub open spec fn clamped_limit(limit: Option<u32>) -> nat {
    let l = match limit {
        Option::Some(l) => l,
        Option::None => 80u32,
    };
    if l < 1 {
        1
    } else if l > 400 {
        400
    } else {
        l as nat
    }
}

/// The views of a vector of byte vectors.
pub open spec fn views_of(s: Seq<Vec<u8>>) -> Seq<Seq<u8>> {
    s.map_values(|v: Vec<u8>| v@)
}

/// Split the raw log content at newline bytes.
pub fn split_lines(content: &Vec<u8>) -> (r: Vec<Vec<u8>>)
    ensures
        views_of(r@) == split_lines_spec(content@),
{
    let mut r: Vec<Vec<u8>> = Vec::new();
    r.push(Vec::new());
    proof {
        assert(content@.take(0) =~= Seq::<u8>::empty());
        assert(views_of(r@) =~= split_lines_spec(content@.take(0)));
    }
    let mut i: usize = 0;
    while i < content.len()
        invariant
            i <= content@.len(),
            r@.len() >= 1,
            views_of(r@) == split_lines_spec(content@.take(i as int)),
        decreases content@.len() - i,
    {
        let b = content[i];
        let ghost pre = r@;
        if b == 10 {
            r.push(Vec::new());
            proof {
                assert(views_of(r@) =~= views_of(pre).push(Seq::<u8>::empty()));
            }
        } else {
            let mut lastv = r.pop().unwrap();
            lastv.push(b);
            r.push(lastv);
            proof {
                assert(views_of(r@) =~= views_of(pre).update(
                    pre.len() - 1,
                    views_of(pre).last().push(b),
                ));
            }
        }
        proof {
            assert(content@.take(i as int + 1).drop_last() =~= content@.take(i as int));
            assert(content@.take(i as int + 1).last() == content@[i as int]);
            lemma_split_lines_len(content@.take(i as int));
        }
        i += 1;
    }
    proof {
        assert(content@.take(content@.len() as int) =~= content@);
    }
    r
}

/// Trim every line and drop the blank ones.
pub fn tidy_lines(lines: &Vec<Vec<u8>>) -> (r: Vec<Vec<u8>>)
    ensures
        views_of(r@) == tidy_lines_spec(views_of(lines@)),
{
    broadcast use vstd::prelude::Seq::lemma_filter_push;

    let ghost m = views_of(lines@).map_values(|l: Seq<u8>| trimmed_bytes(l));
    let ghost p = |l: Seq<u8>| l.len() != 0;
    let mut r: Vec<Vec<u8>> = Vec::new();
    proof {
        assert(m.take(0) =~= Seq::<Seq<u8>>::empty());
        assert(views_of(r@) =~= m.take(0).filter(p));
    }
    let mut i: usize = 0;
    while i < lines.len()
        invariant
            i <= lines@.len(),
            m == views_of(lines@).map_values(|l: Seq<u8>| trimmed_bytes(l)),
            p == (|l: Seq<u8>| l.len() != 0),
            m.len() == lines@.len(),
            views_of(r@) == m.take(i as int).filter(p),
        decreases lines@.len() - i,
    {
        let t = trim_bytes(&lines[i]);
        let ghost pre = r@;
        proof {
            assert(m[i as int] == trimmed_bytes(lines@[i as int]@));
            assert(m.take(i as int + 1) =~= m.take(i as int).push(m[i as int]));
            m.take(i as int).lemma_filter_push(m[i as int], p);
            assert(t@ == m[i as int]);
            assert(p(m[i as int]) <==> t@.len() != 0);
        }
        if t.len() > 0 {
            r.push(t);
            proof {
                assert(views_of(r@) =~= views_of(pre).push(t@));
            }
        }
        i += 1;
    }
    proof {
        assert(m.take(m.len() as int) =~= m);
    }
    r
}

/// Parse the last `limit` non-blank lines of the raw event log, newest
/// first, skipping lines that do not parse: one corrupt line never
/// invalidates the read. Exactly the parseable lines among the selected
/// ones come back.
pub fn recent_events(content: &Vec<u8>, limit: usize) -> (r: Vec<Value>)
    ensures
        r@.len() == recent_parsed_count(
            tidy_lines_spec(split_lines_spec(content@)),
            limit as nat,
        ),
{
    let lines = split_lines(content);
    let tidy = tidy_lines(&lines);
    let ghost tv = views_of(tidy@);
    let n = tidy.len();
    let take_n = if limit < n {
        limit
    } else {
        n
    };
    let mut out: Vec<Value> = Vec::new();
    let mut j: usize = 0;
    while j < take_n
        invariant
            j <= take_n <= n,
            n == tidy@.len(),
            tv == views_of(tidy@),
            out@.len() == parsed_count_range(tv, n - j, n as int),
        decreases take_n - j,
    {
        let idx = n - 1 - j;
        proof {
            assert(tv[idx as int] == tidy@[idx as int]@);
            assert(parsed_count_range(tv, idx as int, n as int) == (if json_doc(tv[idx as int]) {
                1int
            } else {
                0int
            }) + parsed_count_range(tv, idx + 1, n as int));
        }
        match parse_json(tidy[idx].as_slice()) {
            Result::Ok(v) => {
                out.push(v);
            },
            Result::Err(_) => {},
        }
        j += 1;
    }
    proof {
        let lim = limit as int;
        let start = if lim < n {
            n as int - lim
        } else {
            0int
        };
        assert(n - take_n == start);
    }
    out
}

/// The parsed telemetry summary — `None` when the caller must fall back to
/// the null default — and the most recent events for a project.
pub struct TelemetryReport {
    pub summary: Option<Value>,
    pub recent_events: Vec<Value>,
}

/// Read a project's telemetry. This read path never fails: a storage
/// failure here is downgraded to the empty-result default. The summary is
/// the parsed summary document exactly when the file exists and parses —
/// otherwise `None`, for which the caller serves the null default. The
/// events are the last `limit` lines of the append log, newest first, with
/// unparseable lines skipped and an absent log meaning no events.
pub fn get_project_telemetry(
    summary: Option<&Vec<u8>>,
    events: Option<&Vec<u8>>,
    limit: Option<u32>,
) -> (r: TelemetryReport)
    ensures
        r.summary is Some <==> (summary matches Some(b) && json_doc(b@)),
        r.recent_events@.len() == (match events {
            Option::Some(e) => recent_parsed_count(
                tidy_lines_spec(split_lines_spec(e@)),
                clamped_limit(limit),
            ),
            Option::None => 0int,
        }),
{
    let lim_raw: u32 = match limit {
        Option::Some(l) => l,
        Option::None => 80,
    };
    let lim: usize = if lim_raw < 1 {
        1
    } else if lim_raw > 400 {
        400
    } else {
        lim_raw as usize
    };
    let summary_value = match summary {
        Option::Some(bytes) => match parse_json(bytes.as_slice()) {
            Result::Ok(v) => Option::Some(v),
            Result::Err(_) => Option::None,
        },
        Option::None => Option::None,
    };
    let recent = match events {
        Option::Some(bytes) => recent_events(bytes, lim),
        Option::None => Vec::new(),
    };
    TelemetryReport { summary: summary_value, recent_events: recent }
}

/// Read a project's render history. This read path never fails: a storage
/// failure here is downgraded to the empty-result default. The parsed
/// document comes back exactly when the file exists and holds a JSON array
/// document; an absent file, a file that does not parse, and a file whose
/// top level is not an array each yield `None`, for which the caller
/// serves the empty history.
pub fn get_render_history(content: Option<&Vec<u8>>) -> (r: Option<Value>)
    ensures
        r is Some <==> (content matches Some(b) && array_doc(b@)),
{
    match content {
        Option::None => Option::None,
        Option::Some(bytes) => parse_json_array(bytes.as_slice()),
    }
}

} // verus!
