//! Range arithmetic: normalizing a set of time ranges and inverting a
//! normalized set against a total duration. These are the pure functions
//! behind rough-cut synthesis.
use vstd::prelude::*;

verus! {

/// A half-open interval of time, in microseconds.
#[derive(Clone, Copy, PartialEq, Eq, Structural, Debug)]
pub struct TimeRange {
    pub start_us: u64,
    pub end_us: u64,
}

/// An instant `t` lies inside the range `r`.
pub open spec fn in_range(r: TimeRange, t: int) -> bool {
    r.start_us <= t < r.end_us
}

/// Some range of `s` contains the instant `t`.
pub open spec fn covers(s: Seq<TimeRange>, t: int) -> bool {
    exists|i: int| 0 <= i < s.len() && in_range(s[i], t)
}

/// The range `r` with both endpoints clamped to `[0, d]`.
pub open spec fn clamped(r: TimeRange, d: u64) -> TimeRange {
    TimeRange {
        start_us: if r.start_us <= d { r.start_us } else { d },
        end_us: if r.end_us <= d { r.end_us } else { d },
    }
}

/// Some range of `s`, clamped to `[0, d]`, contains the instant `t`.
pub open spec fn clamped_covers(s: Seq<TimeRange>, d: u64, t: int) -> bool {
    exists|i: int| 0 <= i < s.len() && in_range(clamped(s[i], d), t)
}

/// `s` is in normal form for duration `d`: every range is non-empty and lies
/// within `[0, d]`, and the ranges are sorted ascending with a gap between
/// any two ranges (touching ranges would have been merged).
pub open spec fn normalized(s: Seq<TimeRange>, d: u64) -> bool {
    &&& forall|i: int| 0 <= i < s.len() ==> (#[trigger] s[i]).start_us < s[i].end_us <= d
    &&& forall|i: int, j: int|
        0 <= i < j < s.len() ==> (#[trigger] s[i]).end_us < (#[trigger] s[j]).start_us
}

/// The ranges as plain start/end pairs.
pub open spec fn pairs_of(s: Seq<TimeRange>) -> Seq<(u64, u64)> {
    s.map_values(|r: TimeRange| (r.start_us, r.end_us))
}

/// Plain start/end pairs as ranges.
pub open spec fn ranges_of_pairs(s: Seq<(u64, u64)>) -> Seq<TimeRange> {
    s.map_values(|p: (u64, u64)| TimeRange { start_us: p.0, end_us: p.1 })
}

/// Total covered duration of a pairwise-disjoint range set: the sum of the
/// range lengths.
pub open spec fn total_len(s: Seq<TimeRange>) -> int
    decreases s.len(),
{
    if s.len() == 0 {
        0
    } else {
        total_len(s.drop_last()) + s.last().end_us - s.last().start_us
    }
}

/// Dropping the first range of a normal form leaves a normal form.
proof fn lemma_normalized_drop_first(a: Seq<TimeRange>, d: u64)
    requires
        normalized(a, d),
        a.len() > 0,
    ensures
        normalized(a.drop_first(), d),
{
    let a1 = a.drop_first();
    assert forall|i: int| 0 <= i < a1.len() implies (#[trigger] a1[i]).start_us < a1[i].end_us
        <= d by {
        assert(a1[i] == a[i + 1]);
    }
    assert forall|i: int, j: int| 0 <= i < j < a1.len() implies (#[trigger] a1[i]).end_us < (
    #[trigger] a1[j]).start_us by {
        assert(a1[i] == a[i + 1]);
        assert(a1[j] == a[j + 1]);
    }
}

/// For a non-empty normal form, dropping the first range removes exactly the
/// instants of that first range from the coverage.
proof fn lemma_drop_first_coverage(a: Seq<TimeRange>, d: u64, t: int)
    requires
        normalized(a, d),
        a.len() > 0,
    ensures
        covers(a.drop_first(), t) <==> (covers(a, t) && t >= a[0].end_us),
{
    let a1 = a.drop_first();
    if covers(a1, t) {
        let i = choose|i: int| 0 <= i < a1.len() && in_range(a1[i], t);
        assert(a1[i] == a[i + 1]);
        assert(in_range(a[i + 1], t));
        assert(a[0].end_us < a[i + 1].start_us);
        assert(covers(a, t));
    }
    if covers(a, t) && t >= a[0].end_us {
        let i = choose|i: int| 0 <= i < a.len() && in_range(a[i], t);
        assert(i != 0);
        assert(a1[i - 1] == a[i]);
        assert(in_range(a1[i - 1], t));
        assert(covers(a1, t));
    }
}

/// With equal coverage, the first ranges of two non-empty normal forms are
/// the same range.
proof fn lemma_normalized_heads_equal(a: Seq<TimeRange>, b: Seq<TimeRange>, d: u64)
    requires
        normalized(a, d),
        normalized(b, d),
        a.len() > 0,
        b.len() > 0,
        forall|t: int| covers(a, t) <==> covers(b, t),
    ensures
        a[0] == b[0],
{
    lemma_normalized_head_start_geq(a, b, d);
    lemma_normalized_head_start_geq(b, a, d);
    assert(a[0].start_us == b[0].start_us);
    lemma_normalized_head_end_leq(a, b, d);
    lemma_normalized_head_end_leq(b, a, d);
    assert(a[0].end_us == b[0].end_us);
}

/// The first range of `a` starts no earlier than the first range of `b`,
/// when `b` covers everything `a` covers.
proof fn lemma_normalized_head_start_geq(a: Seq<TimeRange>, b: Seq<TimeRange>, d: u64)
    requires
        normalized(a, d),
        normalized(b, d),
        a.len() > 0,
        b.len() > 0,
        forall|t: int| covers(a, t) ==> covers(b, t),
    ensures
        a[0].start_us >= b[0].start_us,
{
    let t = a[0].start_us as int;
    assert(in_range(a[0], t));
    assert(covers(a, t));
    let i = choose|i: int| 0 <= i < b.len() && in_range(b[i], t);
    if i > 0 {
        assert(b[0].end_us < b[i].start_us);
    }
}

/// With equal starts, the first range of `a` ends no later than the first
/// range of `b`, when `b` covers everything `a` covers.
proof fn lemma_normalized_head_end_leq(a: Seq<TimeRange>, b: Seq<TimeRange>, d: u64)
    requires
        normalized(a, d),
        normalized(b, d),
        a.len() > 0,
        b.len() > 0,
        a[0].start_us == b[0].start_us,
        forall|t: int| covers(a, t) ==> covers(b, t),
    ensures
        a[0].end_us <= b[0].end_us,
{
    if a[0].end_us > b[0].end_us {
        // The instant where b's first range ends would be covered by a but
        // not by b: all later ranges of b start strictly after it.
        let t = b[0].end_us as int;
        assert(in_range(a[0], t));
        assert(covers(a, t));
        let j = choose|j: int| 0 <= j < b.len() && in_range(b[j], t);
        if j > 0 {
            assert(b[0].end_us < b[j].start_us);
        }
        assert(false);
    }
}

/// Every range of `s` is non-empty and lies within `[0, d]`.
spec fn ranges_within(s: Seq<TimeRange>, d: u64) -> bool {
    forall|i: int| 0 <= i < s.len() ==> (#[trigger] s[i]).start_us < s[i].end_us <= d
}

/// The ranges of `s` are sorted ascending by start.
spec fn starts_sorted(s: Seq<TimeRange>) -> bool {
    forall|i: int, j: int|
        0 <= i < j < s.len() ==> (#[trigger] s[i]).start_us <= (#[trigger] s[j]).start_us
}

proof fn lemma_covers_push(s: Seq<TimeRange>, x: TimeRange, t: int)
    ensures
        covers(s.push(x), t) <==> (covers(s, t) || in_range(x, t)),
{
    let s2 = s.push(x);
    if covers(s2, t) {
        let i = choose|i: int| 0 <= i < s2.len() && in_range(s2[i], t);
        if i < s.len() {
            assert(s2[i] == s[i]);
            assert(covers(s, t));
        } else {
            assert(s2[i] == x);
        }
    }
    if covers(s, t) {
        let i = choose|i: int| 0 <= i < s.len() && in_range(s[i], t);
        assert(s2[i] == s[i]);
        assert(covers(s2, t));
    }
    if in_range(x, t) {
        assert(s2[s.len() as int] == x);
        assert(covers(s2, t));
    }
}

proof fn lemma_covers_take_step(s: Seq<TimeRange>, i: int, t: int)
    requires
        0 <= i < s.len(),
    ensures
        covers(s.take(i + 1), t) <==> (covers(s.take(i), t) || in_range(s[i], t)),
{
    assert(s.take(i + 1) =~= s.take(i).push(s[i]));
    lemma_covers_push(s.take(i), s[i], t);
}

proof fn lemma_clamped_covers_take_step(s: Seq<TimeRange>, d: u64, i: int, t: int)
    requires
        0 <= i < s.len(),
    ensures
        clamped_covers(s.take(i + 1), d, t) <==> (clamped_covers(s.take(i), d, t) || in_range(
            clamped(s[i], d),
            t,
        )),
{
    let a = s.take(i);
    let b = s.take(i + 1);
    if clamped_covers(b, d, t) {
        let j = choose|j: int| 0 <= j < b.len() && in_range(clamped(b[j], d), t);
        if j < i {
            assert(a[j] == b[j]);
            assert(clamped_covers(a, d, t));
        } else {
            assert(b[j] == s[i]);
        }
    }
    if clamped_covers(a, d, t) {
        let j = choose|j: int| 0 <= j < a.len() && in_range(clamped(a[j], d), t);
        assert(b[j] == a[j]);
        assert(clamped_covers(b, d, t));
    }
    if in_range(clamped(s[i], d), t) {
        assert(b[i] == s[i]);
        assert(clamped_covers(b, d, t));
    }
}

/// Coverage only depends on which ranges are present, not on their order.
proof fn lemma_coverage_from_multiset(a: Seq<TimeRange>, b: Seq<TimeRange>, t: int)
    requires
        a.to_multiset() == b.to_multiset(),
    ensures
        covers(a, t) <==> covers(b, t),
{
    broadcast use vstd::seq_lib::to_multiset_contains;

    if covers(a, t) {
        let i = choose|i: int| 0 <= i < a.len() && in_range(a[i], t);
        assert(a.contains(a[i]));
        assert(a.to_multiset().contains(a[i]));
        assert(b.to_multiset().contains(a[i]));
        assert(b.contains(a[i]));
        let j = choose|j: int| 0 <= j < b.len() && b[j] == a[i];
        assert(in_range(b[j], t));
        assert(covers(b, t));
    }
    if covers(b, t) {
        let i = choose|i: int| 0 <= i < b.len() && in_range(b[i], t);
        assert(b.contains(b[i]));
        assert(b.to_multiset().contains(b[i]));
        assert(a.to_multiset().contains(b[i]));
        assert(a.contains(b[i]));
        let j = choose|j: int| 0 <= j < a.len() && a[j] == b[i];
        assert(in_range(a[j], t));
        assert(covers(a, t));
    }
}

/// A normalized range set is determined by the set of instants it covers:
/// two normal forms with the same coverage are the same sequence.
pub proof fn lemma_normalized_coverage_unique(a: Seq<TimeRange>, b: Seq<TimeRange>, d: u64)
    requires
        normalized(a, d),
        normalized(b, d),
        forall|t: int| covers(a, t) <==> covers(b, t),
    ensures
        a =~= b,
    decreases a.len(),
{
    if a.len() == 0 {
        if b.len() > 0 {
            assert(in_range(b[0], b[0].start_us as int));
            assert(covers(b, b[0].start_us as int));
            assert(false);
        }
    } else if b.len() == 0 {
        assert(in_range(a[0], a[0].start_us as int));
        assert(covers(a, a[0].start_us as int));
        assert(false);
    } else {
        lemma_normalized_heads_equal(a, b, d);
        let a1 = a.drop_first();
        let b1 = b.drop_first();
        lemma_normalized_drop_first(a, d);
        lemma_normalized_drop_first(b, d);
        assert forall|t: int| covers(a1, t) <==> covers(b1, t) by {
            lemma_drop_first_coverage(a, d, t);
            lemma_drop_first_coverage(b, d, t);
        }
        lemma_normalized_coverage_unique(a1, b1, d);
        assert(a =~= seq![a[0]] + a1);
        assert(b =~= seq![b[0]] + b1);
    }
}

/// A normal form that covers every instant of `[0, d)`, for `d > 0`, is the
/// single range `[0, d)`. With no ranges to remove, the whole source is one
/// keep-range.
pub proof fn lemma_full_coverage_is_single_range(keep: Seq<TimeRange>, d: u64)
    requires
        d > 0,
        normalized(keep, d),
        forall|t: int| #[trigger] covers(keep, t) <==> 0 <= t < d,
    ensures
        keep =~= seq![TimeRange { start_us: 0, end_us: d }],
{
    let single = seq![TimeRange { start_us: 0, end_us: d }];
    assert forall|t: int| covers(single, t) <==> covers(keep, t) by {
        if 0 <= t < d {
            assert(in_range(single[0], t));
            assert(covers(single, t));
        }
        if covers(single, t) {
            let j = choose|j: int| 0 <= j < single.len() && in_range(single[j], t);
            assert(j == 0);
        }
    }
    lemma_normalized_coverage_unique(keep, single, d);
}

/// A normal form that covers nothing is empty. Removing the whole source
/// leaves no keep-ranges.
pub proof fn lemma_empty_coverage_is_empty(keep: Seq<TimeRange>, d: u64)
    requires
        normalized(keep, d),
        forall|t: int| !covers(keep, t),
    ensures
        keep =~= Seq::<TimeRange>::empty(),
{
    if keep.len() > 0 {
        assert(in_range(keep[0], keep[0].start_us as int));
        assert(covers(keep, keep[0].start_us as int));
        assert(false);
    }
}

/// One more range adds its length to the running total.
pub proof fn lemma_total_len_take_step(s: Seq<TimeRange>, i: int)
    requires
        0 <= i < s.len(),
    ensures
        total_len(s.take(i + 1)) == total_len(s.take(i)) + s[i].end_us - s[i].start_us,
{
    assert(s.take(i + 1).drop_last() =~= s.take(i));
    assert(s.take(i + 1).last() == s[i]);
}

/// The total length of a prefix of non-empty ranges is at most the total
/// length of the whole sequence, and never negative.
pub proof fn lemma_total_len_take_le(s: Seq<TimeRange>, i: int)
    requires
        0 <= i <= s.len(),
        forall|k: int| 0 <= k < s.len() ==> (#[trigger] s[k]).start_us < s[k].end_us,
    ensures
        0 <= total_len(s.take(i)) <= total_len(s),
    decreases s.len() - i, i + s.len(),
{
    lemma_total_len_nonneg(s.take(i));
    if i == s.len() {
        assert(s.take(i) =~= s);
    } else {
        lemma_total_len_take_step(s, i);
        lemma_total_len_take_le(s, i + 1);
    }
}

/// The running total of non-empty range lengths grows with the prefix.
pub proof fn lemma_total_len_take_mono(s: Seq<TimeRange>, i: int, j: int)
    requires
        0 <= i <= j <= s.len(),
        forall|k: int| 0 <= k < s.len() ==> (#[trigger] s[k]).start_us < s[k].end_us,
    ensures
        total_len(s.take(i)) <= total_len(s.take(j)),
    decreases j - i,
{
    if i < j {
        lemma_total_len_take_step(s, j - 1);
        lemma_total_len_take_mono(s, i, j - 1);
    }
}

/// The total length of non-empty ranges is never negative.
pub proof fn lemma_total_len_nonneg(s: Seq<TimeRange>)
    requires
        forall|k: int| 0 <= k < s.len() ==> (#[trigger] s[k]).start_us < s[k].end_us,
    ensures
        total_len(s) >= 0,
    decreases s.len(),
{
    if s.len() > 0 {
        assert(forall|k: int|
            0 <= k < s.drop_last().len() ==> (#[trigger] s.drop_last()[k]) == s[k]);
        lemma_total_len_nonneg(s.drop_last());
    }
}

/// Bring a set of remove-ranges into normal form for the given duration:
/// clamp every range to `[0, duration_us]`, drop the empty ones, sort by
/// start, and merge overlapping or touching neighbours. The result is the
/// unique normal form covering exactly the instants the clamped input
/// covers; a set already in normal form comes back unchanged.
#[verifier::rlimit(60)]
pub fn normalize_ranges(ranges: Vec<TimeRange>, duration_us: u64) -> (r: Vec<TimeRange>)
    ensures
        normalized(r@, duration_us),
        forall|t: int| #[trigger] covers(r@, t) <==> clamped_covers(ranges@, duration_us, t),
        normalized(ranges@, duration_us) ==> r@ == ranges@,
{
    let d = duration_us;
    // Clamp both endpoints to [0, d] and drop ranges that end up empty.
    let mut kept: Vec<TimeRange> = Vec::new();
    let mut i: usize = 0;
    while i < ranges.len()
        invariant
            i <= ranges@.len(),
            ranges_within(kept@, d),
            forall|t: int| #[trigger] covers(kept@, t) <==> clamped_covers(
                ranges@.take(i as int),
                d,
                t,
            ),
        decreases ranges@.len() - i,
    {
        let rg = ranges[i];
        let s = if rg.start_us <= d {
            rg.start_us
        } else {
            d
        };
        let e = if rg.end_us <= d {
            rg.end_us
        } else {
            d
        };
        let ghost pre = kept@;
        if e > s {
            kept.push(TimeRange { start_us: s, end_us: e });
        }
        proof {
            assert(clamped(ranges@[i as int], d) == (TimeRange { start_us: s, end_us: e }));
            assert forall|t: int| #[trigger] covers(kept@, t) <==> clamped_covers(
                ranges@.take(i as int + 1),
                d,
                t,
            ) by {
                lemma_clamped_covers_take_step(ranges@, d, i as int, t);
                if e > s {
                    lemma_covers_push(pre, TimeRange { start_us: s, end_us: e }, t);
                }
            }
        }
        i += 1;
    }
    proof {
        assert(ranges@.take(ranges@.len() as int) =~= ranges@);
    }
    // Sort by start (insertion into a sorted vector).
    let ghost kept0 = kept@;
    let mut sorted_v: Vec<TimeRange> = Vec::new();
    proof {
        assert(sorted_v@ =~= kept0.take(0));
    }
    let mut i: usize = 0;
    while i < kept.len()
        invariant
            i <= kept@.len(),
            kept@ == kept0,
            ranges_within(kept0, d),
            sorted_v@.to_multiset() == kept0.take(i as int).to_multiset(),
            starts_sorted(sorted_v@),
            ranges_within(sorted_v@, d),
        decreases kept@.len() - i,
    {
        let x = kept[i];
        let mut p: usize = 0;
        while p < sorted_v.len() && sorted_v[p].start_us <= x.start_us
            invariant
                p <= sorted_v@.len(),
                forall|k: int| 0 <= k < p ==> (#[trigger] sorted_v@[k]).start_us <= x.start_us,
            decreases sorted_v@.len() - p,
        {
            p += 1;
        }
        let ghost pre = sorted_v@;
        sorted_v.insert(p, x);
        proof {
            pre.insert_ensures(p as int, x);
            broadcast use vstd::seq_lib::to_multiset_insert;

            kept0.take(i as int).to_multiset_ensures();
            assert(kept0.take(i as int + 1) =~= kept0.take(i as int).push(x));
            assert(sorted_v@.to_multiset() == kept0.take(i as int + 1).to_multiset());
            assert forall|a: int, b: int| 0 <= a < b < sorted_v@.len() implies (
            #[trigger] sorted_v@[a]).start_us <= (#[trigger] sorted_v@[b]).start_us by {
                if a < p && b < p {
                    assert(sorted_v@[a] == pre[a]);
                    assert(sorted_v@[b] == pre[b]);
                } else if b == p {
                    assert(sorted_v@[a] == pre[a]);
                } else if a == p {
                    assert(sorted_v@[b] == pre[b - 1]);
                    assert(pre[p as int].start_us > x.start_us);
                    assert(pre[b - 1].start_us >= pre[p as int].start_us);
                } else if a < p {
                    assert(sorted_v@[a] == pre[a]);
                    assert(sorted_v@[b] == pre[b - 1]);
                } else {
                    assert(sorted_v@[a] == pre[a - 1]);
                    assert(sorted_v@[b] == pre[b - 1]);
                }
            }
            assert forall|k: int| 0 <= k < sorted_v@.len() implies (
            #[trigger] sorted_v@[k]).start_us < sorted_v@[k].end_us <= d by {
                if k < p {
                    assert(sorted_v@[k] == pre[k]);
                } else if k > p {
                    assert(sorted_v@[k] == pre[k - 1]);
                }
            }
        }
        i += 1;
    }
    proof {
        assert(kept0.take(kept0.len() as int) =~= kept0);
        assert forall|t: int| #[trigger] covers(sorted_v@, t) <==> covers(kept0, t) by {
            lemma_coverage_from_multiset(sorted_v@, kept0, t);
        }
    }
    // Merge overlapping or touching neighbours.
    let mut merged: Vec<TimeRange> = Vec::new();
    let mut i: usize = 0;
    while i < sorted_v.len()
        invariant
            i <= sorted_v@.len(),
            starts_sorted(sorted_v@),
            ranges_within(sorted_v@, d),
            normalized(merged@, d),
            forall|t: int| #[trigger] covers(merged@, t) <==> covers(sorted_v@.take(i as int), t),
            merged@.len() > 0 ==> forall|k: int|
                i <= k < sorted_v@.len() ==> merged@.last().start_us <= (
                #[trigger] sorted_v@[k]).start_us,
        decreases sorted_v@.len() - i,
    {
        let rg = sorted_v[i];
        let n = merged.len();
        let ghost pre = merged@;
        if n > 0 && rg.start_us <= merged[n - 1].end_us {
            let last = merged[n - 1];
            if rg.end_us > last.end_us {
                merged.set(n - 1, TimeRange { start_us: last.start_us, end_us: rg.end_us });
            }
            proof {
                assert forall|t: int| #[trigger] covers(merged@, t) <==> covers(
                    sorted_v@.take(i as int + 1),
                    t,
                ) by {
                    lemma_covers_take_step(sorted_v@, i as int, t);
                    if rg.end_us > last.end_us {
                        let nl = TimeRange { start_us: last.start_us, end_us: rg.end_us };
                        assert(merged@ == pre.update(pre.len() - 1, nl));
                        if covers(merged@, t) {
                            let j = choose|j: int|
                                0 <= j < merged@.len() && in_range(merged@[j], t);
                            if j < pre.len() - 1 {
                                assert(merged@[j] == pre[j]);
                                assert(covers(pre, t));
                            } else {
                                assert(in_range(nl, t));
                                if t < last.end_us {
                                    assert(in_range(pre[pre.len() - 1], t));
                                    assert(covers(pre, t));
                                } else {
                                    assert(in_range(rg, t));
                                }
                            }
                        }
                        if covers(pre, t) {
                            let j = choose|j: int| 0 <= j < pre.len() && in_range(pre[j], t);
                            if j < pre.len() - 1 {
                                assert(merged@[j] == pre[j]);
                            } else {
                                assert(in_range(nl, t));
                                assert(in_range(merged@[j], t));
                            }
                            assert(covers(merged@, t));
                        }
                        if in_range(rg, t) {
                            assert(in_range(merged@[pre.len() - 1], t));
                            assert(covers(merged@, t));
                        }
                    } else {
                        if in_range(rg, t) {
                            assert(in_range(pre[pre.len() - 1], t));
                            assert(covers(pre, t));
                        }
                    }
                }
                if rg.end_us > last.end_us {
                    let nl = TimeRange { start_us: last.start_us, end_us: rg.end_us };
                    assert forall|a: int, b: int| 0 <= a < b < merged@.len() implies (
                    #[trigger] merged@[a]).end_us < (#[trigger] merged@[b]).start_us by {
                        assert(pre[a].end_us < pre[b].start_us);
                        if b < pre.len() - 1 {
                            assert(merged@[a] == pre[a]);
                            assert(merged@[b] == pre[b]);
                        } else {
                            assert(merged@[a] == pre[a]);
                            assert(merged@[b] == nl);
                        }
                    }
                }
            }
        } else {
            merged.push(rg);
            proof {
                assert forall|t: int| #[trigger] covers(merged@, t) <==> covers(
                    sorted_v@.take(i as int + 1),
                    t,
                ) by {
                    lemma_covers_take_step(sorted_v@, i as int, t);
                    lemma_covers_push(pre, rg, t);
                }
                assert forall|a: int, b: int| 0 <= a < b < merged@.len() implies (
                #[trigger] merged@[a]).end_us < (#[trigger] merged@[b]).start_us by {
                    if b < pre.len() {
                        assert(merged@[a] == pre[a]);
                        assert(merged@[b] == pre[b]);
                    } else {
                        assert(merged@[a] == pre[a]);
                        if a < pre.len() - 1 {
                            assert(pre[a].end_us < pre[pre.len() - 1].start_us);
                        }
                    }
                }
            }
        }
        i += 1;
    }
    proof {
        assert(sorted_v@.take(sorted_v@.len() as int) =~= sorted_v@);
        if normalized(ranges@, duration_us) {
            assert forall|t: int| covers(merged@, t) <==> covers(ranges@, t) by {
                assert forall|t2: int| clamped_covers(ranges@, duration_us, t2) <==> covers(
                    ranges@,
                    t2,
                ) by {
                    assert forall|k: int| 0 <= k < ranges@.len() implies clamped(
                        #[trigger] ranges@[k],
                        duration_us,
                    ) == ranges@[k] by {
                        assert(ranges@[k].start_us < ranges@[k].end_us <= duration_us);
                    }
                }
            }
            lemma_normalized_coverage_unique(merged@, ranges@, duration_us);
        }
    }
    merged
}

/// Invert a normalized remove-range set against a total duration: the
/// result is the normal form of the kept instants, walked with a cursor
/// from 0. The kept and removed durations partition the total duration.
pub fn invert_ranges(remove_ranges: &Vec<TimeRange>, duration_us: u64) -> (r: Vec<TimeRange>)
    requires
        normalized(remove_ranges@, duration_us),
    ensures
        normalized(r@, duration_us),
        forall|t: int| #[trigger] covers(r@, t) <==> (0 <= t < duration_us && !covers(
            remove_ranges@,
            t,
        )),
        total_len(r@) + total_len(remove_ranges@) == duration_us,
{
    let d = duration_us;
    if d == 0 {
        proof {
            if remove_ranges@.len() > 0 {
                assert(remove_ranges@[0].start_us < remove_ranges@[0].end_us <= 0);
            }
            assert(remove_ranges@ =~= Seq::<TimeRange>::empty());
        }
        return Vec::new();
    }
    let rem = remove_ranges;
    let mut keep: Vec<TimeRange> = Vec::new();
    let mut cursor: u64 = 0;
    let mut i: usize = 0;
    while i < rem.len()
        invariant
            i <= rem@.len(),
            normalized(rem@, d),
            cursor == if i == 0 {
                0int
            } else {
                rem@[i as int - 1].end_us as int
            },
            cursor <= d,
            normalized(keep@, d),
            forall|k: int| 0 <= k < keep@.len() ==> (#[trigger] keep@[k]).end_us <= cursor,
            keep@.len() > 0 ==> keep@.last().end_us < cursor,
            forall|j: int| 0 <= j < i ==> (#[trigger] rem@[j]).end_us <= cursor,
            forall|t: int| #[trigger] covers(keep@, t) <==> (0 <= t < cursor && !covers(
                rem@.take(i as int),
                t,
            )),
            total_len(keep@) + total_len(rem@.take(i as int)) == cursor,
        decreases rem@.len() - i,
    {
        let rg = rem[i];
        let ghost pre = keep@;
        let ghost pre_cursor = cursor as int;
        if rg.start_us > cursor {
            keep.push(TimeRange { start_us: cursor, end_us: rg.start_us });
        }
        if rg.end_us > cursor {
            cursor = rg.end_us;
        }
        proof {
            assert(rg == rem@[i as int]);
            if i > 0 {
                assert(rem@[i as int - 1].end_us < rem@[i as int].start_us);
            }
            assert(rg.start_us >= pre_cursor);
            assert(rg.end_us > pre_cursor);
            assert(cursor == rg.end_us);
            let gap = TimeRange { start_us: pre_cursor as u64, end_us: rg.start_us };
            if rg.start_us > pre_cursor {
                assert(keep@ == pre.push(gap));
                assert forall|a: int, b: int| 0 <= a < b < keep@.len() implies (
                #[trigger] keep@[a]).end_us < (#[trigger] keep@[b]).start_us by {
                    if b < pre.len() {
                        assert(keep@[a] == pre[a]);
                        assert(keep@[b] == pre[b]);
                    } else {
                        assert(keep@[a] == pre[a]);
                        assert(keep@[b] == gap);
                        if a < pre.len() - 1 {
                            assert(pre[a].end_us < pre[pre.len() - 1].start_us);
                        }
                        assert(pre[a].end_us < pre_cursor);
                    }
                }
                assert(normalized(keep@, d));
            }
            assert forall|t: int| #[trigger] covers(keep@, t) <==> (0 <= t < cursor && !covers(
                rem@.take(i as int + 1),
                t,
            )) by {
                lemma_covers_take_step(rem@, i as int, t);
                if rg.start_us > pre_cursor {
                    lemma_covers_push(pre, gap, t);
                }
            }
            assert(rem@.take(i as int + 1) =~= rem@.take(i as int).push(rg));
            assert(rem@.take(i as int + 1).drop_last() =~= rem@.take(i as int));
            if rg.start_us > pre_cursor {
                assert(keep@.drop_last() =~= pre);
                assert(total_len(keep@) == total_len(pre) + rg.start_us - pre_cursor);
            }
            assert(total_len(keep@) + total_len(rem@.take(i as int + 1)) == cursor);
        }
        i += 1;
    }
    let ghost pre = keep@;
    let ghost pre_cursor = cursor as int;
    if cursor < d {
        keep.push(TimeRange { start_us: cursor, end_us: d });
    }
    proof {
        assert(rem@.take(rem@.len() as int) =~= rem@);
        let tail = TimeRange { start_us: pre_cursor as u64, end_us: d };
        if pre_cursor < d {
            assert(keep@ == pre.push(tail));
            assert forall|a: int, b: int| 0 <= a < b < keep@.len() implies (
            #[trigger] keep@[a]).end_us < (#[trigger] keep@[b]).start_us by {
                if b < pre.len() {
                    assert(keep@[a] == pre[a]);
                    assert(keep@[b] == pre[b]);
                } else {
                    assert(keep@[a] == pre[a]);
                    assert(keep@[b] == tail);
                    if a < pre.len() - 1 {
                        assert(pre[a].end_us < pre[pre.len() - 1].start_us);
                    }
                    assert(pre[a].end_us < pre_cursor);
                }
            }
            assert(normalized(keep@, d));
        }
        assert forall|t: int| #[trigger] covers(keep@, t) <==> (0 <= t < d && !covers(
            rem@,
            t,
        )) by {
            if pre_cursor < d {
                lemma_covers_push(pre, tail, t);
            }
            if pre_cursor <= t < d {
                if covers(rem@, t) {
                    let j = choose|j: int| 0 <= j < rem@.len() && in_range(rem@[j], t);
                    assert(rem@[j].end_us <= pre_cursor);
                    assert(false);
                }
            }
        }
        if pre_cursor < d {
            assert(keep@.drop_last() =~= pre);
            assert(total_len(keep@) == total_len(pre) + d - pre_cursor);
        }
    }
    keep
}

} // verus!
