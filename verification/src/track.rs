//! The figures of a whole track, segment by segment.

use crate::stats::{
    empty_tally, fits, lemma_fits_all_along, lemma_walk_only_adds, timed_by, walk, walk_fits, Leg,
    PathStats, Tally,
};
use vstd::prelude::*;

verus! {

/// A pair of neighbouring waypoints whose distance could not be measured:
/// the segment, and the places of the two waypoints in it.
#[derive(Clone, Copy, Debug, PartialEq, Eq)]
pub struct GeometryError {
    pub segment: usize,
    pub from: usize,
    pub to: usize,
}

/// The outcome of folding a track.
#[derive(Debug)]
pub struct TrackReport {
    /// The figures of the whole track.
    pub stats: PathStats,
    /// For each segment and each of its legs, the seconds walked before the
    /// leg begins: the new time of its earlier waypoint. `None` where the
    /// leg was not measured or no times were asked for.
    pub starts: Vec<Vec<Option<u64>>>,
    /// The unmeasured legs, in the order of the track.
    pub failures: Vec<GeometryError>,
}

/// The figures after whole segments, taken in order.
pub open spec fn walk_track(start: Tally, segments: Seq<Vec<Leg>>) -> Tally
    decreases segments.len(),
{
    if segments.len() == 0 {
        start
    } else {
        walk(walk_track(start, segments.drop_last()), segments.last()@)
    }
}

/// Whether the sums fit a machine word after every leg of every segment.
pub open spec fn track_fits(start: Tally, segments: Seq<Vec<Leg>>) -> bool
    decreases segments.len(),
{
    segments.len() == 0 || (track_fits(start, segments.drop_last()) && walk_fits(
        walk_track(start, segments.drop_last()),
        segments.last()@,
    ))
}

/// Seconds walked before leg `i` of segment `s` begins.
pub open spec fn leg_start(segments: Seq<Vec<Leg>>, s: int, i: int) -> nat {
    walk(walk_track(empty_tally(), segments.take(s)), segments[s]@.take(i)).duration
}

/// The new time of the earlier waypoint of leg `i` of segment `s`.
pub open spec fn start_mark(segments: Seq<Vec<Leg>>, edit: bool, s: int, i: int) -> Option<u64> {
    if edit && segments[s]@[i].distance.is_some() {
        Some(leg_start(segments, s, i) as u64)
    } else {
        None
    }
}

/// The unmeasured legs of segment number `s`, in order.
pub open spec fn segment_failures(s: int, legs: Seq<Leg>) -> Seq<GeometryError>
    decreases legs.len(),
{
    if legs.len() == 0 {
        Seq::empty()
    } else {
        let before = segment_failures(s, legs.drop_last());
        if legs.last().distance.is_none() {
            before.push(
                GeometryError {
                    segment: s as usize,
                    from: (legs.len() - 1) as usize,
                    to: legs.len() as usize,
                },
            )
        } else {
            before
        }
    }
}

/// The unmeasured legs of a track, in order.
pub open spec fn track_failures(segments: Seq<Vec<Leg>>) -> Seq<GeometryError>
    decreases segments.len(),
{
    if segments.len() == 0 {
        Seq::empty()
    } else {
        track_failures(segments.drop_last()) + segment_failures(
            segments.len() - 1,
            segments.last()@,
        )
    }
}

/// If the sums fit after every leg of a run, they do so on every shorter run.
pub proof fn lemma_walk_fits_prefix(start: Tally, legs: Seq<Leg>, k: int)
    requires
        0 <= k <= legs.len(),
        walk_fits(start, legs),
    ensures
        walk_fits(start, legs.take(k)),
    decreases legs.len(),
{
    if k == legs.len() {
        assert(legs.take(k) =~= legs);
    } else {
        lemma_walk_fits_prefix(start, legs.drop_last(), k);
        assert(legs.drop_last().take(k) =~= legs.take(k));
    }
}

/// If the sums fit all along a track, they do so along its first segments.
pub proof fn lemma_track_fits_prefix(start: Tally, segments: Seq<Vec<Leg>>, k: int)
    requires
        0 <= k <= segments.len(),
        track_fits(start, segments),
    ensures
        track_fits(start, segments.take(k)),
    decreases segments.len(),
{
    if k == segments.len() {
        assert(segments.take(k) =~= segments);
    } else {
        lemma_track_fits_prefix(start, segments.drop_last(), k);
        assert(segments.drop_last().take(k) =~= segments.take(k));
    }
}

/// Sums that fit at the start fit after every leg of a track exactly when
/// they fit at its end.
pub proof fn lemma_track_fits_all_along(start: Tally, segments: Seq<Vec<Leg>>)
    requires
        fits(start),
    ensures
        track_fits(start, segments) == fits(walk_track(start, segments)),
    decreases segments.len(),
{
    if segments.len() > 0 {
        let before = walk_track(start, segments.drop_last());
        lemma_track_fits_all_along(start, segments.drop_last());
        lemma_walk_only_adds(before, segments.last()@);
        if fits(before) {
            lemma_fits_all_along(before, segments.last()@);
        }
    }
}

/// The figures after a run of legs are those after its last legs, taken
/// from the figures after its first `k`.
pub proof fn lemma_walk_split(start: Tally, legs: Seq<Leg>, k: int)
    requires
        0 <= k <= legs.len(),
    ensures
        walk(start, legs) == walk(walk(start, legs.take(k)), legs.skip(k)),
    decreases legs.len(),
{
    if k == legs.len() {
        assert(legs.take(k) =~= legs);
        assert(legs.skip(k) =~= Seq::<Leg>::empty());
    } else {
        lemma_walk_split(start, legs.drop_last(), k);
        assert(legs.drop_last().take(k) =~= legs.take(k));
        assert(legs.drop_last().skip(k) =~= legs.skip(k).drop_last());
        assert(legs.skip(k).last() == legs.last());
    }
}

/// No segment makes distance, ascent, descent or walking time smaller.
pub proof fn lemma_track_only_adds(start: Tally, segments: Seq<Vec<Leg>>)
    ensures
        walk_track(start, segments).distance >= start.distance,
        walk_track(start, segments).d_plus >= start.d_plus,
        walk_track(start, segments).d_minus >= start.d_minus,
        walk_track(start, segments).duration >= start.duration,
    decreases segments.len(),
{
    if segments.len() > 0 {
        lemma_track_only_adds(start, segments.drop_last());
        lemma_walk_only_adds(walk_track(start, segments.drop_last()), segments.last()@);
    }
}

/// The figures after a track are those after its last segments, taken from
/// the figures after its first `k`.
pub proof fn lemma_track_split(start: Tally, segments: Seq<Vec<Leg>>, k: int)
    requires
        0 <= k <= segments.len(),
    ensures
        walk_track(start, segments) == walk_track(
            walk_track(start, segments.take(k)),
            segments.skip(k),
        ),
    decreases segments.len(),
{
    if k == segments.len() {
        assert(segments.take(k) =~= segments);
        assert(segments.skip(k) =~= Seq::<Vec<Leg>>::empty());
    } else {
        lemma_track_split(start, segments.drop_last(), k);
        assert(segments.drop_last().take(k) =~= segments.take(k));
        assert(segments.drop_last().skip(k) =~= segments.skip(k).drop_last());
        assert(segments.skip(k).last() == segments.last());
    }
}

/// The times march forward: a leg that comes later in the track, in the
/// same segment or in a later one, does not begin before an earlier one.
pub proof fn lemma_times_march_forward(segments: Seq<Vec<Leg>>, s1: int, i1: int, s2: int, i2: int)
    requires
        0 <= s1 <= s2 < segments.len(),
        0 <= i1 <= segments[s1]@.len(),
        0 <= i2 <= segments[s2]@.len(),
        s1 == s2 ==> i1 <= i2,
    ensures
        leg_start(segments, s1, i1) <= leg_start(segments, s2, i2),
{
    let base1 = walk_track(empty_tally(), segments.take(s1));
    let base2 = walk_track(empty_tally(), segments.take(s2));
    if s1 == s2 {
        let run = segments[s2]@.take(i2);
        lemma_walk_split(base1, run, i1);
        assert(run.take(i1) =~= segments[s1]@.take(i1));
        lemma_walk_only_adds(walk(base1, run.take(i1)), run.skip(i1));
    } else {
        let whole = segments[s1]@;
        lemma_walk_split(base1, whole, i1);
        lemma_walk_only_adds(walk(base1, whole.take(i1)), whole.skip(i1));
        let upto = segments.take(s1 + 1);
        assert(upto.drop_last() =~= segments.take(s1));
        assert(upto.last() == segments[s1]);
        assert(walk_track(empty_tally(), upto) == walk(base1, whole));
        let before = segments.take(s2);
        lemma_track_split(empty_tally(), before, s1 + 1);
        assert(before.take(s1 + 1) =~= upto);
        lemma_track_only_adds(walk_track(empty_tally(), upto), before.skip(s1 + 1));
        lemma_walk_only_adds(base2, segments[s2]@.take(i2));
    }
}

/// A track in which no segment has two waypoints leaves the figures as they
/// were: from nothing, all of them stay zero and the range empty.
pub proof fn lemma_track_without_legs(start: Tally, segments: Seq<Vec<Leg>>)
    requires
        forall|s: int| 0 <= s < segments.len() ==> (#[trigger] segments[s])@.len() == 0,
    ensures
        walk_track(start, segments) == start,
        track_fits(start, segments),
        track_failures(segments) =~= Seq::<GeometryError>::empty(),
    decreases segments.len(),
{
    if segments.len() > 0 {
        lemma_track_without_legs(start, segments.drop_last());
        assert(segments.last()@.len() == 0);
    }
}

/// Whether `legs` are the legs of segment number `segment` with these
/// waypoint heights: leg `k` joins the waypoints `k` and `k + 1`, carries
/// their heights, the distance that `measure` gives for the two and the
/// walking time that `slope_speed` gives for the leg. A segment of fewer
/// than two waypoints has no legs.
pub open spec fn is_segment_legs<G: Fn(usize, usize, usize) -> Option<u64>, F: Fn(i64, u64) -> u64>(
    segment: usize,
    elevations: Seq<Option<i32>>,
    measure: G,
    slope_speed: F,
    legs: Seq<Leg>,
) -> bool {
    &&& legs.len() == if elevations.len() == 0 {
        0
    } else {
        elevations.len() - 1
    }
    &&& forall|k: int|
        0 <= k < legs.len() ==> {
            &&& (#[trigger] legs[k]).from_elevation == elevations[k]
            &&& legs[k].to_elevation == elevations[k + 1]
            &&& measure.ensures((segment, k as usize, (k + 1) as usize), legs[k].distance)
            &&& timed_by(legs[k], slope_speed)
        }
}

/// What the measure and the slope-speed law have to take: the measure
/// every pair of neighbouring waypoints, the law every climb over every
/// length above zero.
pub open spec fn can_ask<G: Fn(usize, usize, usize) -> Option<u64>, F: Fn(i64, u64) -> u64>(
    track: Seq<Vec<Option<i32>>>,
    measure: G,
    slope_speed: F,
) -> bool {
    &&& forall|s: usize, a: usize, b: usize|
        s < track.len() && a + 1 == b && b < track[s as int]@.len() ==> #[trigger] measure.requires(
            (s, a, b),
        )
    &&& forall|c: i64, d: u64| d > 0 ==> #[trigger] slope_speed.requires((c, d))
}

/// The legs of one segment of a track, measured and timed.
pub fn segment_legs<G: Fn(usize, usize, usize) -> Option<u64>, F: Fn(i64, u64) -> u64>(
    segment: usize,
    elevations: &Vec<Option<i32>>,
    measure: &G,
    slope_speed: &F,
) -> (legs: Vec<Leg>)
    requires
        forall|a: usize, b: usize|
            a + 1 == b && b < elevations@.len() ==> #[trigger] measure.requires((segment, a, b)),
        forall|c: i64, d: u64| d > 0 ==> #[trigger] slope_speed.requires((c, d)),
    ensures
        is_segment_legs(segment, elevations@, *measure, *slope_speed, legs@),
{
    let mut legs: Vec<Leg> = Vec::new();
    let mut i: usize = 1;
    while i < elevations.len()
        invariant
            1 <= i,
            i <= elevations@.len() || (elevations@.len() == 0 && i == 1),
            legs@.len() == i - 1,
            forall|a: usize, b: usize|
                a + 1 == b && b < elevations@.len() ==> #[trigger] measure.requires(
                    (segment, a, b),
                ),
            forall|c: i64, d: u64| d > 0 ==> #[trigger] slope_speed.requires((c, d)),
            forall|k: int|
                0 <= k < legs@.len() ==> {
                    &&& (#[trigger] legs@[k]).from_elevation == elevations@[k]
                    &&& legs@[k].to_elevation == elevations@[k + 1]
                    &&& measure.ensures((segment, k as usize, (k + 1) as usize), legs@[k].distance)
                    &&& timed_by(legs@[k], *slope_speed)
                },
        decreases elevations@.len() - i,
    {
        let distance = measure(segment, i - 1, i);
        let leg = Leg::timed(elevations[i - 1], elevations[i], distance, slope_speed);
        legs.push(leg);
        i += 1;
    }
    legs
}

/// Whether `report` is what the legs of a track come to: nothing exactly
/// where the distance, the ascent, the descent or the walking time of the
/// whole track outgrows its machine word, and else the figures of the
/// track, its unmeasured legs and, for every leg, the seconds walked before
/// it where times are asked for and the leg is measured.
pub open spec fn is_report(legs: Seq<Vec<Leg>>, edit_track_times: bool, report: Option<TrackReport>) -> bool {
    &&& report.is_some() == fits(walk_track(empty_tally(), legs))
    &&& report matches Some(r) ==> {
        &&& r.stats@ == walk_track(empty_tally(), legs)
        &&& r.failures@ == track_failures(legs)
        &&& r.starts@.len() == legs.len()
        &&& forall|s: int| 0 <= s < legs.len() ==> (#[trigger] r.starts@[s])@.len() == legs[s]@.len()
        &&& forall|s: int, i: int|
            0 <= s < legs.len() && 0 <= i < legs[s]@.len() ==> #[trigger] r.starts@[s]@[i]
                == start_mark(legs, edit_track_times, s, i)
    }
}

/// A track of which no segment has two waypoints comes to nothing: the
/// report is there, distance, ascent, descent and walking time are zero,
/// the altitude range is empty and no leg is listed as unmeasured.
pub proof fn lemma_single_points_come_to_nothing<
    G: Fn(usize, usize, usize) -> Option<u64>,
    F: Fn(i64, u64) -> u64,
>(
    track: Seq<Vec<Option<i32>>>,
    measure: G,
    slope_speed: F,
    edit_track_times: bool,
    legs: Seq<Vec<Leg>>,
    report: Option<TrackReport>,
)
    requires
        forall|s: int| 0 <= s < track.len() ==> (#[trigger] track[s])@.len() <= 1,
        legs.len() == track.len(),
        forall|s: int|
            0 <= s < track.len() ==> is_segment_legs(
                s as usize,
                track[s]@,
                measure,
                slope_speed,
                (#[trigger] legs[s])@,
            ),
        is_report(legs, edit_track_times, report),
    ensures
        report.is_some(),
        report.unwrap().stats@ == empty_tally(),
        report.unwrap().failures@.len() == 0,
{
    assert forall|s: int| 0 <= s < legs.len() implies (#[trigger] legs[s])@.len() == 0 by {
        assert(track[s]@.len() <= 1);
    }
    lemma_track_without_legs(empty_tally(), legs);
}

/// Reads a track: each segment is given by the heights of its waypoints in
/// millimetres, where known. Every pair of neighbouring waypoints is
/// measured by `measure`, which takes the segment's number and the places
/// of the two waypoints in it, and timed by `slope_speed`; the legs are then
/// folded into the figures of the track. The legs come back beside the
/// report.
pub fn read_gpx<G: Fn(usize, usize, usize) -> Option<u64>, F: Fn(i64, u64) -> u64>(
    track: &Vec<Vec<Option<i32>>>,
    measure: &G,
    slope_speed: &F,
    edit_track_times: bool,
) -> (reading: (Vec<Vec<Leg>>, Option<TrackReport>))
    requires
        can_ask(track@, *measure, *slope_speed),
    ensures
        reading.0@.len() == track@.len(),
        forall|s: int|
            0 <= s < track@.len() ==> is_segment_legs(
                s as usize,
                track@[s]@,
                *measure,
                *slope_speed,
                (#[trigger] reading.0@[s])@,
            ),
        is_report(reading.0@, edit_track_times, reading.1),
{
    let mut legs: Vec<Vec<Leg>> = Vec::new();
    let mut s: usize = 0;
    while s < track.len()
        invariant
            s <= track@.len(),
            can_ask(track@, *measure, *slope_speed),
            legs@.len() == s,
            forall|k: int|
                0 <= k < s ==> is_segment_legs(
                    k as usize,
                    track@[k]@,
                    *measure,
                    *slope_speed,
                    (#[trigger] legs@[k])@,
                ),
        decreases track@.len() - s,
    {
        let segment = segment_legs(s, &track[s], measure, slope_speed);
        legs.push(segment);
        s += 1;
    }
    let report = track_figures(&legs, edit_track_times);
    (legs, report)
}

/// Folds the legs of a track into its figures, segment by segment and leg by
/// leg. An unmeasured leg is listed and otherwise passed over. With
/// `edit_track_times` the earlier waypoint of each measured leg gets the
/// seconds walked so far.
pub fn track_figures(track: &Vec<Vec<Leg>>, edit_track_times: bool) -> (report: Option<TrackReport>)
    ensures
        is_report(track@, edit_track_times, report),
{
    let mut stats = PathStats::default();
    let mut failures: Vec<GeometryError> = Vec::new();
    let mut starts: Vec<Vec<Option<u64>>> = Vec::new();
    let mut s: usize = 0;
    while s < track.len()
        invariant
            s <= track@.len(),
            track_fits(empty_tally(), track@.take(s as int)),
            stats@ == walk_track(empty_tally(), track@.take(s as int)),
            failures@ == track_failures(track@.take(s as int)),
            starts@.len() == s,
            forall|k: int| 0 <= k < s ==> (#[trigger] starts@[k])@.len() == track@[k]@.len(),
            forall|k: int, i: int|
                0 <= k < s && 0 <= i < track@[k]@.len() ==> #[trigger] starts@[k]@[i]
                    == start_mark(track@, edit_track_times, k, i),
        decreases track@.len() - s,
    {
        let segment = &track[s];
        let ghost before = stats@;
        let mut row: Vec<Option<u64>> = Vec::new();
        let mut i: usize = 0;
        proof {
            assert(track@.take(s + 1).drop_last() =~= track@.take(s as int));
            assert(segment@.take(0) =~= Seq::<Leg>::empty());
        }
        while i < segment.len()
            invariant
                s < track@.len(),
                segment@ == track@[s as int]@,
                i <= segment@.len(),
                before == walk_track(empty_tally(), track@.take(s as int)),
                track@.take(s + 1).drop_last() == track@.take(s as int),
                walk_fits(before, segment@.take(i as int)),
                stats@ == walk(before, segment@.take(i as int)),
                failures@ == track_failures(track@.take(s as int)) + segment_failures(
                    s as int,
                    segment@.take(i as int),
                ),
                row@.len() == i,
                forall|j: int|
                    0 <= j < i ==> #[trigger] row@[j] == start_mark(
                        track@,
                        edit_track_times,
                        s as int,
                        j,
                    ),
            decreases segment@.len() - i,
        {
            let leg = &segment[i];
            proof {
                assert(segment@.take(i + 1).drop_last() =~= segment@.take(i as int));
            }
            if !stats.can_record(leg) {
                proof {
                    assert(!walk_fits(before, segment@.take(i + 1)));
                    if walk_fits(before, segment@) {
                        lemma_walk_fits_prefix(before, segment@, i + 1);
                    }
                    assert(!track_fits(empty_tally(), track@.take(s + 1)));
                    if track_fits(empty_tally(), track@) {
                        lemma_track_fits_prefix(empty_tally(), track@, s + 1);
                    }
                    lemma_track_fits_all_along(empty_tally(), track@);
                }
                return None;
            }
            if leg.distance.is_none() {
                failures.push(GeometryError { segment: s, from: i, to: i + 1 });
                row.push(None);
            } else if edit_track_times {
                row.push(Some(stats.duration));
            } else {
                row.push(None);
            }
            stats.record(leg);
            i += 1;
        }
        proof {
            assert(segment@.take(i as int) =~= segment@);
        }
        starts.push(row);
        s += 1;
    }
    proof {
        assert(track@.take(s as int) =~= track@);
        lemma_track_fits_all_along(empty_tally(), track@);
    }
    Some(TrackReport { stats, starts, failures })
}

} // verus!
