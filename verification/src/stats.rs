//! The figures of a path and the way one leg changes them.

use vstd::prelude::*;

verus! {

/// Two neighbouring waypoints of a segment, as far as the figures need them.
#[derive(Clone, Copy, Debug, PartialEq, Eq)]
pub struct Leg {
    /// Height of the earlier waypoint in millimetres, where it is known.
    pub from_elevation: Option<i32>,
    /// Height of the later waypoint in millimetres, where it is known.
    pub to_elevation: Option<i32>,
    /// Ground distance between the two in millimetres; `None` where the
    /// geodesic solver gave up on this pair.
    pub distance: Option<u64>,
    /// Walking time in seconds that the slope-speed law gives for
    /// `elevation_delta()` over `distance`.
    pub duration: u64,
}

/// The figures of a path as mathematical numbers.
pub struct Tally {
    pub distance: nat,
    pub d_plus: nat,
    pub d_minus: nat,
    pub duration: nat,
    pub min_height: Option<int>,
    pub max_height: Option<int>,
    pub average_altitude: int,
}

/// The figures of a path: distance, ascent and descent in millimetres,
/// walking time in seconds, lowest and highest altitude seen (`None` while no
/// leg carried heights on both ends) and the smoothed altitude.
#[derive(Clone, Copy, Debug, PartialEq, Eq)]
pub struct PathStats {
    pub distance: u64,
    pub d_plus: u64,
    pub d_minus: u64,
    pub duration: u64,
    pub min_height: Option<i32>,
    pub max_height: Option<i32>,
    pub average_altitude: i32,
}

/// The figures of a path without legs.
pub open spec fn empty_tally() -> Tally {
    Tally {
        distance: 0,
        d_plus: 0,
        d_minus: 0,
        duration: 0,
        min_height: None,
        max_height: None,
        average_altitude: 0,
    }
}

/// Signed climb of a leg: later height minus earlier height, and zero where
/// either is unknown.
pub open spec fn climb(leg: Leg) -> int {
    match (leg.from_elevation, leg.to_elevation) {
        (Some(a), Some(b)) => b - a,
        _ => 0,
    }
}

/// Whether the heights of both ends of the leg are known.
pub open spec fn has_heights(leg: Leg) -> bool {
    leg.from_elevation.is_some() && leg.to_elevation.is_some()
}

/// The lowest altitude once `height` is seen too.
pub open spec fn lower(seen: Option<int>, height: int) -> Option<int> {
    match seen {
        Some(m) if m <= height => Some(m),
        _ => Some(height),
    }
}

/// The highest altitude once `height` is seen too.
pub open spec fn higher(seen: Option<int>, height: int) -> Option<int> {
    match seen {
        Some(m) if m >= height => Some(m),
        _ => Some(height),
    }
}

/// What the heights of a leg do to the figures: the climb goes to ascent or
/// to descent, the later height into the range and the smoothed altitude.
pub open spec fn with_heights(t: Tally, from: int, to: int) -> Tally {
    Tally {
        d_plus: if to > from { t.d_plus + (to - from) as nat } else { t.d_plus },
        d_minus: if to > from { t.d_minus } else { t.d_minus + (from - to) as nat },
        min_height: lower(t.min_height, to),
        max_height: higher(t.max_height, to),
        average_altitude: (t.average_altitude + to) / 2,
        ..t
    }
}

/// The figures after one more leg. An unmeasured leg changes nothing. A
/// measured one adds its distance and its time, and its heights too where
/// both are known.
pub open spec fn step(t: Tally, leg: Leg) -> Tally {
    match leg.distance {
        None => t,
        Some(d) => {
            let h = match (leg.from_elevation, leg.to_elevation) {
                (Some(a), Some(b)) => with_heights(t, a as int, b as int),
                _ => t,
            };
            Tally { distance: h.distance + d as nat, duration: h.duration + leg.duration as nat, ..h }
        },
    }
}

/// Whether the four sums fit a machine word.
pub open spec fn fits(t: Tally) -> bool {
    t.distance <= u64::MAX && t.d_plus <= u64::MAX && t.d_minus <= u64::MAX && t.duration
        <= u64::MAX
}

/// The figures after a run of legs, taken in order.
pub open spec fn walk(start: Tally, legs: Seq<Leg>) -> Tally
    decreases legs.len(),
{
    if legs.len() == 0 {
        start
    } else {
        step(walk(start, legs.drop_last()), legs.last())
    }
}

/// Whether the sums fit a machine word after every leg of the run.
pub open spec fn walk_fits(start: Tally, legs: Seq<Leg>) -> bool
    decreases legs.len(),
{
    legs.len() == 0 || (walk_fits(start, legs.drop_last()) && fits(walk(start, legs)))
}

/// Whether the walking time of `leg` is what `slope_speed` gives for its
/// signed climb over its distance. A leg of no length takes no time,
/// whatever the law, and neither does an unmeasured one.
pub open spec fn timed_by<F: Fn(i64, u64) -> u64>(leg: Leg, slope_speed: F) -> bool {
    match leg.distance {
        Some(d) => if d == 0 {
            leg.duration == 0
        } else {
            slope_speed.ensures((climb(leg) as i64, d), leg.duration)
        },
        None => leg.duration == 0,
    }
}

/// A leg of no length takes no time under any slope-speed law.
pub proof fn lemma_no_length_no_time<F: Fn(i64, u64) -> u64>(leg: Leg, slope_speed: F)
    requires
        leg.distance == Some(0u64),
        timed_by(leg, slope_speed),
    ensures
        leg.duration == 0,
{
}

/// An unmeasured leg leaves every figure as it was.
pub proof fn lemma_unmeasured_leg_counts_nothing(t: Tally, leg: Leg)
    requires
        leg.distance.is_none(),
    ensures
        step(t, leg) == t,
{
}

/// A measured leg that lacks a height on either end has a climb of zero and
/// leaves ascent, descent, altitude range and smoothed altitude as they
/// were, while its distance and its walking time are added.
pub proof fn lemma_leg_without_heights(t: Tally, leg: Leg)
    requires
        leg.distance.is_some(),
        !has_heights(leg),
    ensures
        climb(leg) == 0,
        step(t, leg).d_plus == t.d_plus,
        step(t, leg).d_minus == t.d_minus,
        step(t, leg).min_height == t.min_height,
        step(t, leg).max_height == t.max_height,
        step(t, leg).average_altitude == t.average_altitude,
        step(t, leg).distance == t.distance + leg.distance.unwrap(),
        step(t, leg).duration == t.duration + leg.duration,
{
}

/// The climb of a measured leg with both heights goes to ascent or to
/// descent, never to both: a rise is added to the ascent alone, a fall or a
/// level leg to the descent alone.
pub proof fn lemma_climb_goes_one_way(t: Tally, leg: Leg)
    requires
        leg.distance.is_some(),
        has_heights(leg),
    ensures
        climb(leg) > 0 ==> step(t, leg).d_plus == t.d_plus + climb(leg) && step(t, leg).d_minus
            == t.d_minus,
        climb(leg) <= 0 ==> step(t, leg).d_plus == t.d_plus && step(t, leg).d_minus == t.d_minus
            - climb(leg),
        step(t, leg).average_altitude == (t.average_altitude + leg.to_elevation.unwrap()) / 2,
{
}

/// No leg makes distance, ascent, descent or walking time smaller.
pub proof fn lemma_walk_only_adds(start: Tally, legs: Seq<Leg>)
    ensures
        walk(start, legs).distance >= start.distance,
        walk(start, legs).d_plus >= start.d_plus,
        walk(start, legs).d_minus >= start.d_minus,
        walk(start, legs).duration >= start.duration,
    decreases legs.len(),
{
    if legs.len() > 0 {
        lemma_walk_only_adds(start, legs.drop_last());
    }
}

/// Sums that fit at the start fit after every leg of a run exactly when
/// they fit at its end.
pub proof fn lemma_fits_all_along(start: Tally, legs: Seq<Leg>)
    requires
        fits(start),
    ensures
        walk_fits(start, legs) == fits(walk(start, legs)),
    decreases legs.len(),
{
    if legs.len() > 0 {
        lemma_fits_all_along(start, legs.drop_last());
        lemma_walk_only_adds(start, legs.drop_last());
    }
}

/// Half the sum of two heights, rounded down.
fn halved(a: i32, b: i32) -> (m: i32)
    ensures
        m == (a + b) / 2,
{
    let sum: i64 = a as i64 + b as i64;
    if sum >= 0 {
        let half: u64 = (sum as u64) / 2;
        half as i32
    } else {
        let half: u64 = ((-sum) as u64 + 1) / 2;
        (-(half as i64)) as i32
    }
}

impl Leg {
    /// A measured or unmeasured leg whose walking time is still to be set.
    pub fn new(
        from_elevation: Option<i32>,
        to_elevation: Option<i32>,
        distance: Option<u64>,
    ) -> (leg: Leg)
        ensures
            leg == (Leg { from_elevation, to_elevation, distance, duration: 0 }),
    {
        Leg { from_elevation, to_elevation, distance, duration: 0 }
    }

    /// A leg whose walking time `slope_speed` gives for its signed climb
    /// and its distance, both in millimetres. Where a height is unknown
    /// the climb handed over is zero. A leg of no length takes no time, and
    /// an unmeasured leg is not timed: for neither is the law asked.
    pub fn timed<F: Fn(i64, u64) -> u64>(
        from_elevation: Option<i32>,
        to_elevation: Option<i32>,
        distance: Option<u64>,
        slope_speed: &F,
    ) -> (leg: Leg)
        requires
            distance matches Some(d) ==> d > 0 ==> slope_speed.requires(
                (climb(Leg { from_elevation, to_elevation, distance, duration: 0 }) as i64, d),
            ),
        ensures
            leg.from_elevation == from_elevation,
            leg.to_elevation == to_elevation,
            leg.distance == distance,
            timed_by(leg, *slope_speed),
    {
        let mut leg = Leg { from_elevation, to_elevation, distance, duration: 0 };
        match distance {
            Some(d) => {
                if d > 0 {
                    leg.duration = slope_speed(leg.elevation_delta(), d);
                }
            },
            None => {},
        }
        leg
    }

    /// Signed climb in millimetres, the slope-speed law's first argument.
    pub fn elevation_delta(&self) -> (delta: i64)
        ensures
            delta == climb(*self),
    {
        match (self.from_elevation, self.to_elevation) {
            (Some(a), Some(b)) => b as i64 - a as i64,
            _ => 0,
        }
    }
}

impl View for PathStats {
    type V = Tally;

    open spec fn view(&self) -> Tally {
        Tally {
            distance: self.distance as nat,
            d_plus: self.d_plus as nat,
            d_minus: self.d_minus as nat,
            duration: self.duration as nat,
            min_height: match self.min_height {
                Some(m) => Some(m as int),
                None => None,
            },
            max_height: match self.max_height {
                Some(m) => Some(m as int),
                None => None,
            },
            average_altitude: self.average_altitude as int,
        }
    }
}

impl Default for PathStats {
    /// The figures of a path without legs.
    fn default() -> (stats: Self)
        ensures
            stats@ == empty_tally(),
    {
        PathStats {
            distance: 0,
            d_plus: 0,
            d_minus: 0,
            duration: 0,
            min_height: None,
            max_height: None,
            average_altitude: 0,
        }
    }
}

impl PathStats {
    /// Whether `record` may take this leg: the sums still fit afterwards.
    pub fn can_record(&self, leg: &Leg) -> (ok: bool)
        ensures
            ok == fits(step(self@, *leg)),
    {
        match leg.distance {
            None => true,
            Some(d) => {
                let climbs = match (leg.from_elevation, leg.to_elevation) {
                    (Some(a), Some(b)) => {
                        if b > a {
                            let up: u64 = (b as i64 - a as i64) as u64;
                            up <= u64::MAX - self.d_plus
                        } else {
                            let down: u64 = (a as i64 - b as i64) as u64;
                            down <= u64::MAX - self.d_minus
                        }
                    },
                    _ => true,
                };
                climbs && d <= u64::MAX - self.distance && leg.duration <= u64::MAX
                    - self.duration
            },
        }
    }

    /// Takes one more leg into the figures.
    pub fn record(&mut self, leg: &Leg)
        requires
            fits(step(old(self)@, *leg)),
        ensures
            final(self)@ == step(old(self)@, *leg),
    {
        match leg.distance {
            None => {},
            Some(d) => {
                match (leg.from_elevation, leg.to_elevation) {
                    (Some(a), Some(b)) => {
                        if b > a {
                            self.d_plus = self.d_plus + (b as i64 - a as i64) as u64;
                        } else {
                            self.d_minus = self.d_minus + (a as i64 - b as i64) as u64;
                        }
                        self.min_height = match self.min_height {
                            Some(m) if m <= b => Some(m),
                            _ => Some(b),
                        };
                        self.max_height = match self.max_height {
                            Some(m) if m >= b => Some(m),
                            _ => Some(b),
                        };
                        self.average_altitude = halved(self.average_altitude, b);
                    },
                    _ => {},
                }
                self.distance = self.distance + d;
                self.duration = self.duration + leg.duration;
            },
        }
    }
}

} // verus!
