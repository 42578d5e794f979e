//! Target trails: for each tracked target, its recent positions, bounded both
//! by a number of points and by an age; whichever bound is hit first drops the
//! oldest points.
use vstd::prelude::*;

verus! {

/// One trail position. Bearing in tenths of a degree, distance in meters.
#[derive(Debug, Clone, Copy, PartialEq, Eq, Structural)]
pub struct TrailPoint {
    pub timestamp: u64,
    pub bearing: u32,
    pub distance: u32,
}

/// Trail bounds: at most `max_points` points, none older than `max_age_ms`
/// before the newest.
#[derive(Debug, Clone, Copy, PartialEq, Eq, Structural)]
pub struct TrailSettings {
    pub max_points: usize,
    pub max_age_ms: u64,
}

/// The trail of one target.
#[derive(Debug, Clone)]
pub struct TrailData {
    pub target_id: u32,
    pub points: Vec<TrailPoint>,
}

/// Whether a non-empty trail is within the bounds: not more than
/// `max_points` points, and its oldest point at most `max_age_ms` older than
/// its newest.
pub open spec fn within_bounds(points: Seq<TrailPoint>, s: TrailSettings) -> bool {
    &&& points.len() <= s.max_points
    &&& points[0].timestamp + s.max_age_ms >= points.last().timestamp
}

/// Number of oldest points to drop from `points` (trying from position `k`)
/// so that what is left is within the bounds.
pub open spec fn drop_count(points: Seq<TrailPoint>, s: TrailSettings, k: int) -> int
    decreases points.len() - k,
{
    if k >= points.len() {
        k
    } else if points.len() - k <= s.max_points && points[k].timestamp + s.max_age_ms >= points.last().timestamp {
        k
    } else {
        drop_count(points, s, k + 1)
    }
}

/// The trail left after trimming `p`.
pub open spec fn trimmed(p: Seq<TrailPoint>, s: TrailSettings) -> Seq<TrailPoint> {
    p.subrange(drop_count(p, s, 0), p.len() as int)
}

/// Position of the first trail of `id` from position `k` on.
pub open spec fn trail_index_from(trails: Seq<TrailData>, id: u32, k: int) -> Option<int>
    decreases trails.len() - k,
{
    if k < 0 || k >= trails.len() {
        None
    } else if trails[k].target_id == id {
        Some(k)
    } else {
        trail_index_from(trails, id, k + 1)
    }
}

/// Position of the first trail of `id`.
pub open spec fn trail_index(trails: Seq<TrailData>, id: u32) -> Option<int> {
    trail_index_from(trails, id, 0)
}

/// Trails of every tracked target of one radar.
pub struct TrailStore {
    settings: TrailSettings,
    trails: Vec<TrailData>,
}

impl TrailStore {
    pub closed spec fn trails_spec(&self) -> Seq<TrailData> {
        self.trails@
    }

    pub closed spec fn settings_spec(&self) -> TrailSettings {
        self.settings
    }

    /// An empty store with the given bounds.
    pub fn new(settings: TrailSettings) -> (t: TrailStore)
        ensures
            t.settings_spec() == settings,
            t.trails_spec().len() == 0,
    {
        TrailStore { settings, trails: Vec::new() }
    }

    /// The bounds in force.
    pub fn settings(&self) -> (s: TrailSettings)
        ensures
            s == self.settings_spec(),
    {
        self.settings
    }

    /// Appends a point to a target's trail (creating it after the others),
    /// then drops the oldest points until the trail is within the bounds.
    /// Every other trail is unchanged.
    pub fn add_point(&mut self, target_id: u32, point: TrailPoint)
        ensures
            final(self).settings_spec() == old(self).settings_spec(),
            match trail_index(old(self).trails_spec(), target_id) {
                Some(i) => {
                    &&& final(self).trails_spec().len() == old(self).trails_spec().len()
                    &&& final(self).trails_spec()[i].target_id == target_id
                    &&& final(self).trails_spec()[i].points@ == trimmed(old(self).trails_spec()[i].points@.push(point), old(self).settings_spec())
                    &&& forall|j: int| 0 <= j < old(self).trails_spec().len() && j != i ==> #[trigger] final(self).trails_spec()[j] == old(self).trails_spec()[j]
                },
                None => {
                    let n = old(self).trails_spec().len() as int;
                    &&& final(self).trails_spec().len() == n + 1
                    &&& final(self).trails_spec()[n].target_id == target_id
                    &&& final(self).trails_spec()[n].points@ == trimmed(seq![point], old(self).settings_spec())
                    &&& forall|j: int| 0 <= j < n ==> #[trigger] final(self).trails_spec()[j] == old(self).trails_spec()[j]
                },
            },
    {
        let mut i: usize = 0;
        while i < self.trails.len() && self.trails[i].target_id != target_id
            invariant
                i <= self.trails@.len(),
                self.trails@ == old(self).trails@,
                self.settings == old(self).settings,
                trail_index_from(self.trails@, target_id, 0) == trail_index_from(self.trails@, target_id, i as int),
            decreases self.trails@.len() - i,
        {
            i = i + 1;
        }
        let ghost n = self.trails@.len();
        proof {
            if i < n {
                assert(trail_index(old(self).trails@, target_id) == Some(i as int));
            } else {
                assert(trail_index(old(self).trails@, target_id) is None);
            }
        }
        if i == self.trails.len() {
            self.trails.push(TrailData { target_id, points: Vec::new() });
        }
        let mut pts: Vec<TrailPoint> = Vec::new();
        let mut j: usize = 0;
        while j < self.trails[i].points.len()
            invariant
                i < self.trails@.len(),
                self.settings == old(self).settings,
                self.trails@.len() == (if i == n { n as int + 1 } else { n as int }),
                forall|k: int| 0 <= k < n ==> #[trigger] self.trails@[k] == old(self).trails@[k],
                j <= self.trails@[i as int].points@.len(),
                pts@ == self.trails@[i as int].points@.subrange(0, j as int),
            decreases self.trails@[i as int].points@.len() - j,
        {
            pts.push(self.trails[i].points[j]);
            j = j + 1;
            assert(pts@ =~= self.trails@[i as int].points@.subrange(0, j as int));
        }
        assert(pts@ =~= self.trails@[i as int].points@);
        assert(i < n ==> pts@ == old(self).trails@[i as int].points@);
        assert(i == n ==> pts@ == Seq::<TrailPoint>::empty());
        pts.push(point);
        let trimmed_points = Self::trim(pts, self.settings);
        self.trails.set(i, TrailData { target_id, points: trimmed_points });
        proof {
            if i == n {
                assert(seq![point] =~= Seq::<TrailPoint>::empty().push(point));
            }
        }
    }

    /// Drops the oldest points until the trail is within the bounds: the
    /// longest run of newest points that fits.
    fn trim(points: Vec<TrailPoint>, s: TrailSettings) -> (r: Vec<TrailPoint>)
        requires
            points@.len() > 0,
        ensures
            r@ == points@.subrange(drop_count(points@, s, 0), points@.len() as int),
            r@.len() == 0 || (within_bounds(r@, s) && r@.last() == points@.last()),
    {
        let n = points.len();
        let newest = points[n - 1].timestamp;
        let mut k: usize = 0;
        while k < n && !(n - k <= s.max_points && points[k].timestamp as u128 + s.max_age_ms as u128 >= newest as u128)
            invariant
                k <= n,
                n == points@.len(),
                n > 0,
                newest == points@.last().timestamp,
                drop_count(points@, s, 0) == drop_count(points@, s, k as int),
            decreases n - k,
        {
            k = k + 1;
        }
        let mut r: Vec<TrailPoint> = Vec::new();
        let mut j = k;
        while j < n
            invariant
                k <= j <= n,
                n == points@.len(),
                r@ == points@.subrange(k as int, j as int),
            decreases n - j,
        {
            r.push(points[j]);
            j = j + 1;
            assert(r@ =~= points@.subrange(k as int, j as int));
        }
        r
    }

    /// The trail of a target, if it has one.
    pub fn get_trail(&self, target_id: u32) -> (r: Option<&TrailData>)
        ensures
            match r {
                Some(t) => t.target_id == target_id && self.trails_spec().contains(*t),
                None => forall|i: int| 0 <= i < self.trails_spec().len() ==> (#[trigger] self.trails_spec()[i]).target_id != target_id,
            },
    {
        let mut i: usize = 0;
        while i < self.trails.len()
            invariant
                i <= self.trails@.len(),
                forall|k: int| 0 <= k < i ==> (#[trigger] self.trails@[k]).target_id != target_id,
            decreases self.trails@.len() - i,
        {
            if self.trails[i].target_id == target_id {
                return Some(&self.trails[i]);
            }
            i = i + 1;
        }
        None
    }

    /// Removes a target's trail.
    pub fn clear_trail(&mut self, target_id: u32)
        ensures
            final(self).settings_spec() == old(self).settings_spec(),
            forall|i: int| 0 <= i < final(self).trails_spec().len() ==> (#[trigger] final(self).trails_spec()[i]).target_id != target_id,
    {
        let mut i: usize = 0;
        while i < self.trails.len()
            invariant
                i <= self.trails@.len(),
                self.settings == old(self).settings,
                forall|k: int| 0 <= k < i ==> (#[trigger] self.trails@[k]).target_id != target_id,
            decreases self.trails@.len() - i,
        {
            if self.trails[i].target_id == target_id {
                let ghost before = self.trails@;
                self.trails.remove(i);
                assert forall|k: int| 0 <= k < i implies (#[trigger] self.trails@[k]).target_id != target_id by {
                    assert(self.trails@[k] == before[k]);
                }
            } else {
                i = i + 1;
            }
        }
    }

    /// Removes every trail.
    pub fn clear_all(&mut self)
        ensures
            final(self).settings_spec() == old(self).settings_spec(),
            final(self).trails_spec().len() == 0,
    {
        self.trails = Vec::new();
    }

    /// Replaces the bounds; existing trails are trimmed on their next point.
    pub fn set_settings(&mut self, settings: TrailSettings)
        ensures
            final(self).settings_spec() == settings,
            final(self).trails_spec() == old(self).trails_spec(),
    {
        self.settings = settings;
    }
}

} // verus!
