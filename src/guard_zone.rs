//! Guard zones: arcs of bearing and distance that raise an alert when a
//! return of at least the zone's sensitivity appears inside them, at most
//! once per zone per revolution.
use vstd::prelude::*;

verus! {

/// An arc-shaped guard zone. Bearings are in tenths of a degree (0..3600);
/// an arc whose start exceeds its end wraps through north.
#[derive(Debug, Clone, Copy, PartialEq, Eq, Structural)]
pub struct GuardZone {
    pub id: u32,
    pub enabled: bool,
    pub start_bearing: u32,
    pub end_bearing: u32,
    pub inner_meters: u32,
    pub outer_meters: u32,
    pub sensitivity: u8,
}

pub open spec fn covers_bearing(z: GuardZone, bearing: u32) -> bool {
    if z.start_bearing <= z.end_bearing {
        z.start_bearing <= bearing <= z.end_bearing
    } else {
        bearing >= z.start_bearing || bearing <= z.end_bearing
    }
}

/// Distance in meters of bin `b` of a spoke of `len` bins covering `range` meters.
pub open spec fn bin_distance(b: int, range: u32, len: int) -> int {
    (b * range as int) / len
}

pub open spec fn hit_at(z: GuardZone, range: u32, samples: Seq<u8>, b: int) -> bool {
    &&& 0 <= b < samples.len()
    &&& z.inner_meters <= bin_distance(b, range, samples.len() as int) <= z.outer_meters
    &&& samples[b] >= z.sensitivity
}

/// Whether the spoke at `bearing` shows an intrusion into `z`.
pub open spec fn intrudes(z: GuardZone, bearing: u32, range: u32, samples: Seq<u8>) -> bool {
    z.enabled && covers_bearing(z, bearing) && exists|b: int| #[trigger] hit_at(z, range, samples, b)
}

/// Whether a spoke intrudes into a zone.
pub fn check_zone(z: &GuardZone, bearing: u32, range: u32, samples: &[u8]) -> (r: bool)
    requires
        samples@.len() <= 65535,
    ensures
        r == intrudes(*z, bearing, range, samples@),
{
    if !z.enabled {
        return false;
    }
    let covered = if z.start_bearing <= z.end_bearing {
        z.start_bearing <= bearing && bearing <= z.end_bearing
    } else {
        bearing >= z.start_bearing || bearing <= z.end_bearing
    };
    if !covered {
        return false;
    }
    let len = samples.len();
    let mut b: usize = 0;
    while b < len
        invariant
            len == samples@.len(),
            len <= 65535,
            b <= len,
            z.enabled,
            covers_bearing(*z, bearing),
            forall|c: int| 0 <= c < b ==> !hit_at(*z, range, samples@, c),
        decreases len - b,
    {
        assert(b as u64 * range as u64 <= 65535 * 4294967295) by (nonlinear_arith)
            requires
                b < 65535,
                range <= 4294967295,
        ;
        let d: u64 = (b as u64 * range as u64) / len as u64;
        if z.inner_meters as u64 <= d && d <= z.outer_meters as u64 && samples[b] >= z.sensitivity {
            assert(hit_at(*z, range, samples@, b as int));
            return true;
        }
        b = b + 1;
    }
    assert forall|c: int| !hit_at(*z, range, samples@, c) by {
        if 0 <= c < len {
        }
    }
    false
}

/// Zones (by position) that alert for this spoke: intruded and not yet
/// alerted in this revolution.
pub open spec fn new_alerts(zones: Seq<GuardZone>, alerted: Seq<bool>, bearing: u32, range: u32, samples: Seq<u8>, n: int) -> Seq<u32>
    decreases n,
{
    if n <= 0 {
        Seq::<u32>::empty()
    } else {
        let prev = new_alerts(zones, alerted, bearing, range, samples, n - 1);
        if !alerted[n - 1] && intrudes(zones[n - 1], bearing, range, samples) {
            prev.push(zones[n - 1].id)
        } else {
            prev
        }
    }
}

/// The guard zones of one radar, with each zone's alert state for the
/// current revolution.
pub struct GuardZoneProcessor {
    zones: Vec<GuardZone>,
    alerted: Vec<bool>,
}

impl GuardZoneProcessor {
    pub closed spec fn wf(&self) -> bool {
        &&& self.zones@.len() == self.alerted@.len()
        &&& forall|i: int, j: int| 0 <= i < j < self.zones@.len() ==> self.zones@[i].id != self.zones@[j].id
    }

    pub closed spec fn zones_spec(&self) -> Seq<GuardZone> {
        self.zones@
    }

    pub closed spec fn alerted_spec(&self) -> Seq<bool> {
        self.alerted@
    }

    /// No zones.
    pub fn new() -> (p: GuardZoneProcessor)
        ensures
            p.wf(),
            p.zones_spec().len() == 0,
    {
        GuardZoneProcessor { zones: Vec::new(), alerted: Vec::new() }
    }

    /// The configured zones.
    pub fn zones(&self) -> (r: &Vec<GuardZone>)
        ensures
            r@ == self.zones_spec(),
    {
        &self.zones
    }

    /// Adds a zone, or replaces the zone with the same id; its alert state
    /// starts clear.
    pub fn set_zone(&mut self, zone: GuardZone)
        requires
            old(self).wf(),
        ensures
            final(self).wf(),
            exists|i: int| 0 <= i < final(self).zones_spec().len() && #[trigger] final(self).zones_spec()[i] == zone
                && !final(self).alerted_spec()[i],
            forall|i: int| 0 <= i < old(self).zones_spec().len() && #[trigger] old(self).zones_spec()[i].id == zone.id
                ==> final(self).zones_spec() == old(self).zones_spec().update(i, zone)
                && final(self).alerted_spec() == old(self).alerted_spec().update(i, false),
            (forall|i: int| 0 <= i < old(self).zones_spec().len() ==> #[trigger] old(self).zones_spec()[i].id != zone.id)
                ==> final(self).zones_spec() == old(self).zones_spec().push(zone)
                && final(self).alerted_spec() == old(self).alerted_spec().push(false),
    {
        let mut i: usize = 0;
        while i < self.zones.len()
            invariant
                self.wf(),
                self == old(self),
                i <= self.zones@.len(),
                forall|j: int| 0 <= j < i ==> self.zones@[j].id != zone.id,
            decreases self.zones@.len() - i,
        {
            if self.zones[i].id == zone.id {
                let ghost oz = self.zones@;
                self.zones.set(i, zone);
                self.alerted.set(i, false);
                assert(self.zones_spec()[i as int] == zone && !self.alerted_spec()[i as int]);
                assert forall|a: int, b: int| 0 <= a < b < self.zones@.len() implies self.zones@[a].id != self.zones@[b].id by {
                    assert(a != i ==> self.zones@[a] == oz[a]);
                    assert(b != i ==> self.zones@[b] == oz[b]);
                }
                return;
            }
            i = i + 1;
        }
        self.zones.push(zone);
        self.alerted.push(false);
        let ghost last = self.zones@.len() - 1;
        assert(self.zones_spec()[last] == zone && !self.alerted_spec()[last]);
    }

    /// Removes the zone with this id; returns whether there was one.
    pub fn remove_zone(&mut self, id: u32) -> (found: bool)
        requires
            old(self).wf(),
        ensures
            final(self).wf(),
            found == exists|i: int| 0 <= i < old(self).zones_spec().len() && #[trigger] old(self).zones_spec()[i].id == id,
            forall|i: int| 0 <= i < final(self).zones_spec().len() ==> #[trigger] final(self).zones_spec()[i].id != id,
            forall|i: int| 0 <= i < old(self).zones_spec().len() && #[trigger] old(self).zones_spec()[i].id == id
                ==> final(self).zones_spec() == old(self).zones_spec().remove(i)
                && final(self).alerted_spec() == old(self).alerted_spec().remove(i),
            !found ==> final(self).zones_spec() == old(self).zones_spec() && final(self).alerted_spec() == old(self).alerted_spec(),
    {
        let mut i: usize = 0;
        while i < self.zones.len()
            invariant
                self.wf(),
                self == old(self),
                i <= self.zones@.len(),
                forall|j: int| 0 <= j < i ==> self.zones@[j].id != id,
            decreases self.zones@.len() - i,
        {
            if self.zones[i].id == id {
                assert(old(self).zones_spec()[i as int].id == id);
                let ghost before = self.zones@;
                let ghost before_alerted = self.alerted@;
                self.zones.remove(i);
                self.alerted.remove(i);
                assert forall|a: int, b: int| 0 <= a < b < self.zones@.len() implies self.zones@[a].id != self.zones@[b].id by {
                    let a0 = if a < i { a } else { a + 1 };
                    let b0 = if b < i { b } else { b + 1 };
                    assert(self.zones@[a] == before[a0]);
                    assert(self.zones@[b] == before[b0]);
                }
                assert forall|k: int| 0 <= k < self.zones@.len() implies #[trigger] self.zones@[k].id != id by {
                    let k0 = if k < i { k } else { k + 1 };
                    assert(self.zones@[k] == before[k0]);
                }
                assert forall|k: int| 0 <= k < before.len() && #[trigger] before[k].id == id implies k == i by {
                    if k != i {
                        assert(before[k].id != before[i as int].id);
                    }
                }
                assert(self.zones@ =~= before.remove(i as int));
                assert(self.alerted@ =~= before_alerted.remove(i as int));
                return true;
            }
            i = i + 1;
        }
        false
    }

    /// Checks one spoke against every zone. Returns the ids of the zones that
    /// alert now: intruded and not yet alerted this revolution; those zones
    /// are then marked alerted.
    pub fn check_spoke(&mut self, bearing: u32, range: u32, samples: &[u8]) -> (r: Vec<u32>)
        requires
            old(self).wf(),
            samples@.len() <= 65535,
        ensures
            final(self).wf(),
            final(self).zones_spec() == old(self).zones_spec(),
            r@ == new_alerts(old(self).zones_spec(), old(self).alerted_spec(), bearing, range, samples@, old(self).zones_spec().len() as int),
            forall|i: int| 0 <= i < final(self).alerted_spec().len() ==> #[trigger] final(self).alerted_spec()[i]
                == (old(self).alerted_spec()[i] || intrudes(old(self).zones_spec()[i], bearing, range, samples@)),
    {
        let mut out: Vec<u32> = Vec::new();
        let mut i: usize = 0;
        while i < self.zones.len()
            invariant
                self.wf(),
                samples@.len() <= 65535,
                self.zones@ == old(self).zones@,
                self.alerted@.len() == old(self).alerted@.len(),
                i <= self.zones@.len(),
                out@ == new_alerts(old(self).zones@, old(self).alerted@, bearing, range, samples@, i as int),
                forall|j: int| 0 <= j < i ==> #[trigger] self.alerted@[j]
                    == (old(self).alerted@[j] || intrudes(old(self).zones@[j], bearing, range, samples@)),
                forall|j: int| i <= j < self.alerted@.len() ==> #[trigger] self.alerted@[j] == old(self).alerted@[j],
            decreases self.zones@.len() - i,
        {
            let hit = check_zone(&self.zones[i], bearing, range, samples);
            if hit && !self.alerted[i] {
                out.push(self.zones[i].id);
                self.alerted.set(i, true);
            }
            i = i + 1;
        }
        out
    }

    /// Starts a new revolution: every zone may alert again.
    pub fn new_revolution(&mut self)
        requires
            old(self).wf(),
        ensures
            final(self).wf(),
            final(self).zones_spec() == old(self).zones_spec(),
            forall|i: int| 0 <= i < final(self).alerted_spec().len() ==> !#[trigger] final(self).alerted_spec()[i],
    {
        let mut i: usize = 0;
        while i < self.alerted.len()
            invariant
                self.wf(),
                self.zones@ == old(self).zones@,
                i <= self.alerted@.len(),
                forall|j: int| 0 <= j < i ==> !#[trigger] self.alerted@[j],
            decreases self.alerted@.len() - i,
        {
            self.alerted.set(i, false);
            i = i + 1;
        }
    }
}

/// A zone that has alerted in this revolution does not alert again before the
/// revolution ends.
pub proof fn lemma_alert_once(zones: Seq<GuardZone>, alerted: Seq<bool>, bearing: u32, range: u32, samples: Seq<u8>, n: int, i: int)
    requires
        0 <= i < n <= zones.len(),
        n <= alerted.len(),
        alerted[i],
        forall|a: int, b: int| 0 <= a < b < zones.len() ==> zones[a].id != zones[b].id,
    ensures
        !new_alerts(zones, alerted, bearing, range, samples, n).contains(zones[i].id),
    decreases n,
{
    let prev = new_alerts(zones, alerted, bearing, range, samples, n - 1);
    if i < n - 1 {
        lemma_alert_once(zones, alerted, bearing, range, samples, n - 1, i);
        if !alerted[n - 1] && intrudes(zones[n - 1], bearing, range, samples) {
            assert(zones[n - 1].id != zones[i].id);
            let q = prev.push(zones[n - 1].id);
            assert forall|k: int| 0 <= k < q.len() implies #[trigger] q[k] != zones[i].id by {
                if k < prev.len() {
                    assert(!prev.contains(zones[i].id));
                    assert(q[k] == prev[k]);
                }
            }
        }
    } else {
        lemma_ids_from(zones, alerted, bearing, range, samples, n - 1, i);
    }
}

proof fn lemma_ids_from(zones: Seq<GuardZone>, alerted: Seq<bool>, bearing: u32, range: u32, samples: Seq<u8>, n: int, i: int)
    requires
        0 <= n <= i < zones.len(),
        n <= alerted.len(),
        forall|a: int, b: int| 0 <= a < b < zones.len() ==> zones[a].id != zones[b].id,
    ensures
        !new_alerts(zones, alerted, bearing, range, samples, n).contains(zones[i].id),
    decreases n,
{
    if n > 0 {
        lemma_ids_from(zones, alerted, bearing, range, samples, n - 1, i);
        let prev = new_alerts(zones, alerted, bearing, range, samples, n - 1);
        assert(zones[n - 1].id != zones[i].id);
        let q = prev.push(zones[n - 1].id);
        assert forall|k: int| 0 <= k < q.len() implies #[trigger] q[k] != zones[i].id by {
            if k < prev.len() {
                assert(!prev.contains(zones[i].id));
                assert(q[k] == prev[k]);
            }
        }
    }
}

} // verus!
