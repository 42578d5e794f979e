//! Spoke handling: reducing a radar's native spokes to a coarser output
//! resolution by element-wise maximum, and keeping one revolution's spokes by
//! index.
use vstd::prelude::*;

verus! {

/// Largest sample among spokes `start .. start + n` at bin `b`.
pub open spec fn group_max(spokes: Seq<Seq<u8>>, start: int, n: int, b: int) -> u8
    decreases n,
{
    if n <= 0 {
        0
    } else {
        let m = group_max(spokes, start, n - 1, b);
        let x = spokes[start + n - 1][b];
        if x > m { x } else { m }
    }
}

/// All spokes have `len` samples.
pub open spec fn uniform(spokes: Seq<Seq<u8>>, len: int) -> bool {
    forall|i: int| 0 <= i < spokes.len() ==> (#[trigger] spokes[i]).len() == len
}

/// The output spoke that native spoke `index` falls in.
pub fn output_spoke_index(index: u32, factor: u32) -> (r: u32)
    requires
        factor > 0,
    ensures
        r == index / factor,
{
    index / factor
}

/// Combines each run of `factor` consecutive spokes into one spoke holding,
/// per bin, the largest sample of the run, so that strong returns survive the
/// reduction.
pub fn decimate(spokes: &Vec<Vec<u8>>, factor: usize, len: usize) -> (out: Vec<Vec<u8>>)
    requires
        factor > 0,
        spokes@.len() as int % (factor as int) == 0,
        forall|i: int| 0 <= i < spokes@.len() ==> (#[trigger] spokes@[i])@.len() == len,
    ensures
        out@.len() == spokes@.len() as int / (factor as int),
        forall|k: int| 0 <= k < out@.len() ==> (#[trigger] out@[k])@.len() == len,
        forall|k: int, b: int| 0 <= k < out@.len() && 0 <= b < len ==> #[trigger] out@[k]@[b]
            == group_max(spokes@.map_values(|s: Vec<u8>| s@), k * factor, factor as int, b),
{
    let ghost sv = spokes@.map_values(|s: Vec<u8>| s@);
    let total = spokes.len();
    let groups = total / factor;
    let mut out: Vec<Vec<u8>> = Vec::new();
    let mut k: usize = 0;
    while k < groups
        invariant
            groups == spokes@.len() as int / (factor as int),
            total == spokes@.len(),
            factor > 0,
            spokes@.len() as int % (factor as int) == 0,
            forall|i: int| 0 <= i < spokes@.len() ==> (#[trigger] spokes@[i])@.len() == len,
            sv == spokes@.map_values(|s: Vec<u8>| s@),
            k <= groups,
            out@.len() == k,
            forall|q: int| 0 <= q < k ==> (#[trigger] out@[q])@.len() == len,
            forall|q: int, b: int| 0 <= q < k && 0 <= b < len ==> #[trigger] out@[q]@[b]
                == group_max(sv, q * factor, factor as int, b),
        decreases groups - k,
    {
        assert(k * factor + factor <= spokes@.len()) by (nonlinear_arith)
            requires
                k < groups,
                groups == spokes@.len() as int / (factor as int),
                factor > 0,
        ;
        assert(k * factor <= spokes@.len());
        let base = k * factor;
        let mut acc: Vec<u8> = Vec::new();
        let mut b: usize = 0;
        while b < len
            invariant
                acc@.len() == b,
                b <= len,
                base == k * factor,
                base + factor <= spokes@.len(),
                total == spokes@.len(),
                forall|i: int| 0 <= i < spokes@.len() ==> (#[trigger] spokes@[i])@.len() == len,
                sv == spokes@.map_values(|s: Vec<u8>| s@),
                forall|c: int| 0 <= c < b ==> acc@[c] == group_max(sv, base as int, factor as int, c),
            decreases len - b,
        {
            let mut m: u8 = 0;
            let mut j: usize = 0;
            while j < factor
                invariant
                    j <= factor,
                    b < len,
                    base + factor <= spokes@.len(),
                    total == spokes@.len(),
                    forall|i: int| 0 <= i < spokes@.len() ==> (#[trigger] spokes@[i])@.len() == len,
                    sv == spokes@.map_values(|s: Vec<u8>| s@),
                    m == group_max(sv, base as int, j as int, b as int),
                decreases factor - j,
            {
                let x = spokes[base + j][b];
                assert(sv[base + j] == spokes@[base + j]@);
                if x > m {
                    m = x;
                }
                j = j + 1;
            }
            acc.push(m);
            b = b + 1;
        }
        out.push(acc);
        k = k + 1;
    }
    out
}

/// The maximum of a run is at least every sample in it.
pub proof fn lemma_group_max_keeps_peaks(spokes: Seq<Seq<u8>>, start: int, n: int, b: int, j: int)
    requires
        0 <= j < n,
    ensures
        group_max(spokes, start, n, b) >= spokes[start + j][b],
    decreases n,
{
    if j < n - 1 {
        lemma_group_max_keeps_peaks(spokes, start, n - 1, b, j);
    }
}

/// One revolution of spokes, each stored at its spoke index.
pub struct SpokeStore {
    slots: Vec<Option<Vec<u8>>>,
}

impl SpokeStore {
    /// Spoke returns by index: the spoke last stored at each index.
    pub closed spec fn view(&self) -> Map<int, Seq<u8>> {
        Map::new(
            |i: int| 0 <= i < self.slots@.len() && self.slots@[i] is Some,
            |i: int| self.slots@[i]->Some_0@,
        )
    }

    pub closed spec fn capacity(&self) -> nat {
        self.slots@.len()
    }

    /// An empty store for `spokes_per_revolution` indices.
    pub fn new(spokes_per_revolution: usize) -> (s: SpokeStore)
        ensures
            s.capacity() == spokes_per_revolution,
            s.view() == Map::<int, Seq<u8>>::empty(),
    {
        let mut slots: Vec<Option<Vec<u8>>> = Vec::new();
        let mut i: usize = 0;
        while i < spokes_per_revolution
            invariant
                i <= spokes_per_revolution,
                slots@.len() == i,
                forall|j: int| 0 <= j < i ==> slots@[j] is None,
            decreases spokes_per_revolution - i,
        {
            slots.push(None);
            i = i + 1;
        }
        let s = SpokeStore { slots };
        assert(s.view() =~= Map::<int, Seq<u8>>::empty());
        s
    }

    /// Stores a spoke at its index, replacing one stored there earlier in the
    /// revolution. Returns `false` (and stores nothing) for an index outside
    /// the revolution.
    pub fn update_spoke(&mut self, index: usize, data: Vec<u8>) -> (ok: bool)
        ensures
            ok == (index < old(self).capacity()),
            final(self).capacity() == old(self).capacity(),
            ok ==> final(self).view() == old(self).view().insert(index as int, data@),
            !ok ==> final(self).view() == old(self).view(),
    {
        if index >= self.slots.len() {
            return false;
        }
        let ghost before = self.view();
        self.slots.set(index, Some(data));
        assert(self.view() =~= before.insert(index as int, data@));
        true
    }

    /// The spoke stored at `index`, if any.
    pub fn get(&self, index: usize) -> (r: Option<&Vec<u8>>)
        ensures
            match r {
                Some(v) => self.view().contains_key(index as int) && self.view()[index as int] == v@,
                None => !self.view().contains_key(index as int),
            },
    {
        if index >= self.slots.len() {
            return None;
        }
        match &self.slots[index] {
            Some(v) => Some(v),
            None => None,
        }
    }

    /// Number of indices holding a spoke.
    pub fn received(&self) -> (n: usize)
        ensures
            n == self.view().dom().len(),
            n <= self.capacity(),
    {
        let mut n: usize = 0;
        let mut i: usize = 0;
        let ghost mut seen: Set<int> = Set::empty();
        while i < self.slots.len()
            invariant
                i <= self.slots@.len(),
                n <= i,
                seen == self.view().dom().filter(|j: int| j < i),
                seen.finite(),
                seen.len() == n,
            decreases self.slots@.len() - i,
        {
            let ghost old_seen = seen;
            if self.slots[i].is_some() {
                n = n + 1;
                proof {
                    seen = seen.insert(i as int);
                }
            }
            i = i + 1;
            assert(seen =~= self.view().dom().filter(|j: int| j < i));
        }
        assert(seen =~= self.view().dom());
        n
    }

    /// Empties the store for the next revolution.
    pub fn clear(&mut self)
        ensures
            final(self).capacity() == old(self).capacity(),
            final(self).view() == Map::<int, Seq<u8>>::empty(),
    {
        let n = self.slots.len();
        *self = SpokeStore::new(n);
    }
}

/// Within a revolution each spoke index holds at most one spoke: storing a
/// spoke at an index that already holds one replaces it, so the number of
/// spokes held never exceeds the spokes per revolution.
pub proof fn lemma_one_spoke_per_index(before: Map<int, Seq<u8>>, index: int, a: Seq<u8>, b: Seq<u8>)
    ensures
        before.insert(index, a).insert(index, b) == before.insert(index, b),
        before.insert(index, a).insert(index, b)[index] == b,
{
    assert(before.insert(index, a).insert(index, b) =~= before.insert(index, b));
}

/// Reduces a stream of native spokes to output spokes of `factor` native
/// spokes each (per-bin maximum), emitting every output index at most once
/// per revolution. A spoke index below the previous one starts a new
/// revolution.
pub struct SpokeReducer {
    factor: usize,
    native: usize,
    len: usize,
    acc: Vec<u8>,
    group: usize,
    have: bool,
    emitted: Vec<bool>,
    last_index: usize,
}

impl SpokeReducer {
    pub closed spec fn wf(&self) -> bool {
        &&& self.factor > 0
        &&& self.native % self.factor == 0
        &&& self.emitted@.len() == self.native / self.factor
        &&& self.have ==> self.acc@.len() == self.len
    }

    /// Output indices already emitted in this revolution.
    pub closed spec fn emitted_spec(&self) -> Seq<bool> {
        self.emitted@
    }

    pub closed spec fn last_index_spec(&self) -> usize {
        self.last_index
    }

    pub closed spec fn shape(&self) -> (usize, usize, usize) {
        (self.factor, self.native, self.len)
    }

    /// A reducer for `native` spokes of `len` bins, `factor` to one.
    pub fn new(native: usize, factor: usize, len: usize) -> (r: SpokeReducer)
        requires
            factor > 0,
            native % factor == 0,
        ensures
            r.wf(),
            r.shape() == (factor, native, len),
            r.emitted_spec().len() == native / factor,
            forall|g: int| 0 <= g < r.emitted_spec().len() ==> !#[trigger] r.emitted_spec()[g],
            r.last_index_spec() == 0,
    {
        let outputs = native / factor;
        let mut emitted: Vec<bool> = Vec::new();
        let mut i: usize = 0;
        while i < outputs
            invariant
                i <= outputs,
                emitted@.len() == i,
                forall|g: int| 0 <= g < i ==> !#[trigger] emitted@[g],
            decreases outputs - i,
        {
            emitted.push(false);
            i = i + 1;
        }
        SpokeReducer { factor, native, len, acc: Vec::new(), group: 0, have: false, emitted, last_index: 0 }
    }

    /// Takes one native spoke. Returns the output spoke (its index and
    /// samples) when the spoke completes a group whose output was not yet
    /// emitted in this revolution. A spoke with an index outside the
    /// revolution or the wrong length is dropped.
    pub fn push(&mut self, index: usize, data: &[u8]) -> (r: Option<(usize, Vec<u8>)>)
        requires
            old(self).wf(),
        ensures
            final(self).wf(),
            final(self).shape() == old(self).shape(),
            ({
                let (factor, native, len) = old(self).shape();
                let valid = index < native && data@.len() == len;
                let wrapped = valid && index < old(self).last_index_spec();
                let before = |g: int| if wrapped { false } else { old(self).emitted_spec()[g] };
                &&& !valid ==> r is None && final(self).emitted_spec() == old(self).emitted_spec()
                &&& valid ==> final(self).last_index_spec() == index
                &&& valid ==> forall|g: int| 0 <= g < final(self).emitted_spec().len() ==>
                    #[trigger] final(self).emitted_spec()[g] == (before(g) || (r is Some && g == r->Some_0.0))
                &&& r is Some ==> {
                    &&& r->Some_0.0 == index / factor
                    &&& !before(r->Some_0.0 as int)
                    &&& r->Some_0.1@.len() == len
                    &&& forall|b: int| 0 <= b < len ==> (#[trigger] r->Some_0.1@[b]) >= data@[b]
                }
            }),
    {
        if index >= self.native || data.len() != self.len {
            return None;
        }
        if index < self.last_index {
            let mut i: usize = 0;
            while i < self.emitted.len()
                invariant
                    i <= self.emitted@.len(),
                    self.emitted@.len() == old(self).emitted@.len(),
                    self.factor == old(self).factor && self.native == old(self).native && self.len == old(self).len,
                    self.have == old(self).have && self.acc == old(self).acc,
                    self.last_index == old(self).last_index,
                    forall|g: int| 0 <= g < i ==> !#[trigger] self.emitted@[g],
                decreases self.emitted@.len() - i,
            {
                self.emitted.set(i, false);
                i = i + 1;
            }
            self.have = false;
        }
        let ghost before = self.emitted@;
        self.last_index = index;
        let g = index / self.factor;
        assert(g < self.emitted@.len()) by (nonlinear_arith)
            requires
                index < self.native,
                self.factor > 0,
                self.native % self.factor == 0,
                self.emitted@.len() == self.native / self.factor,
                g == index / self.factor,
        ;
        if !self.have || self.group != g {
            let mut fresh: Vec<u8> = Vec::new();
            let mut b: usize = 0;
            while b < data.len()
                invariant
                    b <= data@.len(),
                    fresh@ == data@.subrange(0, b as int),
                decreases data@.len() - b,
            {
                fresh.push(data[b]);
                b = b + 1;
                assert(fresh@ =~= data@.subrange(0, b as int));
            }
            assert(fresh@ =~= data@);
            self.acc = fresh;
            self.group = g;
            self.have = true;
        } else {
            let mut b: usize = 0;
            while b < data.len()
                invariant
                    b <= data@.len(),
                    self.acc@.len() == data@.len(),
                    self.factor == old(self).factor && self.native == old(self).native && self.len == old(self).len,
                    self.emitted@ == before,
                    self.last_index == index,
                    self.have,
                    self.group == g,
                    forall|c: int| 0 <= c < b ==> self.acc@[c] >= data@[c],
                decreases data@.len() - b,
            {
                if data[b] > self.acc[b] {
                    self.acc.set(b, data[b]);
                }
                b = b + 1;
            }
        }
        if index % self.factor == self.factor - 1 && !self.emitted[g] {
            self.emitted.set(g, true);
            self.have = false;
            let mut out: Vec<u8> = Vec::new();
            let mut b: usize = 0;
            while b < self.acc.len()
                invariant
                    b <= self.acc@.len(),
                    out@ == self.acc@.subrange(0, b as int),
                decreases self.acc@.len() - b,
            {
                out.push(self.acc[b]);
                b = b + 1;
                assert(out@ =~= self.acc@.subrange(0, b as int));
            }
            assert(out@ =~= self.acc@);
            self.acc = Vec::new();
            return Some((g, out));
        }
        None
    }
}

} // verus!
