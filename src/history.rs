//! ARPA history: per spoke index, one byte per bin whose bits say whether the
//! bin is a target now (bit 0), was one in the previous scan (bit 1, the
//! backup), and carries a Doppler approaching (bit 2) or receding (bit 3)
//! return.
use vstd::prelude::*;
use crate::doppler::{matches_pixel_spec, DopplerState};

verus! {

pub open spec fn bit_of(b: bool) -> int {
    if b { 1 } else { 0 }
}

/// The history byte with the given flags.
pub open spec fn pixel_bits(target: bool, backup: bool, approaching: bool, receding: bool) -> u8 {
    (bit_of(target) + 2 * bit_of(backup) + 4 * bit_of(approaching) + 8 * bit_of(receding)) as u8
}

pub open spec fn is_target_bit(p: u8) -> bool {
    p % 2 == 1
}

pub open spec fn is_backup_bit(p: u8) -> bool {
    (p / 2) % 2 == 1
}

pub open spec fn is_approaching_bit(p: u8) -> bool {
    (p / 4) % 2 == 1
}

pub open spec fn is_receding_bit(p: u8) -> bool {
    (p / 8) % 2 == 1
}

/// The history byte of a bin: target when the sample reaches `threshold`,
/// backup when the bin was a target in the previous scan, and the Doppler
/// bits when the sample is the radar's approaching or receding value.
pub open spec fn new_pixel(sample: u8, previous: u8, threshold: u8, approaching_value: u8, receding_value: u8) -> u8 {
    pixel_bits(sample >= threshold, is_target_bit(previous), sample == approaching_value, sample == receding_value)
}

fn pixel_of(sample: u8, previous: u8, threshold: u8, approaching_value: u8, receding_value: u8) -> (p: u8)
    ensures
        p == new_pixel(sample, previous, threshold, approaching_value, receding_value),
{
    let mut p: u8 = 0;
    if sample >= threshold {
        p = p + 1;
    }
    if previous % 2 == 1 {
        p = p + 2;
    }
    if sample == approaching_value {
        p = p + 4;
    }
    if sample == receding_value {
        p = p + 8;
    }
    p
}

/// The flags of a history byte read back as written.
pub proof fn lemma_pixel_bits_round_trip(target: bool, backup: bool, approaching: bool, receding: bool)
    ensures
        is_target_bit(pixel_bits(target, backup, approaching, receding)) == target,
        is_backup_bit(pixel_bits(target, backup, approaching, receding)) == backup,
        is_approaching_bit(pixel_bits(target, backup, approaching, receding)) == approaching,
        is_receding_bit(pixel_bits(target, backup, approaching, receding)) == receding,
{
}

/// Whether a history byte belongs to a target searched in state `s`.
pub fn pixel_matches(s: DopplerState, p: u8) -> (r: bool)
    ensures
        r == matches_pixel_spec(s, is_target_bit(p), is_backup_bit(p), is_approaching_bit(p), is_receding_bit(p)),
{
    s.matches_pixel(p % 2 == 1, (p / 2) % 2 == 1, (p / 4) % 2 == 1, (p / 8) % 2 == 1)
}

/// History bytes of every spoke of a revolution, with the time each spoke
/// was last written.
pub struct HistoryBuffer {
    spoke_len: usize,
    pixels: Vec<Vec<u8>>,
    times: Vec<u64>,
}

impl HistoryBuffer {
    pub closed spec fn wf(&self) -> bool {
        &&& self.pixels@.len() == self.times@.len()
        &&& forall|i: int| 0 <= i < self.pixels@.len() ==> (#[trigger] self.pixels@[i])@.len() == self.spoke_len
    }

    /// History bytes by spoke index.
    pub closed spec fn view(&self) -> Seq<Seq<u8>> {
        self.pixels@.map_values(|v: Vec<u8>| v@)
    }

    pub closed spec fn times_spec(&self) -> Seq<u64> {
        self.times@
    }

    pub closed spec fn spoke_len_spec(&self) -> nat {
        self.spoke_len as nat
    }

    /// Empty history (all bytes 0) for `spokes` spokes of `spoke_len` bins.
    pub fn new(spokes: usize, spoke_len: usize) -> (h: HistoryBuffer)
        ensures
            h.wf(),
            h.view().len() == spokes,
            h.spoke_len_spec() == spoke_len,
            forall|i: int, b: int| 0 <= i < spokes && 0 <= b < spoke_len ==> #[trigger] h.view()[i][b] == 0,
    {
        let mut pixels: Vec<Vec<u8>> = Vec::new();
        let mut times: Vec<u64> = Vec::new();
        let mut i: usize = 0;
        while i < spokes
            invariant
                i <= spokes,
                pixels@.len() == i,
                times@.len() == i,
                forall|k: int| 0 <= k < i ==> (#[trigger] pixels@[k])@.len() == spoke_len,
                forall|k: int, b: int| 0 <= k < i && 0 <= b < spoke_len ==> #[trigger] pixels@[k]@[b] == 0,
            decreases spokes - i,
        {
            let mut row: Vec<u8> = Vec::new();
            let mut b: usize = 0;
            while b < spoke_len
                invariant
                    b <= spoke_len,
                    row@.len() == b,
                    forall|c: int| 0 <= c < b ==> row@[c] == 0,
                decreases spoke_len - b,
            {
                row.push(0);
                b = b + 1;
            }
            pixels.push(row);
            times.push(0);
            i = i + 1;
        }
        HistoryBuffer { spoke_len, pixels, times }
    }

    /// Writes the spoke at `index` from its samples. Fails (and changes
    /// nothing) for an index outside the revolution or a sample count other
    /// than the spoke length.
    pub fn update_spoke(
        &mut self,
        index: usize,
        samples: &[u8],
        time: u64,
        threshold: u8,
        approaching_value: u8,
        receding_value: u8,
    ) -> (ok: bool)
        requires
            old(self).wf(),
        ensures
            final(self).wf(),
            ok == (index < old(self).view().len() && samples@.len() == old(self).spoke_len_spec()),
            final(self).spoke_len_spec() == old(self).spoke_len_spec(),
            final(self).view().len() == old(self).view().len(),
            !ok ==> final(self).view() == old(self).view() && final(self).times_spec() == old(self).times_spec(),
            ok ==> final(self).times_spec() == old(self).times_spec().update(index as int, time),
            ok ==> forall|i: int| 0 <= i < final(self).view().len() && i != index ==> #[trigger] final(self).view()[i] == old(self).view()[i],
            ok ==> final(self).view()[index as int].len() == samples@.len(),
            ok ==> forall|b: int| 0 <= b < samples@.len() ==> #[trigger] final(self).view()[index as int][b]
                == new_pixel(samples@[b], old(self).view()[index as int][b], threshold, approaching_value, receding_value),
    {
        if index >= self.pixels.len() || samples.len() != self.spoke_len {
            return false;
        }
        let ghost before = self.view();
        let mut row: Vec<u8> = Vec::new();
        let mut b: usize = 0;
        while b < samples.len()
            invariant
                self.wf(),
                self.view() == before,
                index < self.pixels@.len(),
                samples@.len() == self.spoke_len,
                b <= samples@.len(),
                row@.len() == b,
                forall|c: int| 0 <= c < b ==> row@[c]
                    == new_pixel(samples@[c], before[index as int][c], threshold, approaching_value, receding_value),
            decreases samples@.len() - b,
        {
            assert(before[index as int] == self.pixels@[index as int]@);
            let p = pixel_of(samples[b], self.pixels[index][b], threshold, approaching_value, receding_value);
            row.push(p);
            b = b + 1;
        }
        self.pixels.set(index, row);
        self.times.set(index, time);
        assert forall|i: int| 0 <= i < self.view().len() && i != index implies #[trigger] self.view()[i] == before[i] by {
        }
        true
    }

    /// The history byte at `bin` of spoke `index` (0 outside the buffer).
    pub fn pixel(&self, index: usize, bin: usize) -> (p: u8)
        requires
            self.wf(),
        ensures
            p == if index < self.view().len() && bin < self.spoke_len_spec() { self.view()[index as int][bin as int] } else { 0 },
    {
        if index < self.pixels.len() && bin < self.spoke_len {
            self.pixels[index][bin]
        } else {
            0
        }
    }
}

} // verus!
