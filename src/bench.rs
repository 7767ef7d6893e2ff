//! Bookkeeping of the latency and bandwidth runs: how many rounds warm up,
//! when progress is reported, what each measured round contributes, and the
//! bandwidth that the totals give.
use crate::statistician::{fits, Statistician};
use vstd::prelude::*;

verus! {

/// Byte value of every byte of the payload.
pub const FILL_BYTE: u8 = 0x0f;

/// Nanoseconds in a second.
pub const NANOS_PER_SEC: u128 = 1000000000;

/// Rounds run, and discarded, before the measured ones: a tenth of them.
pub fn warmup_rounds(rounds: u32) -> (r: u32)
    ensures
        r == rounds / 10,
{
    rounds / 10
}

/// The tenths completed that measured round `i` of `rounds` announces, if it
/// announces any: every tenth of the rounds, starting with round 0. A run of
/// fewer than ten rounds announces nothing.
pub fn progress_tenths(i: u32, rounds: u32) -> (r: Option<u32>)
    ensures
        rounds / 10 > 0 && i % (rounds / 10) == 0 ==> r == Some(i / (rounds / 10)),
        !(rounds / 10 > 0 && i % (rounds / 10) == 0) ==> r is None,
{
    let step = rounds / 10;
    if step > 0 && i % step == 0 {
        Some(i / step)
    } else {
        None
    }
}

/// The payload of a round: `bytes` bytes, each `FILL_BYTE`.
pub fn payload(bytes: usize) -> (r: Vec<u8>)
    ensures
        r@ == Seq::new(bytes as nat, |_i: int| FILL_BYTE),
{
    let r = vec![FILL_BYTE; bytes];
    assert(r@ =~= Seq::new(bytes as nat, |_i: int| FILL_BYTE));
    r
}

/// Whether the bytes read back are exactly the bytes written.
pub fn read_back_matches(written: &Vec<u8>, read: &Vec<u8>) -> (r: bool)
    ensures
        r == (written@ == read@),
{
    if written.len() != read.len() {
        return false;
    }
    let mut i: usize = 0;
    while i < written.len()
        invariant
            written@.len() == read@.len(),
            i <= written@.len(),
            forall|j: int| 0 <= j < i ==> written@[j] == read@[j],
        decreases written@.len() - i,
    {
        if written[i] != read[i] {
            return false;
        }
        i = i + 1;
    }
    assert(written@ =~= read@);
    true
}

/// Durations, in nanoseconds, of the phases of one latency round.
#[derive(Clone, Copy, Debug, PartialEq, Eq)]
pub struct PhaseTimes {
    pub create: u64,
    pub open: u64,
    pub write: u64,
    pub read: u64,
    pub remove: u64,
}

/// One accumulator per phase of the latency run.
pub struct LatencyStats {
    pub create: Statistician,
    pub open: Statistician,
    pub write: Statistician,
    pub read: Statistician,
    pub remove: Statistician,
}

impl LatencyStats {
    pub open spec fn wf(&self) -> bool {
        &&& self.create.wf()
        &&& self.open.wf()
        &&& self.write.wf()
        &&& self.read.wf()
        &&& self.remove.wf()
    }

    /// Whether `record(t)` keeps every accumulator within its integer fields.
    pub open spec fn can_record_spec(&self, t: PhaseTimes) -> bool {
        &&& fits(self.create@.push(t.create))
        &&& fits(self.open@.push(t.open))
        &&& fits(self.write@.push(t.write))
        &&& fits(self.read@.push(t.read))
        &&& fits(self.remove@.push(t.remove))
    }

    /// Accumulators with no observations.
    pub fn new() -> (r: LatencyStats)
        ensures
            r.wf(),
            r.create@.len() == 0,
            r.open@.len() == 0,
            r.write@.len() == 0,
            r.read@.len() == 0,
            r.remove@.len() == 0,
    {
        LatencyStats {
            create: Statistician::new(),
            open: Statistician::new(),
            write: Statistician::new(),
            read: Statistician::new(),
            remove: Statistician::new(),
        }
    }

    pub fn can_record(&self, t: PhaseTimes) -> (r: bool)
        requires
            self.wf(),
        ensures
            r == self.can_record_spec(t),
    {
        self.create.can_update(t.create) && self.open.can_update(t.open) && self.write.can_update(
            t.write,
        ) && self.read.can_update(t.read) && self.remove.can_update(t.remove)
    }

    /// Feeds each phase's duration to that phase's accumulator.
    pub fn record(&mut self, t: PhaseTimes)
        requires
            old(self).wf(),
            old(self).can_record_spec(t),
        ensures
            final(self).wf(),
            final(self).create@ == old(self).create@.push(t.create),
            final(self).open@ == old(self).open@.push(t.open),
            final(self).write@ == old(self).write@.push(t.write),
            final(self).read@ == old(self).read@.push(t.read),
            final(self).remove@ == old(self).remove@.push(t.remove),
    {
        self.create.update(t.create);
        self.open.update(t.open);
        self.write.update(t.write);
        self.read.update(t.read);
        self.remove.update(t.remove);
    }
}

/// Running totals of the bandwidth run.
pub struct BandwidthTotals {
    /// Bytes that the measured rounds move in each direction.
    pub total_bytes: u128,
    /// Nanoseconds spent writing, over the rounds recorded.
    pub write_ns: u128,
    /// Nanoseconds spent reading, over the rounds recorded.
    pub read_ns: u128,
    /// Rounds recorded.
    pub rounds_done: u32,
}

impl BandwidthTotals {
    /// Each recorded duration fits a `u64`, which keeps the totals in range.
    pub open spec fn wf(&self) -> bool {
        &&& self.write_ns <= self.rounds_done * u64::MAX
        &&& self.read_ns <= self.rounds_done * u64::MAX
    }

    /// Totals of a run of `rounds` rounds of `bytes` bytes, none recorded yet.
    pub fn new(rounds: u32, bytes: u64) -> (r: BandwidthTotals)
        ensures
            r.wf(),
            r.total_bytes == rounds * bytes,
            r.write_ns == 0,
            r.read_ns == 0,
            r.rounds_done == 0,
    {
        proof {
            assert(rounds * bytes <= u32::MAX * u64::MAX) by (nonlinear_arith)
                requires rounds <= u32::MAX, bytes <= u64::MAX;
        }
        BandwidthTotals {
            total_bytes: rounds as u128 * bytes as u128,
            write_ns: 0,
            read_ns: 0,
            rounds_done: 0,
        }
    }

    /// Adds the write and read durations of one round.
    pub fn add_round(&mut self, write_ns: u64, read_ns: u64)
        requires
            old(self).wf(),
            old(self).rounds_done < u32::MAX,
        ensures
            final(self).wf(),
            final(self).total_bytes == old(self).total_bytes,
            final(self).write_ns == old(self).write_ns + write_ns,
            final(self).read_ns == old(self).read_ns + read_ns,
            final(self).rounds_done == old(self).rounds_done + 1,
    {
        proof {
            let d = self.rounds_done as int;
            assert((d + 1) * u64::MAX == d * u64::MAX + u64::MAX) by (nonlinear_arith);
            assert((d + 1) * u64::MAX <= u32::MAX * u64::MAX) by (nonlinear_arith)
                requires d + 1 <= u32::MAX;
        }
        self.write_ns = self.write_ns + write_ns as u128;
        self.read_ns = self.read_ns + read_ns as u128;
        self.rounds_done = self.rounds_done + 1;
    }
}

/// Approximate bandwidth in MB/s: `total_bytes / 1024 * 10⁹ / total_ns`,
/// in integer arithmetic from left to right. `None` where no time was spent
/// or the product leaves `u128`.
pub fn bandwidth_mb_per_s(total_bytes: u128, total_ns: u128) -> (r: Option<u128>)
    ensures
        total_ns == 0 || (total_bytes / 1024) * NANOS_PER_SEC > u128::MAX ==> r is None,
        total_ns > 0 && (total_bytes / 1024) * NANOS_PER_SEC <= u128::MAX ==> r == Some(
            ((total_bytes / 1024) * NANOS_PER_SEC / (total_ns as int)) as u128,
        ),
{
    if total_ns == 0 {
        return None;
    }
    match (total_bytes / 1024).checked_mul(NANOS_PER_SEC) {
        None => None,
        Some(p) => Some(p / total_ns),
    }
}

} // verus!
