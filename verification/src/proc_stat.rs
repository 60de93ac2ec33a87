//! The aggregate CPU line of `/proc/stat` and the tick differences between
//! two samples of it.

use vstd::prelude::*;

use crate::text::{
    line_ranges, lines, parse_unsigned, parse_unsigned_range, pieces, range_equals, ranges_within,
    to_chars, token_ranges, tokens,
};

verus! {

/// Jiffies spent in each state, summed over all CPUs.
#[derive(Clone, Copy, Debug, PartialEq, Eq, Structural)]
pub struct CpuTicks {
    pub user: u64,
    pub nice: u64,
    pub system: u64,
    pub idle: u64,
    pub iowait: u64,
    pub irq: u64,
    pub softirq: u64,
    pub steal: u64,
}

/// Token `k` read as a `u64`.
pub open spec fn tick_field(t: Seq<Seq<char>>, k: int) -> u64 {
    parse_unsigned(t[k], u64::MAX as nat).unwrap() as u64
}

/// The tokens of a line that `parse_cpu_ticks` accepts: the label `cpu`
/// and eight numbers after it (more tokens may follow).
pub open spec fn is_cpu_line(t: Seq<Seq<char>>) -> bool {
    &&& t.len() >= 9
    &&& t[0] == "cpu"@
    &&& forall|k: int| 1 <= k < 9 ==> parse_unsigned(#[trigger] t[k], u64::MAX as nat) is Some
}

pub open spec fn cpu_ticks_of(t: Seq<Seq<char>>) -> CpuTicks {
    CpuTicks {
        user: tick_field(t, 1),
        nice: tick_field(t, 2),
        system: tick_field(t, 3),
        idle: tick_field(t, 4),
        iowait: tick_field(t, 5),
        irq: tick_field(t, 6),
        softirq: tick_field(t, 7),
        steal: tick_field(t, 8),
    }
}

/// The ticks that the first line of `/proc/stat` holds, if it is the
/// aggregate CPU line.
pub open spec fn stat_cpu_ticks(stat: Seq<char>) -> Option<CpuTicks> {
    let ls = lines(stat);
    if ls.len() > 0 && is_cpu_line(tokens(ls[0])) {
        Some(cpu_ticks_of(tokens(ls[0])))
    } else {
        None
    }
}

/// Reads the aggregate CPU ticks from the text of `/proc/stat`.
pub fn parse_cpu_ticks(stat: &str) -> (r: Option<CpuTicks>)
    ensures
        r == stat_cpu_ticks(stat@),
{
    let cs = to_chars(stat);
    let ls = line_ranges(&cs);
    if ls.len() == 0 {
        return None;
    }
    let (a, b) = ls[0];
    assert(lines(cs@)[0] == cs@.subrange(a as int, b as int));
    let ts = token_ranges(&cs, a, b);
    let ghost t = tokens(cs@.subrange(a as int, b as int));
    assert(t == pieces(cs@, ts@));
    if ts.len() < 9 {
        return None;
    }
    let (s0, e0) = ts[0];
    assert(t[0] == cs@.subrange(s0 as int, e0 as int));
    if !range_equals(&cs, s0, e0, "cpu") {
        return None;
    }
    let mut vals: Vec<u64> = Vec::new();
    let mut k: usize = 1;
    while k < 9
        invariant
            1 <= k <= 9,
            ts.len() >= 9,
            ranges_within(ts@, a as int, b as int),
            a <= b <= cs.len(),
            t == pieces(cs@, ts@),
            cs@ == stat@,
            lines(cs@).len() > 0,
            t == tokens(lines(cs@)[0]),
            vals.len() == k - 1,
            forall|j: int|
                1 <= j < k ==> parse_unsigned(#[trigger] t[j], u64::MAX as nat) == Some(
                    vals@[j - 1] as nat,
                ),
        decreases 9 - k,
    {
        let (s, e) = ts[k];
        assert(t[k as int] == cs@.subrange(s as int, e as int));
        match parse_unsigned_range(&cs, s, e, u64::MAX) {
            Some(v) => {
                vals.push(v);
            },
            None => {
                assert(!is_cpu_line(t));
                return None;
            },
        }
        k = k + 1;
    }
    assert(is_cpu_line(t));
    Some(
        CpuTicks {
            user: vals[0],
            nice: vals[1],
            system: vals[2],
            idle: vals[3],
            iowait: vals[4],
            irq: vals[5],
            softirq: vals[6],
            steal: vals[7],
        },
    )
}

impl CpuTicks {
    /// All ticks together.
    pub open spec fn total_spec(self) -> int {
        self.user + self.nice + self.system + self.idle + self.iowait + self.irq + self.softirq
            + self.steal
    }

    /// Ticks spent idle or waiting for I/O.
    pub open spec fn idle_spec(self) -> int {
        self.idle + self.iowait
    }

    /// The sum of all ticks, when it fits in a `u64`.
    pub fn total(&self) -> (r: Option<u64>)
        ensures
            r == (if self.total_spec() <= u64::MAX {
                Some(self.total_spec() as u64)
            } else {
                None
            }),
    {
        let mut sum: u128 = self.user as u128;
        sum = sum + self.nice as u128;
        sum = sum + self.system as u128;
        sum = sum + self.idle as u128;
        sum = sum + self.iowait as u128;
        sum = sum + self.irq as u128;
        sum = sum + self.softirq as u128;
        sum = sum + self.steal as u128;
        if sum <= u64::MAX as u128 {
            Some(sum as u64)
        } else {
            None
        }
    }
}

/// `a - b`, or 0 where `b` is larger.
pub open spec fn saturating_diff(a: int, b: int) -> int {
    if a >= b {
        a - b
    } else {
        0
    }
}

/// Where no counter went backwards between two samples, the idle ticks
/// that passed are at most all the ticks that passed, so the busy share
/// computed from `tick_deltas` lies between 0 and 1.
pub proof fn lemma_idle_within_total(t1: CpuTicks, t2: CpuTicks)
    requires
        t1.user <= t2.user,
        t1.nice <= t2.nice,
        t1.system <= t2.system,
        t1.idle <= t2.idle,
        t1.iowait <= t2.iowait,
        t1.irq <= t2.irq,
        t1.softirq <= t2.softirq,
        t1.steal <= t2.steal,
    ensures
        saturating_diff(t2.idle_spec(), t1.idle_spec()) <= saturating_diff(
            t2.total_spec(),
            t1.total_spec(),
        ),
{
}

/// Only the idle and iowait counters count as idle: the idle delta is the
/// growth of their sum, whatever the user, nice, system, irq, softirq and
/// steal counters do; and where the idle and iowait counters did not move,
/// the idle delta is 0 while the total delta is the growth of the others.
pub proof fn lemma_idle_counts_only_idle_and_iowait(t1: CpuTicks, t2: CpuTicks)
    ensures
        saturating_diff(t2.idle_spec(), t1.idle_spec()) == saturating_diff(
            t2.idle + t2.iowait,
            t1.idle + t1.iowait,
        ),
        t1.idle == t2.idle && t1.iowait == t2.iowait ==> saturating_diff(
            t2.idle_spec(),
            t1.idle_spec(),
        ) == 0,
        t1.idle == t2.idle && t1.iowait == t2.iowait ==> saturating_diff(
            t2.total_spec(),
            t1.total_spec(),
        ) == saturating_diff(
            t2.user + t2.nice + t2.system + t2.irq + t2.softirq + t2.steal,
            t1.user + t1.nice + t1.system + t1.irq + t1.softirq + t1.steal,
        ),
{
}

/// How far the counters moved between two samples.
#[derive(Clone, Copy, Debug, PartialEq, Eq, Structural)]
pub struct TickDeltas {
    pub total: u64,
    pub idle: u64,
}

/// The change of the total and of the idle ticks from `t1` to `t2`; a
/// counter that went backwards counts as no change.
pub fn tick_deltas(t1: &CpuTicks, t2: &CpuTicks) -> (r: TickDeltas)
    requires
        t1.total_spec() <= u64::MAX,
        t2.total_spec() <= u64::MAX,
    ensures
        r.total == saturating_diff(t2.total_spec(), t1.total_spec()),
        r.idle == saturating_diff(t2.idle_spec(), t1.idle_spec()),
        r.idle == saturating_diff(t2.idle + t2.iowait, t1.idle + t1.iowait),
{
    let total1 = t1.user + t1.nice + t1.system + t1.idle + t1.iowait + t1.irq + t1.softirq
        + t1.steal;
    let total2 = t2.user + t2.nice + t2.system + t2.idle + t2.iowait + t2.irq + t2.softirq
        + t2.steal;
    let idle1 = t1.idle + t1.iowait;
    let idle2 = t2.idle + t2.iowait;
    TickDeltas { total: total2.saturating_sub(total1), idle: idle2.saturating_sub(idle1) }
}

} // verus!
