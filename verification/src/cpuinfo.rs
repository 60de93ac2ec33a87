//! Thread and physical-core counts from `/proc/cpuinfo`.

use vstd::prelude::*;

use crate::text::{
    colon_split, colon_split_range, line_ranges, lines, parse_i32, parse_i32_range,
    parse_unsigned, parse_unsigned_range, pieces, range_equals, ranges_within, to_chars,
};

verus! {

/// What a scan of `/proc/cpuinfo` has gathered after some of its lines.
pub struct CpuInfoScan {
    /// `processor` lines seen.
    pub threads: nat,
    /// The `physical id` of the current processor block.
    pub physical_id: Option<i32>,
    /// The `core id` of the current processor block.
    pub core_id: Option<i32>,
    /// The (physical id, core id) pairs of the blocks already closed.
    pub cores: Set<(i32, i32)>,
    /// The largest `cpu cores` value seen.
    pub max_cpu_cores: nat,
}

pub open spec fn i32_of(v: Option<int>) -> Option<i32> {
    match v {
        Some(x) => Some(x as i32),
        None => None,
    }
}

/// The pairs once the current block is closed: its pair joins them when
/// both of its ids are known.
pub open spec fn closed_cores(st: CpuInfoScan) -> Set<(i32, i32)> {
    match (st.physical_id, st.core_id) {
        (Some(p), Some(c)) => st.cores.insert((p, c)),
        _ => st.cores,
    }
}

/// One line of `/proc/cpuinfo`: a `key: value` line with one of four keys
/// changes the scan; any other line leaves it as it is.
pub open spec fn cpuinfo_step(st: CpuInfoScan, line: Seq<char>) -> CpuInfoScan {
    match colon_split(line) {
        None => st,
        Some((k, v)) => if k == "processor"@ {
            CpuInfoScan {
                threads: st.threads + 1,
                physical_id: None,
                core_id: None,
                cores: closed_cores(st),
                max_cpu_cores: st.max_cpu_cores,
            }
        } else if k == "physical id"@ {
            CpuInfoScan { physical_id: i32_of(parse_i32(v)), ..st }
        } else if k == "core id"@ {
            CpuInfoScan { core_id: i32_of(parse_i32(v)), ..st }
        } else if k == "cpu cores"@ {
            match parse_unsigned(v, usize::MAX as nat) {
                Some(c) => if c > st.max_cpu_cores {
                    CpuInfoScan { max_cpu_cores: c, ..st }
                } else {
                    st
                },
                None => st,
            }
        } else {
            st
        },
    }
}

pub open spec fn empty_scan() -> CpuInfoScan {
    CpuInfoScan {
        threads: 0,
        physical_id: None,
        core_id: None,
        cores: Set::empty(),
        max_cpu_cores: 0,
    }
}

/// The scan after all of `ls`, in order.
pub open spec fn cpuinfo_scan(ls: Seq<Seq<char>>) -> CpuInfoScan
    decreases ls.len(),
{
    if ls.len() == 0 {
        empty_scan()
    } else {
        cpuinfo_step(cpuinfo_scan(ls.drop_last()), ls.last())
    }
}

/// Number of `processor` entries.
pub open spec fn cpuinfo_threads(text: Seq<char>) -> nat {
    cpuinfo_scan(lines(text)).threads
}

/// Number of distinct (physical id, core id) pairs; where there is none,
/// the largest `cpu cores` value; 0 where that is missing too.
pub open spec fn cpuinfo_physical_cores(text: Seq<char>) -> nat {
    let st = cpuinfo_scan(lines(text));
    let pairs = closed_cores(st);
    if pairs.len() > 0 {
        pairs.len()
    } else {
        st.max_cpu_cores
    }
}

/// Counts read from `/proc/cpuinfo`; 0 stands for "not found".
#[derive(Clone, Copy, Debug, PartialEq, Eq, Structural)]
pub struct CpuCounts {
    pub threads: usize,
    pub physical_cores: usize,
}

/// Adds `p` to a list of distinct pairs unless it is there already.
fn insert_pair(keys: &mut Vec<(i32, i32)>, p: (i32, i32))
    requires
        old(keys)@.no_duplicates(),
    ensures
        final(keys)@.no_duplicates(),
        final(keys)@.to_set() == old(keys)@.to_set().insert(p),
{
    let mut i: usize = 0;
    while i < keys.len()
        invariant
            i <= keys.len(),
            keys@ == old(keys)@,
            keys@.no_duplicates(),
            forall|j: int| 0 <= j < i ==> keys@[j] != p,
        decreases keys.len() - i,
    {
        let (x, y) = keys[i];
        if x == p.0 && y == p.1 {
            assert(keys@.to_set().insert(p) =~= keys@.to_set());
            return;
        }
        i = i + 1;
    }
    let ghost before = keys@;
    keys.push(p);
    proof {
        before.lemma_push_to_set_commute(p);
        assert forall|x: int, y: int|
            0 <= x < keys@.len() && 0 <= y < keys@.len() && x != y implies keys@[x]
            != keys@[y] by {
            if x < before.len() && y < before.len() {
                assert(keys@[x] == before[x]);
                assert(keys@[y] == before[y]);
            }
        }
    }
}

/// The executable state of the scan.
struct ScanState {
    threads: usize,
    physical_id: Option<i32>,
    core_id: Option<i32>,
    cores: Vec<(i32, i32)>,
    max_cpu_cores: usize,
}

impl ScanState {
    spec fn matches(&self, st: CpuInfoScan) -> bool {
        &&& self.threads == st.threads
        &&& self.physical_id == st.physical_id
        &&& self.core_id == st.core_id
        &&& self.cores@.no_duplicates()
        &&& self.cores@.to_set() == st.cores
        &&& self.max_cpu_cores == st.max_cpu_cores
    }
}

/// Closes the current block into the list of pairs.
fn close_block(s: &mut ScanState)
    requires
        old(s).cores@.no_duplicates(),
    ensures
        final(s).cores@.no_duplicates(),
        final(s).cores@.to_set() == closed_cores(
            CpuInfoScan {
                threads: 0,
                physical_id: old(s).physical_id,
                core_id: old(s).core_id,
                cores: old(s).cores@.to_set(),
                max_cpu_cores: 0,
            },
        ),
        final(s).threads == old(s).threads,
        final(s).physical_id == old(s).physical_id,
        final(s).core_id == old(s).core_id,
        final(s).max_cpu_cores == old(s).max_cpu_cores,
{
    if let (Some(p), Some(c)) = (s.physical_id, s.core_id) {
        insert_pair(&mut s.cores, (p, c));
    }
}

/// Applies one line, `cs[a..b]`, to the scan.
fn scan_line(s: &mut ScanState, cs: &Vec<char>, a: usize, b: usize, Ghost(st): Ghost<CpuInfoScan>)
    requires
        a <= b <= cs.len(),
        old(s).matches(st),
        old(s).threads < usize::MAX,
    ensures
        final(s).matches(cpuinfo_step(st, cs@.subrange(a as int, b as int))),
        final(s).threads <= old(s).threads + 1,
{
    match colon_split_range(cs, a, b) {
        None => {},
        Some(((ks, ke), (vs, ve))) => {
            if range_equals(cs, ks, ke, "processor") {
                s.threads = s.threads + 1;
                close_block(s);
                s.physical_id = None;
                s.core_id = None;
            } else if range_equals(cs, ks, ke, "physical id") {
                s.physical_id = parse_i32_range(cs, vs, ve);
            } else if range_equals(cs, ks, ke, "core id") {
                s.core_id = parse_i32_range(cs, vs, ve);
            } else if range_equals(cs, ks, ke, "cpu cores") {
                if let Some(c) = parse_unsigned_range(cs, vs, ve, usize::MAX as u64) {
                    if c as usize > s.max_cpu_cores {
                        s.max_cpu_cores = c as usize;
                    }
                }
            }
        },
    }
}

/// Counts the processor entries and the distinct physical cores in the
/// text of `/proc/cpuinfo`.
pub fn summarize_cpuinfo(text: &str) -> (r: CpuCounts)
    ensures
        r.threads == cpuinfo_threads(text@),
        r.physical_cores == cpuinfo_physical_cores(text@),
{
    let cs = to_chars(text);
    let ls = line_ranges(&cs);
    let ghost lines_all = lines(cs@);
    let mut s = ScanState {
        threads: 0,
        physical_id: None,
        core_id: None,
        cores: Vec::new(),
        max_cpu_cores: 0,
    };
    assert(s.cores@.to_set() =~= Set::<(i32, i32)>::empty());
    let mut k: usize = 0;
    while k < ls.len()
        invariant
            k <= ls.len(),
            ranges_within(ls@, 0, cs.len() as int),
            lines_all == pieces(cs@, ls@),
            s.threads <= k,
            s.matches(cpuinfo_scan(lines_all.take(k as int))),
        decreases ls.len() - k,
    {
        let (a, b) = ls[k];
        assert(lines_all[k as int] == cs@.subrange(a as int, b as int));
        assert(lines_all.take(k + 1).drop_last() =~= lines_all.take(k as int));
        assert(lines_all.take(k + 1).last() == lines_all[k as int]);
        scan_line(&mut s, &cs, a, b, Ghost(cpuinfo_scan(lines_all.take(k as int))));
        k = k + 1;
    }
    assert(lines_all.take(ls.len() as int) =~= lines_all);
    close_block(&mut s);
    proof {
        s.cores@.unique_seq_to_set();
    }
    let physical_cores = if s.cores.len() > 0 {
        s.cores.len()
    } else {
        s.max_cpu_cores
    };
    CpuCounts { threads: s.threads, physical_cores }
}

/// The counts that are reported: where no thread was found, the number of
/// online processors (8 where that is 0 too); where no core was found, the
/// thread count. Returns (cores, threads).
pub fn resolve_cpu_counts(found: &CpuCounts, online_processors: usize) -> (r: (usize, usize))
    ensures
        r.1 == (if found.threads == 0 {
            if online_processors == 0 {
                8
            } else {
                online_processors
            }
        } else {
            found.threads
        }),
        r.0 == (if found.physical_cores == 0 {
            r.1
        } else {
            found.physical_cores
        }),
        r.0 >= 1,
        r.1 >= 1,
{
    let threads = if found.threads == 0 {
        if online_processors == 0 {
            8
        } else {
            online_processors
        }
    } else {
        found.threads
    };
    let cores = if found.physical_cores == 0 {
        threads
    } else {
        found.physical_cores
    };
    (cores, threads)
}

} // verus!

verus! {

/// A `key: value` line whose trimmed key is `key`.
pub open spec fn has_key(line: Seq<char>, key: Seq<char>) -> bool {
    colon_split(line) matches Some((k, _)) && k == key
}

/// A line that opens a processor block.
pub open spec fn is_processor_line(line: Seq<char>) -> bool {
    has_key(line, "processor"@)
}

/// A line that sets the physical id or the core id of a block.
pub open spec fn is_id_line(line: Seq<char>) -> bool {
    has_key(line, "physical id"@) || has_key(line, "core id"@)
}

/// Number of processor lines among `ls`.
pub open spec fn processor_count(ls: Seq<Seq<char>>) -> nat
    decreases ls.len(),
{
    if ls.len() == 0 {
        0
    } else {
        processor_count(ls.drop_last()) + if is_processor_line(ls.last()) {
            1nat
        } else {
            0nat
        }
    }
}

/// Every id line comes after some processor line.
pub open spec fn ids_inside_blocks(ls: Seq<Seq<char>>) -> bool {
    forall|k: int| 0 <= k < ls.len() && is_id_line(#[trigger] ls[k]) ==> processor_count(ls.take(k)) > 0
}

proof fn lemma_scan_within_threads(ls: Seq<Seq<char>>)
    requires
        ids_inside_blocks(ls),
    ensures
        ({
            let st = cpuinfo_scan(ls);
            &&& st.threads == processor_count(ls)
            &&& st.cores.finite()
            &&& st.threads == 0 ==> st.cores.len() == 0 && st.physical_id is None
                && st.core_id is None
            &&& st.threads > 0 ==> st.cores.len() + 1 <= st.threads
        }),
    decreases ls.len(),
{
    broadcast use vstd::set::group_set_axioms;

    if ls.len() > 0 {
        let prev = ls.drop_last();
        assert forall|k: int| 0 <= k < prev.len() && is_id_line(#[trigger] prev[k]) implies processor_count(
            prev.take(k),
        ) > 0 by {
            assert(prev[k] == ls[k]);
            assert(prev.take(k) =~= ls.take(k));
        }
        lemma_scan_within_threads(prev);
        reveal_strlit("processor");
        reveal_strlit("physical id");
        reveal_strlit("core id");
        assert("processor"@.len() == 9);
        assert("physical id"@.len() == 11);
        assert("core id"@.len() == 7);
        let st = cpuinfo_scan(prev);
        let line = ls.last();
        assert(ls.take(ls.len() - 1) =~= prev);
        if is_id_line(line) {
            assert(is_id_line(ls[ls.len() - 1]));
            assert(processor_count(prev) > 0);
        }
    }
}

/// Where every `physical id` and `core id` line lies inside a processor
/// block, there are at most as many distinct (physical id, core id) pairs
/// as processor entries; so where there is such a pair, the physical-core
/// count does not exceed the thread count.
pub proof fn lemma_cores_within_threads(text: Seq<char>)
    requires
        ids_inside_blocks(lines(text)),
    ensures
        closed_cores(cpuinfo_scan(lines(text))).len() <= cpuinfo_threads(text),
        closed_cores(cpuinfo_scan(lines(text))).len() > 0 ==> cpuinfo_physical_cores(text)
            == closed_cores(cpuinfo_scan(lines(text))).len() && cpuinfo_physical_cores(text)
            <= cpuinfo_threads(text),
{
    broadcast use vstd::set::group_set_axioms;

    lemma_scan_within_threads(lines(text));
}

} // verus!
