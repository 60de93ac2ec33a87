//! Memory totals from `/proc/meminfo`.

use vstd::prelude::*;

use crate::proc_stat::saturating_diff;
use crate::text::{
    line_ranges, lines, parse_unsigned, parse_unsigned_range, pieces, range_equals, ranges_within,
    to_chars, token_ranges, tokens,
};

verus! {

/// Memory figures in MiB.
#[derive(Clone, Copy, Debug, PartialEq, Eq, Structural)]
pub struct RamInfo {
    pub total_mb: u64,
    pub used_mb: u64,
    pub available_mb: u64,
}

/// The value of a `/proc/meminfo` line: its second token read as a `u64`.
pub open spec fn meminfo_value(line: Seq<char>) -> Option<u64> {
    let t = tokens(line);
    if t.len() >= 2 {
        match parse_unsigned(t[1], u64::MAX as nat) {
            Some(v) => Some(v as u64),
            None => None,
        }
    } else {
        None
    }
}

/// What the last line whose first token is `key` holds as its value
/// (`None` where that value is missing or not a number, or where no line
/// has that key).
pub open spec fn meminfo_field(ls: Seq<Seq<char>>, key: Seq<char>) -> Option<u64>
    decreases ls.len(),
{
    if ls.len() == 0 {
        None
    } else if tokens(ls.last()).len() >= 1 && tokens(ls.last())[0] == key {
        meminfo_value(ls.last())
    } else {
        meminfo_field(ls.drop_last(), key)
    }
}

/// Total and available KiB: `MemAvailable`, else `MemFree`, else the
/// nominal 1024 MiB; all nominal (2048 and 1024 MiB) without `MemTotal`.
pub open spec fn ram_totals(meminfo: Option<Seq<char>>) -> (u64, u64) {
    match meminfo {
        None => (2048, 1024),
        Some(text) => {
            let ls = lines(text);
            match meminfo_field(ls, "MemTotal:"@) {
                None => (2048, 1024),
                Some(total) => (
                    total / 1024,
                    match meminfo_field(ls, "MemAvailable:"@) {
                        Some(avail) => avail / 1024,
                        None => match meminfo_field(ls, "MemFree:"@) {
                            Some(free) => free / 1024,
                            None => 1024,
                        },
                    },
                ),
            }
        },
    }
}

/// The memory figures that `get_ram_info` reports for this content of
/// `/proc/meminfo` (`None`: the file could not be read).
pub open spec fn ram_info_spec(meminfo: Option<Seq<char>>) -> RamInfo {
    let (total_mb, available_mb) = ram_totals(meminfo);
    RamInfo {
        total_mb,
        used_mb: saturating_diff(total_mb as int, available_mb as int) as u64,
        available_mb,
    }
}

/// The key of a line (its first token) equals `key`.
fn line_has_key(cs: &Vec<char>, ts: &Vec<(usize, usize)>, key: &str) -> (r: bool)
    requires
        ranges_within(ts@, 0, cs.len() as int),
    ensures
        r == (pieces(cs@, ts@).len() >= 1 && pieces(cs@, ts@)[0] == key@),
{
    if ts.len() == 0 {
        return false;
    }
    let (s, e) = ts[0];
    range_equals(cs, s, e, key)
}

/// The value of a line from its tokens.
fn line_value(cs: &Vec<char>, ts: &Vec<(usize, usize)>) -> (r: Option<u64>)
    requires
        ranges_within(ts@, 0, cs.len() as int),
    ensures
        r == (if pieces(cs@, ts@).len() >= 2 {
            match parse_unsigned(pieces(cs@, ts@)[1], u64::MAX as nat) {
                Some(v) => Some(v as u64),
                None => None,
            }
        } else {
            None
        }),
{
    if ts.len() < 2 {
        return None;
    }
    let (s, e) = ts[1];
    parse_unsigned_range(cs, s, e, u64::MAX)
}

/// The `MemTotal`, `MemAvailable` and `MemFree` values of a `/proc/meminfo`
/// text.
fn meminfo_fields(text: &str) -> (r: (Option<u64>, Option<u64>, Option<u64>))
    ensures
        r.0 == meminfo_field(lines(text@), "MemTotal:"@),
        r.1 == meminfo_field(lines(text@), "MemAvailable:"@),
        r.2 == meminfo_field(lines(text@), "MemFree:"@),
{
    proof {
        reveal_strlit("MemTotal:");
        reveal_strlit("MemAvailable:");
        reveal_strlit("MemFree:");
        assert("MemTotal:"@.len() == 9);
        assert("MemAvailable:"@.len() == 13);
        assert("MemFree:"@.len() == 8);
        assert("MemTotal:"@[3] != "MemFree:"@[3]);
    }
    let cs = to_chars(text);
    let ls = line_ranges(&cs);
    let ghost lines_all = lines(cs@);
    let mut total_kb: Option<u64> = None;
    let mut avail_kb: Option<u64> = None;
    let mut free_kb: Option<u64> = None;
    let mut k: usize = 0;
    while k < ls.len()
        invariant
            k <= ls.len(),
            ranges_within(ls@, 0, cs.len() as int),
            lines_all == pieces(cs@, ls@),
            "MemTotal:"@ != "MemAvailable:"@,
            "MemTotal:"@ != "MemFree:"@,
            "MemAvailable:"@ != "MemFree:"@,
            total_kb == meminfo_field(lines_all.take(k as int), "MemTotal:"@),
            avail_kb == meminfo_field(lines_all.take(k as int), "MemAvailable:"@),
            free_kb == meminfo_field(lines_all.take(k as int), "MemFree:"@),
        decreases ls.len() - k,
    {
        let (a, b) = ls[k];
        let ts = token_ranges(&cs, a, b);
        let ghost line = lines_all[k as int];
        assert(line == cs@.subrange(a as int, b as int));
        assert(lines_all.take(k + 1).drop_last() =~= lines_all.take(k as int));
        assert(lines_all.take(k + 1).last() == line);
        assert(pieces(cs@, ts@) == tokens(line));
        let value = line_value(&cs, &ts);
        if line_has_key(&cs, &ts, "MemTotal:") {
            total_kb = value;
        } else if line_has_key(&cs, &ts, "MemAvailable:") {
            avail_kb = value;
        } else if line_has_key(&cs, &ts, "MemFree:") {
            free_kb = value;
        }
        k = k + 1;
    }
    assert(lines_all.take(ls.len() as int) =~= lines_all);
    (total_kb, avail_kb, free_kb)
}

/// Memory totals in MiB from the text of `/proc/meminfo`, or the nominal
/// figures where it could not be read.
pub fn get_ram_info(meminfo: Option<&str>) -> (r: RamInfo)
    ensures
        r == ram_info_spec(
            match meminfo {
                Some(s) => Some(s@),
                None => None,
            },
        ),
        r.used_mb <= r.total_mb,
        r.available_mb <= r.total_mb ==> r.used_mb + r.available_mb == r.total_mb,
{
    let mut total_mb: u64 = 2048;
    let mut available_mb: u64 = 1024;
    if let Some(text) = meminfo {
        let (total_kb, avail_kb, free_kb) = meminfo_fields(text);
        if let Some(total) = total_kb {
            total_mb = total / 1024;
            if let Some(avail) = avail_kb {
                available_mb = avail / 1024;
            } else if let Some(free) = free_kb {
                available_mb = free / 1024;
            }
        }
    }
    let used_mb = total_mb.saturating_sub(available_mb);
    RamInfo { total_mb, used_mb, available_mb }
}

} // verus!
