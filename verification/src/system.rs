//! CPU frequency, architecture label, storage figures, uptime field and
//! the configuration file's path.

use vstd::prelude::*;

use crate::proc_stat::saturating_diff;
use crate::text::{
    parse_unsigned, parse_unsigned_range, range_equals, to_chars, token_ranges, tokens, trim,
    trim_range,
};

verus! {

/// A `scaling_cur_freq` reading in kHz: the trimmed text as a `u32`.
pub open spec fn frequency_khz(reading: Seq<char>) -> Option<nat> {
    parse_unsigned(trim(reading), u32::MAX as nat)
}

/// Reads a `scaling_cur_freq` file's content as kHz.
pub fn parse_frequency_khz(reading: &str) -> (r: Option<u32>)
    ensures
        match r {
            Some(v) => frequency_khz(reading@) == Some(v as nat),
            None => frequency_khz(reading@) is None,
        },
{
    let cs = to_chars(reading);
    let (a, b) = trim_range(&cs, 0, cs.len());
    assert(cs@.subrange(0, cs.len() as int) =~= cs@);
    match parse_unsigned_range(&cs, a, b, u32::MAX as u64) {
        Some(v) => Some(v as u32),
        None => None,
    }
}

/// A reading that was read and holds a frequency.
pub open spec fn usable_reading(r: Option<String>) -> bool {
    match r {
        Some(s) => frequency_khz(s@) is Some,
        None => false,
    }
}

/// The frequency in MHz: the first usable reading (CPU 0 first) divided by
/// 1000, or the nominal 1600 where none is usable.
pub fn select_frequency_mhz(readings: &Vec<Option<String>>) -> (r: u32)
    ensures
        (forall|j: int| 0 <= j < readings.len() ==> !usable_reading(#[trigger] readings@[j]))
            ==> r == 1600,
        forall|i: int|
            0 <= i < readings.len() && usable_reading(#[trigger] readings@[i]) && (forall|j: int|
                0 <= j < i ==> !usable_reading(#[trigger] readings@[j])) ==> r
                == frequency_khz(readings@[i]->Some_0@).unwrap() / 1000,
{
    let mut i: usize = 0;
    while i < readings.len()
        invariant
            i <= readings.len(),
            forall|j: int| 0 <= j < i ==> !usable_reading(#[trigger] readings@[j]),
        decreases readings.len() - i,
    {
        if let Some(s) = &readings[i] {
            if let Some(v) = parse_frequency_khz(s.as_str()) {
                return v / 1000;
            }
        }
        i = i + 1;
    }
    1600
}

/// Names what `str::to_uppercase` returns for a string (the Unicode
/// upper-case mapping).
pub uninterp spec fn unicode_uppercase(s: Seq<char>) -> Seq<char>;

/// Calls `str::to_uppercase`; claims only that the result is the named
/// upper-case form of the argument.
#[verifier::external_body]
fn to_uppercase(s: &str) -> (r: String)
    ensures
        r@ == unicode_uppercase(s@),
{
    s.to_uppercase()
}

/// The label shown for a target architecture name.
pub open spec fn architecture_label(arch: Seq<char>) -> Seq<char> {
    if arch == "x86_64"@ {
        "x86_64"@
    } else if arch == "aarch64"@ {
        "ARM64"@
    } else if arch == "arm"@ {
        "ARM"@
    } else if arch == "x86"@ {
        "x86"@
    } else {
        unicode_uppercase(arch)
    }
}

/// Labels the architecture that `std::env::consts::ARCH` names.
pub fn architecture_name(arch: &str) -> (r: String)
    ensures
        r@ == architecture_label(arch@),
{
    let cs = to_chars(arch);
    let n = cs.len();
    assert(cs@.subrange(0, n as int) =~= cs@);
    if range_equals(&cs, 0, n, "x86_64") {
        "x86_64".to_owned()
    } else if range_equals(&cs, 0, n, "aarch64") {
        "ARM64".to_owned()
    } else if range_equals(&cs, 0, n, "arm") {
        "ARM".to_owned()
    } else if range_equals(&cs, 0, n, "x86") {
        "x86".to_owned()
    } else {
        to_uppercase(arch)
    }
}

/// Sizes of a file system in bytes.
#[derive(Clone, Copy, Debug, PartialEq, Eq, Structural)]
pub struct StorageBytes {
    pub total_bytes: u64,
    pub used_bytes: u64,
    pub available_bytes: u64,
}

/// Byte figures from `statvfs` block counts and the fragment size.
pub fn storage_bytes(blocks: u64, available_blocks: u64, fragment_size: u64) -> (r: StorageBytes)
    requires
        blocks * fragment_size <= u64::MAX,
        available_blocks * fragment_size <= u64::MAX,
    ensures
        r.total_bytes == blocks * fragment_size,
        r.available_bytes == available_blocks * fragment_size,
        r.used_bytes == saturating_diff(r.total_bytes as int, r.available_bytes as int),
        r.used_bytes <= r.total_bytes,
        r.available_bytes <= r.total_bytes ==> r.used_bytes + r.available_bytes == r.total_bytes,
{
    let total_bytes = blocks * fragment_size;
    let available_bytes = available_blocks * fragment_size;
    let used_bytes = total_bytes.saturating_sub(available_bytes);
    StorageBytes { total_bytes, used_bytes, available_bytes }
}

/// The path whose file system is reported: Termux's home where it exists,
/// else the root.
pub fn storage_path(termux_home_exists: bool) -> (r: &'static str)
    ensures
        r@ == (if termux_home_exists {
            "/data/data/com.termux/files/home"@
        } else {
            "/"@
        }),
{
    if termux_home_exists {
        "/data/data/com.termux/files/home"
    } else {
        "/"
    }
}

/// The first whitespace-separated field of `/proc/uptime`, which holds the
/// seconds since boot.
pub fn uptime_field(uptime: &str) -> (r: Option<String>)
    ensures
        match r {
            Some(f) => tokens(uptime@).len() > 0 && f@ == tokens(uptime@)[0],
            None => tokens(uptime@).len() == 0,
        },
{
    let cs = to_chars(uptime);
    let ts = token_ranges(&cs, 0, cs.len());
    assert(cs@.subrange(0, cs.len() as int) =~= cs@);
    if ts.len() == 0 {
        return None;
    }
    let (a, b) = ts[0];
    Some(crate::text::range_to_string(&cs, a, b))
}

/// `PathBuf::push` of a relative path on Unix: a `/` goes between the two
/// unless `base` is empty or already ends with one.
pub open spec fn push_relative(base: Seq<char>, rel: Seq<char>) -> Seq<char> {
    if base.len() > 0 && base.last() != '/' {
        base + seq!['/'] + rel
    } else {
        base + rel
    }
}

/// The configuration file's path for a home directory (`None`: `HOME` is
/// unset, and the current directory stands for it).
pub open spec fn config_path_text(home: Option<Seq<char>>) -> Seq<char> {
    let base = match home {
        Some(h) => h,
        None => "."@,
    };
    push_relative(push_relative(base, ".retro-homepage"@), "config.json"@)
}

/// Appends a `/` where `push_relative` puts one.
fn append_relative(path: &mut String, rel: &str)
    ensures
        final(path)@ == push_relative(old(path)@, rel@),
{
    let cs = to_chars(path.as_str());
    if cs.len() > 0 && cs[cs.len() - 1] != '/' {
        path.append("/");
        proof {
            reveal_strlit("/");
        }
        assert(path@ =~= old(path)@ + seq!['/']);
    }
    path.append(rel);
}

/// The path of the configuration file under a home directory.
pub fn config_path(home: Option<&str>) -> (r: String)
    ensures
        r@ == config_path_text(
            match home {
                Some(h) => Some(h@),
                None => None,
            },
        ),
{
    let mut path = match home {
        Some(h) => h.to_owned(),
        None => ".".to_owned(),
    };
    append_relative(&mut path, ".retro-homepage");
    append_relative(&mut path, "config.json");
    path
}

} // verus!
