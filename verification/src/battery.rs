//! The battery's power-supply entry and the text fields read from it.

use vstd::prelude::*;

use crate::text::{
    eq_ignore_ascii_case, lemma_trim_idempotent, parse_i32, parse_i32_range, range_eq_ignore_ascii_case, to_chars, trim,
    trim_end, trim_range, trim_start, trimmed,
};

verus! {

/// A power supply whose `type` file reads `battery`, in any ASCII case,
/// around whitespace.
pub open spec fn is_battery_type_text(type_text: Seq<char>) -> bool {
    eq_ignore_ascii_case(trim(type_text), "battery"@)
}

/// Whether the content of a supply's `type` file names a battery.
pub fn is_battery_type(type_text: &str) -> (r: bool)
    ensures
        r == is_battery_type_text(type_text@),
{
    let cs = to_chars(type_text);
    let (a, b) = trim_range(&cs, 0, cs.len());
    assert(cs@.subrange(0, cs.len() as int) =~= cs@);
    range_eq_ignore_ascii_case(&cs, a, b, "battery")
}

/// A supply whose `type` file was read and names a battery.
pub open spec fn is_battery_entry(t: Option<String>) -> bool {
    match t {
        Some(s) => is_battery_type_text(s@),
        None => false,
    }
}

/// The first power supply that is a battery, given the content of each
/// supply's `type` file in directory order (`None`: unreadable).
pub fn find_battery_supply(types: &Vec<Option<String>>) -> (r: Option<usize>)
    ensures
        match r {
            Some(i) => {
                &&& i < types.len()
                &&& is_battery_entry(types@[i as int])
                &&& forall|j: int| 0 <= j < i ==> !is_battery_entry(#[trigger] types@[j])
            },
            None => forall|j: int| 0 <= j < types.len() ==> !is_battery_entry(#[trigger] types@[j]),
        },
{
    let mut i: usize = 0;
    while i < types.len()
        invariant
            i <= types.len(),
            forall|j: int| 0 <= j < i ==> !is_battery_entry(#[trigger] types@[j]),
        decreases types.len() - i,
    {
        match &types[i] {
            Some(t) => {
                if is_battery_type(t.as_str()) {
                    return Some(i);
                }
            },
            None => {},
        }
        i = i + 1;
    }
    None
}

/// The charge percentage: the trimmed `capacity` text as an `i32`, or 0.
pub open spec fn percentage_of(capacity: Seq<char>) -> int {
    match parse_i32(trim(capacity)) {
        Some(v) => v,
        None => 0,
    }
}

/// Reads the charge percentage from a `capacity` file's content.
pub fn parse_percentage(capacity: &str) -> (r: i32)
    ensures
        r == percentage_of(capacity@),
{
    let cs = to_chars(capacity);
    let (a, b) = trim_range(&cs, 0, cs.len());
    assert(cs@.subrange(0, cs.len() as int) =~= cs@);
    match parse_i32_range(&cs, a, b) {
        Some(v) => v,
        None => 0,
    }
}

/// The pair from which battery wear is computed: full and design charge
/// where both are known, else full and design energy where both are known.
pub fn select_capacity_pair<T>(
    charge_full: Option<T>,
    charge_full_design: Option<T>,
    energy_full: Option<T>,
    energy_full_design: Option<T>,
) -> (r: Option<(T, T)>)
    ensures
        r == (match (charge_full, charge_full_design) {
            (Some(f), Some(d)) => Some((f, d)),
            _ => match (energy_full, energy_full_design) {
                (Some(f), Some(d)) => Some((f, d)),
                _ => None,
            },
        }),
{
    match (charge_full, charge_full_design) {
        (Some(f), Some(d)) => Some((f, d)),
        _ => match (energy_full, energy_full_design) {
            (Some(f), Some(d)) => Some((f, d)),
            _ => None,
        },
    }
}

/// The health text that is reported: the trimmed `health` file; where that
/// is empty or unreadable, the wear estimate; then the trimmed
/// `capacity_level` file; and `Good` where all of them are empty.
pub open spec fn health_text(
    health_file: Option<Seq<char>>,
    wear: Option<Seq<char>>,
    capacity_level: Option<Seq<char>>,
) -> Seq<char> {
    let h1 = match health_file {
        Some(h) => trim(h),
        None => Seq::empty(),
    };
    let h2 = if h1.len() == 0 {
        match wear {
            Some(w) => w,
            None => h1,
        }
    } else {
        h1
    };
    let h3 = if h2.len() == 0 {
        match capacity_level {
            Some(c) => trim(c),
            None => h2,
        }
    } else {
        h2
    };
    if h3.len() == 0 {
        "Good"@
    } else {
        h3
    }
}

pub open spec fn opt_view(s: Option<&str>) -> Option<Seq<char>> {
    match s {
        Some(x) => Some(x@),
        None => None,
    }
}

/// The health text is the first nonempty source in this order: the trimmed
/// `health` file (a missing file counts as an empty one), the wear
/// estimate, the trimmed `capacity_level` file (a missing file counts as
/// an empty one); `Good` where all of them are empty. A later source is
/// never looked at while an earlier one is nonempty.
pub proof fn lemma_health_source_order(
    health_file: Option<Seq<char>>,
    wear: Option<Seq<char>>,
    capacity_level: Option<Seq<char>>,
)
    ensures
        health_file is Some && trim(health_file.unwrap()).len() > 0 ==> health_text(
            health_file,
            wear,
            capacity_level,
        ) == trim(health_file.unwrap()),
        (health_file is Some ==> trim(health_file.unwrap()).len() == 0) && wear is Some
            && wear.unwrap().len() > 0 ==> health_text(health_file, wear, capacity_level)
            == wear.unwrap(),
        (health_file is Some ==> trim(health_file.unwrap()).len() == 0) && (wear is Some
            ==> wear.unwrap().len() == 0) && capacity_level is Some && trim(
            capacity_level.unwrap(),
        ).len() > 0 ==> health_text(health_file, wear, capacity_level) == trim(
            capacity_level.unwrap(),
        ),
        (health_file is Some ==> trim(health_file.unwrap()).len() == 0) && (wear is Some
            ==> wear.unwrap().len() == 0) && (capacity_level is Some ==> trim(
            capacity_level.unwrap(),
        ).len() == 0) ==> health_text(health_file, wear, capacity_level) == "Good"@,
{
}

/// Chooses the battery health text from its sources in order.
pub fn choose_health(health_file: Option<&str>, wear: Option<String>, capacity_level: Option<&str>) -> (r: String)
    ensures
        r@ == health_text(
            opt_view(health_file),
            match wear {
                Some(w) => Some(w@),
                None => None,
            },
            opt_view(capacity_level),
        ),
        r@.len() > 0,
        (wear matches Some(w) ==> trim(w@) == w@) ==> trim(r@) == r@,
{
    proof {
        reveal_strlit("Good");
        assert(trim_start("Good"@) == "Good"@);
        assert(trim_end("Good"@) == "Good"@);
        assert(trim(Seq::<char>::empty()) =~= Seq::<char>::empty());
        if let Some(h) = health_file {
            lemma_trim_idempotent(h@);
        }
        if let Some(c) = capacity_level {
            lemma_trim_idempotent(c@);
        }
    }
    let mut health = String::new();
    if let Some(h) = health_file {
        health = trimmed(h);
    }
    if health.as_str().unicode_len() == 0 {
        if let Some(w) = wear {
            health = w;
        }
    }
    if health.as_str().unicode_len() == 0 {
        if let Some(c) = capacity_level {
            health = trimmed(c);
        }
    }
    if health.as_str().unicode_len() == 0 {
        health = "Good".to_owned();
    }
    health
}

} // verus!
