//! Choice of the thermal zone whose temperature stands for the CPU's.

use vstd::prelude::*;

use crate::text::{contains_seq, contains_str, range_starts_with, to_chars, trim, trimmed};

verus! {

/// Names what `str::to_lowercase` returns for a string (the Unicode
/// lower-case mapping).
pub uninterp spec fn unicode_lowercase(s: Seq<char>) -> Seq<char>;

/// Calls `str::to_lowercase`; claims only that the result is the named
/// lower-case form of the argument.
#[verifier::external_body]
fn to_lowercase(s: &str) -> (r: String)
    ensures
        r@ == unicode_lowercase(s@),
{
    s.to_lowercase()
}

/// How a zone's `type` ranks it.
#[derive(Clone, Copy, Debug, PartialEq, Eq, Structural)]
pub enum ZoneKind {
    /// A package or core sensor: taken at once.
    Preferred,
    /// The ACPI zone.
    Acpi,
    /// Anything else.
    Other,
}

/// The kind of a zone from the lower-case form of its type text.
pub open spec fn lowercase_kind(lower: Seq<char>) -> ZoneKind {
    if contains_seq(lower, "x86_pkg_temp"@) || contains_seq(lower, "coretemp"@) || contains_seq(
        lower,
        "cpu-thermal"@,
    ) {
        ZoneKind::Preferred
    } else if contains_seq(lower, "acpitz"@) {
        ZoneKind::Acpi
    } else {
        ZoneKind::Other
    }
}

/// A lower-case type marks a CPU sensor exactly when it contains
/// `x86_pkg_temp`, `coretemp` or `cpu-thermal`; it marks the ACPI zone
/// exactly when it contains `acpitz` and none of those; every other type
/// is only a fallback.
pub proof fn lemma_kind_by_markers(lower: Seq<char>)
    ensures
        (lowercase_kind(lower) == ZoneKind::Preferred) <==> (contains_seq(lower, "x86_pkg_temp"@)
            || contains_seq(lower, "coretemp"@) || contains_seq(lower, "cpu-thermal"@)),
        (lowercase_kind(lower) == ZoneKind::Acpi) <==> (!contains_seq(lower, "x86_pkg_temp"@)
            && !contains_seq(lower, "coretemp"@) && !contains_seq(lower, "cpu-thermal"@)
            && contains_seq(lower, "acpitz"@)),
        (lowercase_kind(lower) == ZoneKind::Other) <==> (!contains_seq(lower, "x86_pkg_temp"@)
            && !contains_seq(lower, "coretemp"@) && !contains_seq(lower, "cpu-thermal"@)
            && !contains_seq(lower, "acpitz"@)),
{
}

/// A zone whose type, in lower case, holds none of the CPU-sensor markers
/// is never chosen while a later zone with a temperature holds one.
pub proof fn lemma_unmarked_zone_not_preferred(e: ThermalZoneEntry)
    requires
        !contains_seq(unicode_lowercase(zone_type_text(e)), "x86_pkg_temp"@),
        !contains_seq(unicode_lowercase(zone_type_text(e)), "coretemp"@),
        !contains_seq(unicode_lowercase(zone_type_text(e)), "cpu-thermal"@),
    ensures
        !is_preferred(e),
{
    lemma_kind_by_markers(unicode_lowercase(zone_type_text(e)));
}

/// The kind of a zone whose trimmed `type` file reads `zone_type`.
pub open spec fn zone_kind(zone_type: Seq<char>) -> ZoneKind {
    lowercase_kind(unicode_lowercase(zone_type))
}

/// Classifies a zone by the lower-case form of its type text.
pub fn classify_lowercase(lower: &str) -> (r: ZoneKind)
    ensures
        r == lowercase_kind(lower@),
{
    let cs = to_chars(lower);
    if contains_str(&cs, "x86_pkg_temp") || contains_str(&cs, "coretemp") || contains_str(
        &cs,
        "cpu-thermal",
    ) {
        ZoneKind::Preferred
    } else if contains_str(&cs, "acpitz") {
        ZoneKind::Acpi
    } else {
        ZoneKind::Other
    }
}

/// Classifies a zone by its (trimmed) `type` text.
pub fn classify_zone_type(zone_type: &str) -> (r: ZoneKind)
    ensures
        r == zone_kind(zone_type@),
{
    let lower = to_lowercase(zone_type);
    classify_lowercase(lower.as_str())
}

/// One entry of `/sys/class/thermal` as read from disk.
pub struct ThermalZoneEntry {
    /// The entry's file name.
    pub name: String,
    /// The content of its `type` file, where it could be read.
    pub zone_type: Option<String>,
    /// Its `temp` file could be read and holds a number.
    pub has_temperature: bool,
}

/// The trimmed type text of an entry (empty where unreadable).
pub open spec fn zone_type_text(e: ThermalZoneEntry) -> Seq<char> {
    match e.zone_type {
        Some(t) => trim(t@),
        None => Seq::empty(),
    }
}

/// A thermal zone with a temperature.
pub open spec fn is_candidate(e: ThermalZoneEntry) -> bool {
    &&& "thermal_zone"@.is_prefix_of(e.name@)
    &&& e.has_temperature
}

/// A candidate whose type marks it as a CPU sensor.
pub open spec fn is_preferred(e: ThermalZoneEntry) -> bool {
    is_candidate(e) && zone_kind(zone_type_text(e)) == ZoneKind::Preferred
}

fn entry_is_candidate(e: &ThermalZoneEntry) -> (r: bool)
    ensures
        r == is_candidate(*e),
{
    if !e.has_temperature {
        return false;
    }
    let cs = to_chars(e.name.as_str());
    let r = range_starts_with(&cs, 0, cs.len(), "thermal_zone");
    assert(cs@.subrange(0, cs.len() as int) =~= cs@);
    r
}

fn entry_kind(e: &ThermalZoneEntry) -> (r: ZoneKind)
    ensures
        r == zone_kind(zone_type_text(*e)),
{
    match &e.zone_type {
        Some(t) => {
            let tt = trimmed(t.as_str());
            classify_zone_type(tt.as_str())
        },
        None => {
            let empty = String::new();
            classify_zone_type(empty.as_str())
        },
    }
}

/// The index of the zone whose temperature is reported: the first CPU
/// sensor among the candidates, else the first candidate; `None` where
/// there is no candidate.
pub fn select_thermal_zone(zones: &Vec<ThermalZoneEntry>) -> (r: Option<usize>)
    ensures
        match r {
            Some(i) => {
                &&& i < zones.len()
                &&& is_candidate(zones@[i as int])
                &&& (exists|j: int| 0 <= j < zones.len() && is_preferred(#[trigger] zones@[j]))
                    ==> is_preferred(zones@[i as int])
                &&& if is_preferred(zones@[i as int]) {
                    forall|j: int| 0 <= j < i ==> !is_preferred(#[trigger] zones@[j])
                } else {
                    &&& forall|j: int| 0 <= j < zones.len() ==> !is_preferred(#[trigger] zones@[j])
                    &&& forall|j: int| 0 <= j < i ==> !is_candidate(#[trigger] zones@[j])
                }
            },
            None => forall|j: int| 0 <= j < zones.len() ==> !is_candidate(#[trigger] zones@[j]),
        },
{
    let mut fallback: Option<usize> = None;
    let mut i: usize = 0;
    while i < zones.len()
        invariant
            i <= zones.len(),
            forall|j: int| 0 <= j < i ==> !is_preferred(#[trigger] zones@[j]),
            match fallback {
                Some(f) => f < i && is_candidate(zones@[f as int]) && forall|j: int|
                    0 <= j < f ==> !is_candidate(#[trigger] zones@[j]),
                None => forall|j: int| 0 <= j < i ==> !is_candidate(#[trigger] zones@[j]),
            },
        decreases zones.len() - i,
    {
        if entry_is_candidate(&zones[i]) {
            match entry_kind(&zones[i]) {
                ZoneKind::Preferred => {
                    return Some(i);
                },
                ZoneKind::Acpi => {
                    if fallback.is_none() {
                        fallback = Some(i);
                    }
                },
                ZoneKind::Other => {
                    if fallback.is_none() {
                        fallback = Some(i);
                    }
                },
            }
        }
        i = i + 1;
    }
    fallback
}

} // verus!
