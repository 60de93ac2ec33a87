use retro_homepage::battery::{
    choose_health, find_battery_supply, is_battery_type, select_capacity_pair,
};
use retro_homepage::system::{
    architecture_name, config_path, select_frequency_mhz, storage_bytes, storage_path,
    StorageBytes,
};
use retro_homepage::thermal::{classify_lowercase, classify_zone_type, select_thermal_zone, ThermalZoneEntry, ZoneKind};
use std::path::PathBuf;

fn zone(name: &str, zone_type: Option<&str>, has_temperature: bool) -> ThermalZoneEntry {
    ThermalZoneEntry {
        name: name.to_string(),
        zone_type: zone_type.map(|s| s.to_string()),
        has_temperature,
    }
}

#[test]
fn zone_types_are_classified_case_insensitively() {
    assert_eq!(classify_zone_type("x86_pkg_temp"), ZoneKind::Preferred);
    assert_eq!(classify_zone_type("CoreTemp"), ZoneKind::Preferred);
    assert_eq!(classify_zone_type("soc-CPU-Thermal-0"), ZoneKind::Preferred);
    assert_eq!(classify_zone_type("ACPITZ"), ZoneKind::Acpi);
    assert_eq!(classify_zone_type("iwlwifi_1"), ZoneKind::Other);
    assert_eq!(classify_zone_type(""), ZoneKind::Other);
}

#[test]
fn preferred_zone_wins_over_earlier_fallbacks() {
    let zones = vec![
        zone("cooling_device0", Some("Processor"), true),
        zone("thermal_zone0", Some("acpitz\n"), true),
        zone("thermal_zone1", Some("INT3400 Thermal"), true),
        zone("thermal_zone2", Some("x86_pkg_temp\n"), true),
        zone("thermal_zone3", Some("coretemp"), true),
    ];
    assert_eq!(select_thermal_zone(&zones), Some(3));
}

#[test]
fn first_candidate_is_the_fallback() {
    let zones = vec![
        zone("thermal_zone0", Some("acpitz"), false),
        zone("thermal_zone1", None, true),
        zone("thermal_zone2", Some("acpitz"), true),
    ];
    assert_eq!(select_thermal_zone(&zones), Some(1));
    let none = vec![zone("cooling_device0", Some("coretemp"), true), zone("thermal_zone0", Some("coretemp"), false)];
    assert_eq!(select_thermal_zone(&none), None);
    assert_eq!(select_thermal_zone(&Vec::new()), None);
}

#[test]
fn battery_supply_is_found_by_type() {
    assert!(is_battery_type("Battery\n"));
    assert!(is_battery_type("  BATTERY"));
    assert!(!is_battery_type("Mains\n"));
    assert!(!is_battery_type("batteryx"));
    let types = vec![Some("Mains\n".to_string()), None, Some("Battery\n".to_string()), Some("Battery".to_string())];
    assert_eq!(find_battery_supply(&types), Some(2));
    assert_eq!(find_battery_supply(&vec![Some("USB".to_string()), None]), None);
}

#[test]
fn capacity_pair_prefers_charge_figures() {
    assert_eq!(select_capacity_pair(Some(1), Some(2), Some(3), Some(4)), Some((1, 2)));
    assert_eq!(select_capacity_pair(Some(1), None, Some(3), Some(4)), Some((3, 4)));
    assert_eq!(select_capacity_pair(None, Some(2), Some(3), None), None);
    assert_eq!(select_capacity_pair::<u8>(None, None, None, None), None);
}

#[test]
fn health_sources_in_order() {
    assert_eq!(choose_health(Some(" Good\n"), Some("Poor (40%)".to_string()), Some("Low")), "Good");
    assert_eq!(choose_health(Some("  \n"), Some("Fair (60%)".to_string()), Some("Low")), "Fair (60%)");
    assert_eq!(choose_health(None, None, Some("Normal\n")), "Normal");
    assert_eq!(choose_health(None, Some(String::new()), Some(" ")), "Good");
    assert_eq!(choose_health(None, None, None), "Good");
}

#[test]
fn frequency_from_first_usable_reading() {
    let readings = vec![None, Some("garbage".to_string()), Some("2400000\n".to_string()), Some("800000".to_string())];
    assert_eq!(select_frequency_mhz(&readings), 2400);
    assert_eq!(select_frequency_mhz(&vec![None, Some("x".to_string())]), 1600);
    assert_eq!(select_frequency_mhz(&Vec::new()), 1600);
    assert_eq!(select_frequency_mhz(&vec![Some("999".to_string())]), 0);
}

#[test]
fn architecture_labels() {
    assert_eq!(architecture_name("x86_64"), "x86_64");
    assert_eq!(architecture_name("aarch64"), "ARM64");
    assert_eq!(architecture_name("arm"), "ARM");
    assert_eq!(architecture_name("x86"), "x86");
    assert_eq!(architecture_name("riscv64"), "RISCV64");
    assert_eq!(architecture_name("powerpc64"), "POWERPC64");
}

#[test]
fn storage_figures() {
    assert_eq!(
        storage_bytes(1000, 250, 4096),
        StorageBytes { total_bytes: 4_096_000, used_bytes: 3_072_000, available_bytes: 1_024_000 }
    );
    assert_eq!(
        storage_bytes(10, 20, 1),
        StorageBytes { total_bytes: 10, used_bytes: 0, available_bytes: 20 }
    );
    assert_eq!(storage_path(true), "/data/data/com.termux/files/home");
    assert_eq!(storage_path(false), "/");
}

#[test]
fn config_path_joins_like_pathbuf() {
    assert_eq!(config_path(Some("/home/u")), "/home/u/.retro-homepage/config.json");
    assert_eq!(config_path(None), "./.retro-homepage/config.json");
    for home in ["/home/u", "/root/", "/", "", ".", "rel/dir"] {
        let mut p = PathBuf::from(home);
        p.push(".retro-homepage");
        p.push("config.json");
        assert_eq!(PathBuf::from(config_path(Some(home))), p, "home {:?}", home);
        assert_eq!(config_path(Some(home)), p.to_str().unwrap(), "home {:?}", home);
    }
}

#[test]
fn lower_case_kinds() {
    assert_eq!(classify_lowercase("b0-cpu-thermal"), ZoneKind::Preferred);
    assert_eq!(classify_lowercase("acpitz"), ZoneKind::Acpi);
    assert_eq!(classify_lowercase("ACPITZ"), ZoneKind::Other);
}

#[test]
fn health_text_is_trimmed() {
    for (h, w, c) in [
        (Some("  Good \n"), None, None),
        (None, Some("Fair (61%)".to_string()), None),
        (Some(" "), None, Some("\tNormal\n")),
        (None, None, None),
    ] {
        let r = choose_health(h, w, c);
        assert_eq!(r, r.trim());
        assert!(!r.is_empty());
    }
}
