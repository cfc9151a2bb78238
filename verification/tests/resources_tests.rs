use solyn::resources::{format_bytes, format_uptime, get_system_info};

#[test]
fn formats_bytes_across_units() {
    assert_eq!(format_bytes(0), "0 B");
    assert_eq!(format_bytes(512), "512 B");
    assert_eq!(format_bytes(1024), "1.0 KB");
    assert_eq!(format_bytes(1536), "1.5 KB");
    assert_eq!(format_bytes(1024 * 1024), "1.0 MB");
    assert_eq!(format_bytes(1024 * 1024 * 1024), "1.0 GB");
}

#[test]
fn format_bytes_rounds_ties_to_even_tenths() {
    // 1.25 KB and 1.75 KB are exact ties between tenths.
    assert_eq!(format_bytes(1280), "1.2 KB");
    assert_eq!(format_bytes(1792), "1.8 KB");
    assert_eq!(format_bytes(1023), "1023 B");
    assert_eq!(format_bytes(1048575), "1024.0 KB");
}

#[test]
fn format_bytes_stops_at_petabytes() {
    assert_eq!(format_bytes(1u64 << 50), "1.0 PB");
    assert_eq!(format_bytes(1u64 << 60), "1024.0 PB");
    assert_eq!(format_bytes(1u64 << 40), "1.0 TB");
}

#[test]
fn formats_uptime_for_each_unit() {
    assert_eq!(format_uptime(45), "45s");
    assert_eq!(format_uptime(90), "1m");
    assert_eq!(format_uptime(3600), "1h 0m");
    assert_eq!(format_uptime(3661), "1h 1m");
    assert_eq!(format_uptime(90061), "1d 1h 1m");
}

#[test]
fn uptime_of_zero_is_seconds() {
    assert_eq!(format_uptime(0), "0s");
    assert_eq!(format_uptime(86400), "1d 0h 0m");
}

#[test]
fn system_info_formats_uptime() {
    let info = get_system_info(Some("Linux".to_string()), None, None, 3661, Some("host".to_string()));
    assert_eq!(info.uptime, 3661);
    assert_eq!(info.uptime_formatted, "1h 1m");
    assert_eq!(info.name.as_deref(), Some("Linux"));
    assert_eq!(info.hostname.as_deref(), Some("host"));
    assert!(info.kernel_version.is_none());
}
