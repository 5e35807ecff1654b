use hydradesk::detect::{
    extract_field, parse_desktop_string, parse_display_server, parse_grdctl_rdp_enabled, parse_os_release,
    DesktopEnvironment, DisplayServer,
};
use hydradesk::history::{
    days_from_civil, extract_ipv4, format_duration, is_ipv4, parse_rdp_event, parse_short_iso_epoch, RdpEventKind,
};
use hydradesk::number::{parse_i32, parse_u64, parse_u8, u64_text};
use hydradesk::rdp::{lan_subnet_from_ip, sh_single_quote};

fn chars(s: &str) -> Vec<char> {
    s.chars().collect()
}

#[test]
fn parse_u8_reads_bytes_like_std() {
    assert_eq!(parse_u8(&chars("255")), Some(255));
    assert_eq!(parse_u8(&chars("+7")), Some(7));
    assert_eq!(parse_u8(&chars("256")), None);
    assert_eq!(parse_u8(&chars("")), None);
    assert_eq!(parse_u8(&chars("-1")), None);
    assert_eq!(parse_u8(&chars("1a")), None);
}

#[test]
fn parse_u64_and_i32_edges() {
    assert_eq!(parse_u64(&chars("18446744073709551615")), Some(u64::MAX));
    assert_eq!(parse_u64(&chars("18446744073709551616")), None);
    assert_eq!(parse_i32(&chars("-2147483648")), Some(i32::MIN));
    assert_eq!(parse_i32(&chars("2147483648")), None);
}

#[test]
fn decimal_text_of_u64() {
    assert_eq!(u64_text(0).iter().collect::<String>(), "0");
    assert_eq!(u64_text(1234).iter().collect::<String>(), "1234");
}

#[test]
fn desktop_names_are_judged_case_insensitively() {
    assert_eq!(parse_desktop_string("ubuntu:GNOME"), DesktopEnvironment::Gnome);
    assert_eq!(parse_desktop_string("KDE"), DesktopEnvironment::Kde);
    assert_eq!(parse_desktop_string("Plasma"), DesktopEnvironment::Kde);
    assert_eq!(parse_desktop_string("XFCE"), DesktopEnvironment::Xfce);
    assert_eq!(parse_desktop_string("LXQt"), DesktopEnvironment::Lxde);
    assert_eq!(parse_desktop_string("sway"), DesktopEnvironment::Unknown("sway".to_string()));
}

#[test]
fn desktop_labels() {
    assert_eq!(DesktopEnvironment::Gnome.label(), "GNOME");
    assert_eq!(DesktopEnvironment::Unknown("sway".to_string()).label(), "Unknown (sway)");
    assert_eq!(DisplayServer::X11.label(), "X11");
}

#[test]
fn display_server_names() {
    assert_eq!(parse_display_server("Wayland"), DisplayServer::Wayland);
    assert_eq!(parse_display_server("x11"), DisplayServer::X11);
    assert_eq!(parse_display_server("mir"), DisplayServer::X11);
    assert_eq!(parse_display_server("tty"), DisplayServer::Unknown);
    assert_eq!(parse_display_server(" wayland"), DisplayServer::Unknown);
}

#[test]
fn extract_field_takes_the_first_trimmed_value() {
    let text = "Id=2\nType=wayland  \nType=x11\n";
    assert_eq!(extract_field(text, "Type"), Some("wayland".to_string()));
    assert_eq!(extract_field(text, "State"), None);
    assert_eq!(extract_field("Name=a\r\nState= active\r\n", "State"), Some("active".to_string()));
}

#[test]
fn grdctl_status_verdicts() {
    assert_eq!(parse_grdctl_rdp_enabled("RDP:\n  Status: enabled\n", ""), Some(true));
    assert_eq!(parse_grdctl_rdp_enabled("RDP:\n  Status: disabled\n", ""), Some(false));
    assert_eq!(parse_grdctl_rdp_enabled("", "RDP is not enabled"), Some(false));
    assert_eq!(parse_grdctl_rdp_enabled("Enabled=yes", ""), Some(true));
    assert_eq!(parse_grdctl_rdp_enabled("nothing here", "either"), None);
}

#[test]
fn os_release_values_and_defaults() {
    let os = parse_os_release("NAME=\"Ubuntu\"\nVERSION_ID=\"24.04\"\nID=ubuntu\n");
    assert_eq!(os.name, "Ubuntu");
    assert_eq!(os.version_id, "24.04");
    assert_eq!(os.label(), "Ubuntu 24.04");
    let empty = parse_os_release("ID=arch\n");
    assert_eq!(empty.name, "Linux");
    assert_eq!(empty.version_id, "?");
}

#[test]
fn ipv4_recognition() {
    assert!(is_ipv4(&chars("192.168.1.20")));
    assert!(!is_ipv4(&chars("192.168.1")));
    assert!(!is_ipv4(&chars("192.168.1.256")));
    assert!(!is_ipv4(&chars("1.2.3.0004")));
    assert_eq!(
        extract_ipv4(&chars("peer 192.168.1.20:50000 connected")).map(|v| v.iter().collect::<String>()),
        Some("192.168.1.20".to_string())
    );
    assert_eq!(extract_ipv4(&chars("no address here 1.2.3")), None);
}

#[test]
fn civil_dates_count_days_from_the_epoch() {
    assert_eq!(days_from_civil(1970, 1, 1), Some(0));
    assert_eq!(days_from_civil(2000, 3, 1), Some(11017));
    assert_eq!(days_from_civil(2024, 1, 2), Some(19724));
    assert_eq!(days_from_civil(1969, 12, 31), Some(-1));
    assert_eq!(days_from_civil(2024, 13, 1), None);
    assert_eq!(days_from_civil(2024, 1, 0), None);
}

#[test]
fn short_iso_timestamps() {
    assert_eq!(parse_short_iso_epoch("1970-01-01T00:00:00+0000"), Some(0));
    assert_eq!(parse_short_iso_epoch("2024-01-02T03:04:05+0100"), Some(1704164645));
    assert_eq!(parse_short_iso_epoch("2024-01-02"), None);
    assert_eq!(parse_short_iso_epoch("2024-xx-02T03:04:05"), None);
}

#[test]
fn durations_are_shown_by_their_largest_units() {
    assert_eq!(format_duration(3725), "1h 2m");
    assert_eq!(format_duration(125), "2m 5s");
    assert_eq!(format_duration(5), "5s");
    assert_eq!(format_duration(0), "0s");
}

#[test]
fn journal_lines_become_events() {
    let e = parse_rdp_event(&chars("2024-01-02T03:04:05+0000 host gnome-remote-desktop[9]: New connection from 10.0.0.5"))
        .unwrap();
    assert_eq!(e.kind, RdpEventKind::Connected);
    assert_eq!(e.ip, "10.0.0.5");
    assert_eq!(e.timestamp, "2024-01-02T03:04:05+0000");
    assert_eq!(e.epoch, Some(1704164645));
    let d = parse_rdp_event(&chars("2024-01-02T04:04:05+0000 host grd[9]: Client 10.0.0.5 disconnected")).unwrap();
    assert_eq!(d.kind, RdpEventKind::Disconnected);
    assert!(parse_rdp_event(&chars("2024-01-02T04:04:05+0000 host grd[9]: started")).is_none());
    assert!(parse_rdp_event(&chars("2024-01-02T04:04:05+0000 host grd[9]: connected")).is_none());
}

#[test]
fn shell_quoting_escapes_single_quotes() {
    assert_eq!(sh_single_quote("it's"), "'it'\\''s'");
    assert_eq!(sh_single_quote("plain"), "'plain'");
    assert_eq!(sh_single_quote(""), "''");
}

#[test]
fn lan_subnet_of_an_address() {
    assert_eq!(lan_subnet_from_ip("192.168.1.111"), Some("192.168.1.0/24".to_string()));
    assert_eq!(lan_subnet_from_ip("300.1.1.1"), None);
    assert_eq!(lan_subnet_from_ip("10.0.0"), None);
    assert_eq!(lan_subnet_from_ip("a.b.c.d"), None);
}

#[test]
fn calendar_repeats_every_400_years_and_days_follow_one_another() {
    for (y, m, d) in [(2000, 3, 1), (1969, 2, 28), (-5, 12, 31), (2024, 2, 29)] {
        assert_eq!(days_from_civil(y + 400, m, d).unwrap(), days_from_civil(y, m, d).unwrap() + 146097);
    }
    assert_eq!(days_from_civil(2024, 2, 29).unwrap() + 1, days_from_civil(2024, 2, 30).unwrap());
    assert_eq!(days_from_civil(2023, 12, 30).unwrap() + 1, days_from_civil(2023, 12, 31).unwrap());
    assert_eq!(days_from_civil(2024, 3, 1).unwrap(), days_from_civil(2024, 2, 29).unwrap() + 1);
}
