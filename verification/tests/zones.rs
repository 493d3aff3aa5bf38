use caltui::zones::windows_to_iana;

#[test]
fn windows_zone_names_map_to_iana() {
    assert_eq!(windows_to_iana("W. Europe Standard Time"), Some("Europe/Berlin"));
    assert_eq!(windows_to_iana("Pacific Standard Time"), Some("America/Los_Angeles"));
    assert_eq!(windows_to_iana("UTC"), Some("Etc/GMT"));
    assert_eq!(windows_to_iana("UTC+12"), Some("Etc/GMT-12"));
    assert_eq!(windows_to_iana("Line Islands Standard Time"), Some("Pacific/Kiritimati"));
}

#[test]
fn other_names_are_not_mapped() {
    assert_eq!(windows_to_iana("Europe/Berlin"), None);
    assert_eq!(windows_to_iana(""), None);
    assert_eq!(windows_to_iana("w. europe standard time"), None);
}
