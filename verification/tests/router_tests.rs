use fileshare::events::ServerMessage;
use fileshare::net::{is_private_ip, origin_allowed, parse_port, IpAddress};
use fileshare::registry::FileManager;
use fileshare::router::{content_disposition, plan_download, prepare_listing};

#[test]
fn private_ranges_recognised() {
    let v4 = |a, b, c, d| IpAddress::V4 { a, b, c, d };
    assert!(is_private_ip(v4(127, 0, 0, 1)));
    assert!(is_private_ip(v4(10, 1, 2, 3)));
    assert!(is_private_ip(v4(172, 16, 0, 1)));
    assert!(is_private_ip(v4(172, 31, 255, 255)));
    assert!(!is_private_ip(v4(172, 32, 0, 1)));
    assert!(!is_private_ip(v4(172, 15, 0, 1)));
    assert!(is_private_ip(v4(192, 168, 0, 10)));
    assert!(!is_private_ip(v4(192, 167, 0, 10)));
    assert!(!is_private_ip(v4(8, 8, 8, 8)));
    // ::1 and unique-local fc00::/7; link-local fe80:: is not private here
    assert!(is_private_ip(IpAddress::V6 { hi: 0, lo: 1 }));
    assert!(is_private_ip(IpAddress::V6 { hi: 0xfc00 << 48, lo: 0 }));
    assert!(is_private_ip(IpAddress::V6 { hi: 0xfd12 << 48, lo: 5 }));
    assert!(!is_private_ip(IpAddress::V6 { hi: 0xfe80 << 48, lo: 0 }));
    assert!(!is_private_ip(IpAddress::V6 { hi: 0x2001 << 48, lo: 0 }));
}

#[test]
fn origin_gate() {
    let public = IpAddress::V4 { a: 8, b: 8, c: 8, d: 8 };
    let private = IpAddress::V4 { a: 192, b: 168, c: 1, d: 2 };
    assert!(origin_allowed(false, public));
    assert!(origin_allowed(false, private));
    assert!(!origin_allowed(true, public));
    assert!(origin_allowed(true, private));
}

#[test]
fn listing_rows_newest_first() {
    let mut fm = FileManager::new();
    fm.push("a/alpha.txt".to_string(), 500, false);
    fm.push("b/beta.bin".to_string(), 1536, false);
    let rows = prepare_listing(fm.get_view());
    assert_eq!(rows.len(), 2);
    assert_eq!(rows[0].name, "beta.bin");
    assert_eq!(rows[0].index, 1);
    assert_eq!(rows[0].size, "1.5 KB");
    assert_eq!(rows[1].name, "alpha.txt");
    assert_eq!(rows[1].index, 0);
    assert_eq!(rows[1].size, "500 B");
}

#[test]
fn listing_names_nameless_paths() {
    let mut fm = FileManager::new();
    fm.push("nameless/".to_string(), 10, false);
    let rows = prepare_listing(fm.get_view());
    assert_eq!(rows[0].name, "Unknown");
}

#[test]
fn single_download_announces_itself_even_when_missing() {
    let fm = FileManager::new();
    let ip = IpAddress::V4 { a: 10, b: 0, c: 0, d: 5 };
    let plan = plan_download(&fm, 3, 1, ip);
    assert_eq!(
        plan.request_event,
        Some(ServerMessage::DownloadRequest { index: 3, ip })
    );
    assert!(plan.file.is_none());
}

#[test]
fn batch_download_stays_silent() {
    let mut fm = FileManager::new();
    fm.push("a/one.txt".to_string(), 10, false);
    let ip = IpAddress::V4 { a: 10, b: 0, c: 0, d: 5 };
    let plan = plan_download(&fm, 0, 0, ip);
    assert_eq!(plan.request_event, None);
    assert_eq!(plan.file.unwrap().path, "a/one.txt");
}

#[test]
fn port_parsing() {
    assert_eq!(parse_port("8080"), Some(8080));
    assert_eq!(parse_port("0"), Some(0));
    assert_eq!(parse_port("007"), Some(7));
    assert_eq!(parse_port("65535"), Some(65535));
    assert_eq!(parse_port("65536"), None);
    assert_eq!(parse_port("99999999999999999999"), None);
    assert_eq!(parse_port(""), None);
    assert_eq!(parse_port("80a"), None);
    assert_eq!(parse_port("-1"), None);
    assert_eq!(parse_port(" 80"), None);
}

#[test]
fn attachment_header() {
    assert_eq!(
        content_disposition(&"photos.zip".to_string()),
        "attachment; filename=\"photos.zip\""
    );
}
