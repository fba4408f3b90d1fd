use radb::app_info::{app_info_from_dump, package_listed, parse_u32, split_words, AppInfo};
use radb::beans::parse_device_list_lines;
use radb::client::the_only_device;
use radb::device::{BaseClient, BaseDevice};
use radb::errors::AdbError;
use radb::ip::{extract_ip_from_output, is_valid_ipv4, pick_ip};

#[test]
fn ipv4_validation() {
    assert!(is_valid_ipv4("192.168.1.10"));
    assert!(is_valid_ipv4("0.0.0.0"));
    assert!(!is_valid_ipv4("256.1.1.1"));
    assert!(!is_valid_ipv4("1.2.3"));
    assert!(!is_valid_ipv4("1.2.3.4.5"));
    assert!(!is_valid_ipv4("1..3.4"));
    assert!(!is_valid_ipv4("a.b.c.d"));
}

#[test]
fn ip_from_interface_listings() {
    let ip_addr = "3: wlan0: <BROADCAST>\n    inet 192.168.1.23/24 brd 192.168.1.255 scope global wlan0\n";
    assert_eq!(extract_ip_from_output(ip_addr), Some("192.168.1.23".to_string()));
    let ifconfig = "wlan0     Link encap:UNSPEC\n          inet addr:10.0.0.7  Bcast:10.0.0.255\n";
    assert_eq!(extract_ip_from_output(ifconfig), Some("10.0.0.7".to_string()));
    let bsd = "eth0: flags=4163\n        inet 172.16.0.9  netmask 255.255.0.0\n";
    assert_eq!(extract_ip_from_output(bsd), Some("172.16.0.9".to_string()));
    assert_eq!(extract_ip_from_output("inet 999.1.1.1/8"), None);
    assert_eq!(extract_ip_from_output("no address"), None);
}

#[test]
fn first_valid_candidate() {
    let c = vec![None, Some("1.2.3".to_string()), Some("8.8.8.8".to_string()), Some("1.1.1.1".to_string())];
    assert_eq!(pick_ip(&c), Some("8.8.8.8".to_string()));
    assert_eq!(pick_ip(&[]), None);
}

#[test]
fn package_dump_fields() {
    let dump = "Packages:\n  Package [com.a] (1234):\n    versionCode=42 minSdk=21\n    versionName=1.2.3\n    pkgFlags=[ HAS_CODE ALLOW_BACKUP ]\n    PackageSignatures{abc version:2, signatures:[9f8e7d], past:[]}\n    firstInstallTime=2024-01-02 03:04:05\n";
    let info = app_info_from_dump("com.a", dump);
    assert_eq!(info.package_name, "com.a");
    assert_eq!(info.version_name, Some("1.2.3".to_string()));
    assert_eq!(info.version_code, Some(42));
    assert_eq!(info.flags, vec!["HAS_CODE".to_string(), "ALLOW_BACKUP".to_string()]);
    assert_eq!(info.signature, Some("9f8e7d".to_string()));
    assert_eq!(info.first_install_time, Some(1704164645));
    assert_eq!(info.last_update_time, None);
    let empty = app_info_from_dump("com.b", "nothing");
    assert_eq!(empty.version_name, None);
    assert!(empty.flags.is_empty());
    assert_eq!(AppInfo::new("x").path, "");
}

#[test]
fn package_dump_times() {
    let dump = "lastUpdateTime=1970-01-01 00:01:40\nfirstInstallTime=2024-13-02 03:04:05";
    let info = app_info_from_dump("com.a", dump);
    assert_eq!(info.last_update_time, Some(100));
    assert_eq!(info.first_install_time, None);
}

#[test]
fn listing_and_numbers() {
    assert!(package_listed("package:com.a\npackage:com.b\n", "com.b"));
    assert!(!package_listed("package:com.a\n", "com.c"));
    assert_eq!(parse_u32("4294967295"), Some(4294967295));
    assert_eq!(parse_u32("4294967296"), None);
    assert_eq!(parse_u32("12x"), None);
    assert_eq!(split_words("  a b\tc\n"), vec!["a".to_string(), "b".to_string(), "c".to_string()]);
}

#[test]
fn property_cache() {
    let mut d = BaseDevice::new(BaseClient::default(), Some("S".to_string()), None);
    assert_eq!(d.cached_prop("ro.x"), None);
    d.remember_prop("ro.x", "1");
    d.remember_prop("ro.y", "2");
    d.remember_prop("ro.x", "3");
    assert_eq!(d.cached_prop("ro.x"), Some("3".to_string()));
    assert_eq!(d.cached_prop("ro.y"), Some("2".to_string()));
    assert_eq!(d.get_prop("ro.z").unwrap().commands[1], "shell:getprop ro.z");
}

#[test]
fn only_device_selection() {
    let one = parse_device_list_lines("A\tdevice\n");
    assert_eq!(the_only_device(&one).unwrap(), "A");
    let two = parse_device_list_lines("A\tdevice\nB\tdevice\n");
    assert!(matches!(the_only_device(&two), Err(AdbError::DeviceNotFound { .. })));
    assert!(the_only_device(&[]).is_err());
}
