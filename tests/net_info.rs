use radb::net_info::{AdbProtocolRespDataType, NetworkType};

#[test]
fn test_network_type_display() {
    assert_eq!(NetworkType::Tcp.to_string(), "tcp:");
    assert_eq!(NetworkType::LocalAbstract.to_string(), "localabstract:");
    assert_eq!(NetworkType::Dev.to_string(), "dev:");
}

#[test]
fn test_network_type_from_str() {
    assert_eq!(NetworkType::from_str("tcp"), Some(NetworkType::Tcp));
    assert_eq!(
        NetworkType::from_str("localabstract"),
        Some(NetworkType::LocalAbstract)
    );
    assert_eq!(NetworkType::from_str("invalid"), None);
}

#[test]
fn test_adb_protocol_resp_data_type_as_str() {
    assert_eq!(AdbProtocolRespDataType::OKAY.as_str(), "OKAY");
    assert_eq!(AdbProtocolRespDataType::FAIL.as_str(), "FAIL");
    assert_eq!(AdbProtocolRespDataType::DATA.as_str(), "DATA");
    assert_eq!(AdbProtocolRespDataType::DONE.as_str(), "DONE");
    assert_eq!(AdbProtocolRespDataType::UNKNOWN.as_str(), "");
}

#[test]
fn network_type_parsing_ignores_case_and_maps_unix() {
    assert_eq!(NetworkType::from_str("TCP"), Some(NetworkType::Tcp));
    assert_eq!(NetworkType::from_str("Unix"), Some(NetworkType::LocalAbstract));
    assert_eq!(NetworkType::from_str("LocalFileSystem"), Some(NetworkType::LocalFileSystem));
    assert_eq!(NetworkType::from_lowercase("TCP"), None);
}

#[test]
fn every_network_prefix() {
    assert_eq!(NetworkType::Unix.as_str(), "localabstract:");
    assert_eq!(NetworkType::Local.as_str(), "local:");
    assert_eq!(NetworkType::LocalReserved.as_str(), "localreserved:");
    assert_eq!(NetworkType::LocalFileSystem.as_str(), "localfilesystem:");
}
