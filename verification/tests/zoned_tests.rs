use sayonara_core::nvme::{NVMeAdvanced, NamespaceType, ZNSZone, ZNSZoneState};
use sayonara_core::zoned::{Zone, ZoneCondition, ZoneType};

#[test]
fn test_zns_zone_needs_reset() {
    let zone = ZNSZone {
        zone_id: 0,
        zone_start_lba: 0,
        zone_capacity: 1000,
        write_pointer: 0,
        zone_state: ZNSZoneState::Full,
        is_sequential: true,
    };

    assert!(zone.needs_reset());
}

#[test]
fn test_namespace_types() {
    assert_ne!(NamespaceType::Block, NamespaceType::ZonedNamespace);
    assert_ne!(NamespaceType::KeyValue, NamespaceType::Computational);
}

#[test]
fn test_extract_controller_path() {
    let ctrl = NVMeAdvanced::extract_controller_path("/dev/nvme0n1");
    assert_eq!(ctrl, "/dev/nvme0");

    let ctrl2 = NVMeAdvanced::extract_controller_path("/dev/nvme1n5");
    assert_eq!(ctrl2, "/dev/nvme1");
}
#[test]
fn test_zone_needs_reset() {
    let zone = Zone {
        zone_number: 0,
        zone_type: ZoneType::SequentialWriteRequired,
        write_pointer: 0,
        zone_start_lba: 0,
        zone_size: 256 * 1024 * 1024,
        zone_condition: ZoneCondition::Full,
        zone_length: 0,
    };

    assert!(zone.needs_reset());
}

#[test]
fn test_zone_is_writable() {
    let zone = Zone {
        zone_number: 0,
        zone_type: ZoneType::SequentialWriteRequired,
        write_pointer: 0,
        zone_start_lba: 0,
        zone_size: 256 * 1024 * 1024,
        zone_condition: ZoneCondition::Empty,
        zone_length: 0,
    };

    assert!(zone.is_writable());
}
