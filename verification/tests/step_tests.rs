use sayonara_core::algorithms::ZeroWipe;
use sayonara_core::certificates::CertificateGenerator;
use sayonara_core::drbg::ContinuousTest;
use sayonara_core::freeze::{FreezeDetector, FreezeMitigation, FreezeProbe, FreezeReason, ProbeStep};
use sayonara_core::mitigation::AttemptOutcome;
use sayonara_core::nvme::{NVMeAdvanced, NVMeNamespace, NamespaceType, ZNSZone, ZNSZoneState};
use sayonara_core::zoned::{SMRDrive, Zone, ZoneCondition, ZoneModel, ZoneType};
use sayonara_core::{DriveError, FreezeStatus};

fn zone(n: u32, ty: ZoneType) -> Zone {
    Zone {
        zone_number: n,
        zone_type: ty,
        write_pointer: 0,
        zone_start_lba: n as u64 * 1000,
        zone_size: 1000,
        zone_condition: ZoneCondition::Empty,
        zone_length: 1000,
    }
}

#[test]
fn no_zones_is_refused_with_its_message() {
    let r = SMRDrive::get_zone_configuration("/dev/sda", ZoneModel::HostManaged, Vec::new());
    match r {
        Err(DriveError::HardwareCommandFailed(m)) => assert_eq!(m, "No zones found on device"),
        other => panic!("unexpected {:?}", other),
    }
}

#[test]
fn reset_of_a_missing_zone_names_it() {
    let drive = SMRDrive::get_zone_configuration(
        "/dev/sda",
        ZoneModel::HostManaged,
        vec![zone(0, ZoneType::Conventional), zone(1, ZoneType::SequentialWriteRequired)],
    )
    .unwrap();
    match drive.reset_zone(5) {
        Err(DriveError::HardwareCommandFailed(m)) => assert_eq!(m, "Invalid zone number: 5"),
        other => panic!("unexpected {:?}", other),
    }
    match drive.reset_zone(17) {
        Err(DriveError::HardwareCommandFailed(m)) => assert_eq!(m, "Invalid zone number: 17"),
        other => panic!("unexpected {:?}", other),
    }
    assert_eq!(drive.reset_zone(0).unwrap(), None);
    assert_eq!(drive.reset_zone(1).unwrap(), Some(1000));
}

fn zns_zone(id: u32, sequential: bool) -> ZNSZone {
    ZNSZone {
        zone_id: id,
        zone_start_lba: id as u64 * 100,
        zone_capacity: 100,
        write_pointer: 0,
        zone_state: ZNSZoneState::Full,
        is_sequential: sequential,
    }
}

fn namespace(ty: NamespaceType, zones: Option<Vec<ZNSZone>>) -> NVMeNamespace {
    NVMeNamespace {
        nsid: 1,
        size: 1 << 20,
        namespace_type: ty,
        device_path: "/dev/nvme0n1".to_string(),
        is_active: true,
        is_attached: true,
        zones,
    }
}

#[test]
fn zns_reset_resets_sequential_zones_in_order() {
    let ns = namespace(
        NamespaceType::ZonedNamespace,
        Some(vec![zns_zone(3, true), zns_zone(4, false), zns_zone(7, true)]),
    );
    assert_eq!(NVMeAdvanced::zns_reset_plan(&ns).unwrap(), vec![3, 7]);
    let none = namespace(NamespaceType::ZonedNamespace, None);
    assert!(NVMeAdvanced::zns_reset_plan(&none).unwrap().is_empty());
}

#[test]
fn zns_reset_refuses_a_namespace_that_is_not_zoned() {
    let ns = namespace(NamespaceType::Block, Some(vec![zns_zone(0, false), zns_zone(1, true)]));
    match NVMeAdvanced::zns_reset_plan(&ns) {
        Err(DriveError::HardwareCommandFailed(m)) => assert_eq!(m, "Not a ZNS namespace"),
        other => panic!("unexpected {:?}", other),
    }
    let quiet = namespace(NamespaceType::Block, Some(vec![zns_zone(0, false)]));
    assert!(NVMeAdvanced::zns_reset_plan(&quiet).unwrap().is_empty());
}

#[test]
fn zero_check_finds_any_nonzero_byte() {
    assert!(ZeroWipe::is_all_zero(&[0u8; 4096]));
    assert!(ZeroWipe::is_all_zero(&[]));
    let mut data = vec![0u8; 4096];
    data[4095] = 1;
    assert!(!ZeroWipe::is_all_zero(&data));
    data[4095] = 0;
    data[0] = 0x80;
    assert!(!ZeroWipe::is_all_zero(&data));
}

fn run_probes(findings: [bool; 4]) -> (FreezeReason, usize) {
    let mut probe = FreezeDetector::first_probe();
    let mut ran = 0;
    loop {
        let found = match probe {
            FreezeProbe::RaidMembership => findings[0],
            FreezeProbe::BiosFreeze => findings[1],
            FreezeProbe::ControllerPolicy => findings[2],
            FreezeProbe::OsSecurity => findings[3],
        };
        ran += 1;
        match FreezeDetector::after_probe(probe, found) {
            ProbeStep::Run(next) => probe = next,
            ProbeStep::Decided(r) => return (r, ran),
        }
    }
}

#[test]
fn first_deciding_probe_ends_the_search() {
    assert_eq!(run_probes([true, true, true, true]), (FreezeReason::RaidController, 1));
    assert_eq!(run_probes([false, true, true, true]), (FreezeReason::BiosSetFrozen, 2));
    assert_eq!(run_probes([false, false, true, true]), (FreezeReason::ControllerPolicy, 3));
    assert_eq!(run_probes([false, false, false, true]), (FreezeReason::OsSecurity, 4));
    assert_eq!(run_probes([false, false, false, false]), (FreezeReason::Unknown, 4));
}

#[test]
fn controller_probe_needs_a_freezing_controller() {
    assert!(FreezeDetector::controller_probe_finding(Some("Intel RST")));
    assert!(FreezeDetector::controller_probe_finding(Some("LSI MegaRAID")));
    assert!(!FreezeDetector::controller_probe_finding(Some("AHCI")));
    assert!(!FreezeDetector::controller_probe_finding(None));
}

#[test]
fn basic_methods_stop_once_the_drive_reads_not_frozen() {
    assert_eq!(FreezeMitigation::after_method("/dev/sda", 0, Some(FreezeStatus::NotFrozen)), Some(Ok(())));
    assert_eq!(FreezeMitigation::after_method("/dev/sda", 3, Some(FreezeStatus::NotFrozen)), Some(Ok(())));
    assert_eq!(FreezeMitigation::after_method("/dev/sda", 0, Some(FreezeStatus::Frozen)), None);
    assert_eq!(FreezeMitigation::after_method("/dev/sda", 2, None), None);
    match FreezeMitigation::after_method("/dev/sda", 3, None) {
        Some(Err(DriveError::DriveFrozen(m))) => {
            assert_eq!(m, "Failed to unfreeze drive /dev/sda after trying all methods")
        }
        other => panic!("unexpected {:?}", other),
    }
}

#[test]
fn repeated_block_fails_right_after_it_passed() {
    let mut t = ContinuousTest::new();
    let a: Vec<u8> = (0u8..32).collect();
    let mut b: Vec<u8> = (0u8..16).collect();
    b.extend_from_slice(&[0xAA; 8]);
    assert!(t.test(&a));
    assert!(!t.test(&b));
    assert_eq!(t.failure_count(), 1);
}

#[test]
fn signed_payload_round_trips() {
    let g = CertificateGenerator::new();
    let payload = r#"{"certificate_id":"x","signature":""}"#;
    let sig = g.sign_payload(payload);
    assert_eq!(sig.len(), 64);
    assert!(g.signature_matches(payload, &sig));
    assert!(!g.signature_matches(r#"{"certificate_id":"y","signature":""}"#, &sig));
}

#[test]
fn strategy_counts_as_unfreezing_only_when_status_reads_not_frozen() {
    match AttemptOutcome::after_run(Some("slow".to_string()), FreezeStatus::NotFrozen) {
        AttemptOutcome::Ran { warning, unfrozen } => {
            assert_eq!(warning, Some("slow".to_string()));
            assert!(unfrozen);
        }
        AttemptOutcome::Failed(_) => panic!("unexpected failure"),
    }
    for status in [FreezeStatus::Frozen, FreezeStatus::FrozenByBIOS, FreezeStatus::SecurityLocked] {
        match AttemptOutcome::after_run(None, status) {
            AttemptOutcome::Ran { warning, unfrozen } => {
                assert_eq!(warning, None);
                assert!(!unfrozen);
            }
            AttemptOutcome::Failed(_) => panic!("unexpected failure"),
        }
    }
}
