use sayonara_core::detection::DriveDetector;
use sayonara_core::DriveType;

// Comprehensive tests for drive detection module
// Tests cover drive type detection, capability detection, encryption detection


#[test]
fn test_should_skip_device_loop() {
    assert!(DriveDetector::should_skip_device("loop0"));
    assert!(DriveDetector::should_skip_device("loop1"));
    assert!(DriveDetector::should_skip_device("loop99"));
}

#[test]
fn test_should_skip_device_ram() {
    assert!(DriveDetector::should_skip_device("ram0"));
    assert!(DriveDetector::should_skip_device("ram1"));
}

#[test]
fn test_should_skip_device_dm() {
    assert!(DriveDetector::should_skip_device("dm-0"));
    assert!(DriveDetector::should_skip_device("dm-1"));
    assert!(DriveDetector::should_skip_device("dm-99"));
}

#[test]
fn test_should_skip_device_cdrom() {
    assert!(DriveDetector::should_skip_device("sr0"));
    assert!(DriveDetector::should_skip_device("sr1"));
}

#[test]
fn test_should_skip_device_zram() {
    assert!(DriveDetector::should_skip_device("zram0"));
    assert!(DriveDetector::should_skip_device("zram1"));
}

#[test]
fn test_should_not_skip_physical_drives() {
    assert!(!DriveDetector::should_skip_device("sda"));
    assert!(!DriveDetector::should_skip_device("sdb"));
    assert!(!DriveDetector::should_skip_device("nvme0n1"));
    assert!(!DriveDetector::should_skip_device("hda"));
    assert!(!DriveDetector::should_skip_device("vda"));
}

#[test]
fn test_extract_field_present() {
    let output = "Device Model:     Samsung SSD 860\nSerial Number:    S3Z9NB0K123456";

    let model = DriveDetector::extract_field(output, "Device Model:");
    assert_eq!(model, Some("Samsung SSD 860".to_string()));

    let serial = DriveDetector::extract_field(output, "Serial Number:");
    assert_eq!(serial, Some("S3Z9NB0K123456".to_string()));
}

#[test]
fn test_extract_field_missing() {
    let output = "Device Model:     Samsung SSD 860\nSerial Number:    S3Z9NB0K123456";

    let missing = DriveDetector::extract_field(output, "Missing Field:");
    assert_eq!(missing, None);
}

#[test]
fn test_extract_field_whitespace_handling() {
    let output = "Device Model:        Samsung SSD 860    \n";

    let model = DriveDetector::extract_field(output, "Device Model:");
    assert_eq!(model, Some("Samsung SSD 860".to_string()));
}

#[test]
fn test_extract_field_alternate_format() {
    let output = "Model Number:     WD Blue 1TB\n";

    let model = DriveDetector::extract_field(output, "Model Number:");
    assert_eq!(model, Some("WD Blue 1TB".to_string()));
}

#[test]
fn test_determine_drive_type_nvme() -> Result<(), sayonara_core::DriveError> {
    let output = "Model Number: Samsung 970 EVO\n";

    let drive_type = DriveDetector::determine_drive_type("/dev/nvme0n1", output, false, false)?;
    assert_eq!(drive_type, DriveType::NVMe);

    Ok(())
}

#[test]
fn test_determine_drive_type_ssd_from_rotation() -> Result<(), sayonara_core::DriveError> {
    let output = "Rotation Rate:    Solid State Device\n";

    let drive_type = DriveDetector::determine_drive_type("/dev/sda", output, false, false)?;
    assert_eq!(drive_type, DriveType::SSD);

    Ok(())
}

#[test]
fn test_determine_drive_type_ssd_from_zero_rpm() -> Result<(), sayonara_core::DriveError> {
    let output = "Rotation Rate:    0 rpm\n";

    let drive_type = DriveDetector::determine_drive_type("/dev/sda", output, false, false)?;
    assert_eq!(drive_type, DriveType::SSD);

    Ok(())
}

#[test]
fn test_determine_drive_type_hdd_from_rpm() -> Result<(), sayonara_core::DriveError> {
    // Note: avoid rpm values containing "0" due to contains("0 rpm") check
    let output = "Rotation Rate:    5433 rpm\n";

    // Use non-existent device to avoid filesystem checks
    let drive_type = DriveDetector::determine_drive_type("/dev/test_hdd_device_fake", output, false, false)?;
    assert_eq!(drive_type, DriveType::HDD);

    Ok(())
}

#[test]
fn test_determine_drive_type_ssd_from_keyword() -> Result<(), sayonara_core::DriveError> {
    let output = "Device Model:     Samsung SSD 860\n";

    let drive_type = DriveDetector::determine_drive_type("/dev/sda", output, false, false)?;
    assert_eq!(drive_type, DriveType::SSD);

    Ok(())
}

#[test]
fn test_determine_drive_type_hdd_from_rpm_keyword() -> Result<(), sayonara_core::DriveError> {
    let output = "Device Model:     WD Blue 1TB\nSome line with 5400 rpm\n";

    // Use non-existent device
    let drive_type = DriveDetector::determine_drive_type("/dev/test_hdd_rpm_fake", output, false, false)?;
    assert_eq!(drive_type, DriveType::HDD);

    Ok(())
}

#[test]
fn test_determine_drive_type_unknown() -> Result<(), sayonara_core::DriveError> {
    let output = "Device Model:     Generic Drive\n";

    let drive_type = DriveDetector::determine_drive_type("/dev/sdc", output, false, false)?;
    assert_eq!(drive_type, DriveType::Unknown);

    Ok(())
}







#[test]
fn test_extract_field_multiple_colons() {
    let output = "Model: Samsung: SSD 860\n";
    let model = DriveDetector::extract_field(output, "Model:");
    // Should get everything after first colon
    assert!(model.is_some());
}

#[test]
fn test_extract_field_empty_value() {
    let output = "Model:\n";
    let model = DriveDetector::extract_field(output, "Model:");
    assert_eq!(model, Some("".to_string()));
}

#[test]
fn test_drive_type_detection_priority() -> Result<(), sayonara_core::DriveError> {
    // NVMe path should override other indicators
    let output = "Rotation Rate: 7200 rpm\n";
    let drive_type = DriveDetector::determine_drive_type("/dev/nvme0n1", output, false, false)?;
    assert_eq!(drive_type, DriveType::NVMe, "NVMe path should take priority");

    Ok(())
}


#[test]
fn test_bitlocker_signature_detection() {
    // Test BitLocker signature detection logic
    let mut buffer = vec![0u8; 512];

    // Insert BitLocker signature "-FVE-FS-" at offset 3
    let signature = b"-FVE-FS-";
    buffer[3..3 + signature.len()].copy_from_slice(signature);

    // Check if signature can be found
    let found = buffer.windows(signature.len()).any(|w| w == signature);
    assert!(found, "BitLocker signature should be detected");
}

#[test]
fn test_filevault_signature_detection() {
    // Test Core Storage signature
    let mut buffer = vec![0u8; 4096];
    let cs_sig = b"CS\x00\x00\x00\x00\x00\x00";
    buffer[512..512 + cs_sig.len()].copy_from_slice(cs_sig);

    let found = buffer.windows(8).any(|w| w == cs_sig);
    assert!(found, "Core Storage signature should be detected");

    // Test APFS signature
    let mut buffer2 = vec![0u8; 4096];
    let apfs_sig = b"NXSB\x00\x00\x00\x00";
    buffer2[1024..1024 + apfs_sig.len()].copy_from_slice(apfs_sig);

    let found2 = buffer2.windows(8).any(|w| w == apfs_sig);
    assert!(found2, "APFS signature should be detected");
}


#[test]
fn test_device_path_patterns() {
    // Test various device path patterns
    let nvme_paths = vec!["/dev/nvme0n1", "/dev/nvme1n1", "/dev/nvme0n2"];
    for path in nvme_paths {
        assert!(path.contains("nvme"), "NVMe paths should contain 'nvme'");
    }

    let sata_paths = vec!["/dev/sda", "/dev/sdb", "/dev/sdc"];
    for path in sata_paths {
        assert!(!path.contains("nvme"), "SATA paths should not contain 'nvme'");
    }
}

#[test]
fn test_smartctl_output_parsing_hdd() {
    let smartctl_output = r#"
Model Family:     Seagate Barracuda 7200.14
Device Model:     ST1000DM003-1CH162
Serial Number:    Z1D9N8HN
Firmware Version: CC44
User Capacity:    1,000,204,886,016 bytes [1.00 TB]
Sector Size:      512 bytes logical/physical
Rotation Rate:    7199 rpm
Device is:        In smartctl database
ATA Version is:   ACS-2, ACS-3 T13/2161-D revision 3b
"#;

    // Test model extraction
    let model = DriveDetector::extract_field(smartctl_output, "Device Model:");
    assert_eq!(model, Some("ST1000DM003-1CH162".to_string()));

    // Test serial extraction
    let serial = DriveDetector::extract_field(smartctl_output, "Serial Number:");
    assert_eq!(serial, Some("Z1D9N8HN".to_string()));

    // Test drive type detection - use non-existent device path
    // Note: using 7199 rpm instead of 7200 rpm to avoid "0 rpm" substring match bug
    let drive_type = DriveDetector::determine_drive_type("/dev/test_seagate_fake", smartctl_output, false, false).unwrap();
    assert_eq!(drive_type, DriveType::HDD);
}

#[test]
fn test_smartctl_output_parsing_ssd() {
    let smartctl_output = r#"
Model Family:     Samsung based SSDs
Device Model:     Samsung SSD 860 EVO 500GB
Serial Number:    S3Z9NB0K123456
Firmware Version: RVT02B6Q
User Capacity:    500,107,862,016 bytes [500 GB]
Sector Size:      512 bytes logical, 4096 bytes physical
Rotation Rate:    Solid State Device
Device is:        In smartctl database
ATA Version is:   ACS-4 T13/BSR INCITS 529 revision 5
"#;

    let model = DriveDetector::extract_field(smartctl_output, "Device Model:");
    assert_eq!(model, Some("Samsung SSD 860 EVO 500GB".to_string()));

    let drive_type = DriveDetector::determine_drive_type("/dev/sdb", smartctl_output, false, false).unwrap();
    assert_eq!(drive_type, DriveType::SSD);
}

#[test]
fn test_smartctl_output_parsing_nvme() {
    let smartctl_output = r#"
Model Number:     Samsung SSD 970 EVO 1TB
Serial Number:    S5H9NS0N123456
Firmware Version: 2B2QEXE7
PCI Vendor/Subsystem ID: 0x144d
IEEE OUI Identifier: 0x002538
Total NVM Capacity: 1,000,204,886,016 [1.00 TB]
Unallocated NVM Capacity: 0
Controller ID: 4
"#;

    let model = DriveDetector::extract_field(smartctl_output, "Model Number:");
    assert_eq!(model, Some("Samsung SSD 970 EVO 1TB".to_string()));

    let drive_type = DriveDetector::determine_drive_type("/dev/nvme0n1", smartctl_output, false, false).unwrap();
    assert_eq!(drive_type, DriveType::NVMe);
}


#[test]
fn test_device_skip_edge_cases() {
    // Test edge cases
    assert!(!DriveDetector::should_skip_device(""), "Empty string should not skip");
    assert!(!DriveDetector::should_skip_device("sd"), "Partial name should not skip");
    assert!(!DriveDetector::should_skip_device("sda"), "Real device name should not skip");
    assert!(DriveDetector::should_skip_device("loop"), "Exact match should skip");
    assert!(DriveDetector::should_skip_device("loops"), "starts_with loop - should skip");
    assert!(DriveDetector::should_skip_device("loopback"), "starts_with loop - should skip");
    assert!(!DriveDetector::should_skip_device("nvme0n1"), "NVMe device should not skip");
    assert!(!DriveDetector::should_skip_device("myloop"), "loop not at start - should not skip");
}


#[test]
fn nonzero_rotation_rates_are_hdds() {
    for rate in ["7200", "5400", "10000", "15000", "5433"] {
        let out = format!("Rotation Rate:    {} rpm\n", rate);
        assert_eq!(DriveDetector::determine_drive_type("/dev/sda", &out, false, false), Ok(DriveType::HDD), "{}", rate);
    }
    assert_eq!(
        DriveDetector::determine_drive_type("/dev/sda", "Rotation Rate:    0 rpm\n", false, false),
        Ok(DriveType::SSD)
    );
    assert_eq!(
        DriveDetector::determine_drive_type("/dev/sda", "Rotation Rate:    Solid State Device\n", false, false),
        Ok(DriveType::SSD)
    );
    assert_eq!(DriveDetector::rotation_rate_of("Model: X\nRotation Rate:    7200 rpm\n"), Some(7200));
    assert_eq!(DriveDetector::rotation_rate_of("Rotation Rate:    Solid State Device\n"), None);
    assert!(!DriveDetector::reports_solid_state("Rotation Rate: 10000 rpm\n"));
}
