use sayonara_core::emmc::{EMMCDevice, EmmcErase, UFSDevice};
use sayonara_core::hybrid::{CacheDisableRoute, HybridDrive, PinnedRegion};
use sayonara_core::optane::{NamespaceWipe, OptaneDrive, OptaneMode, OptaneNamespace};
use sayonara_core::zoned::ZoneModel;

#[test]
fn test_pinned_region_creation() {
    let region = PinnedRegion {
        start_lba: 0,
        length: 63,
        pinned_by: "Firmware".to_string(),
    };

    assert_eq!(region.start_lba, 0);
    assert_eq!(region.length, 63);
}

#[test]
fn test_optane_modes() {
    assert_ne!(OptaneMode::BlockMode, OptaneMode::PersistentMemory);
    assert_ne!(OptaneMode::AppDirect, OptaneMode::MemoryMode);
}

#[test]
fn test_random_pattern_generation() {
    let pattern = OptaneDrive::random_pattern(1024);
    assert_eq!(pattern.len(), 1024);

    // Should not be all same byte
    let first = pattern[0];
    let all_same = pattern.iter().all(|&b| b == first);
    assert!(!all_same, "Random pattern should not be uniform");
}

#[test]
fn test_zone_model_detection() {
    // Test that zone models are correctly identified
    assert!(ZoneModel::HostManaged != ZoneModel::HostAware);
}

const SSHD_REPORT: &str = "Model Family:     Seagate Laptop SSHD\n\
Device Model:     ST1000LM014-1EJ164\n\
User Capacity:    1,000,204,886,016 bytes [1.00 TB]\n\
Rotation Rate:    5400 rpm\n\
NAND cache: 8 GB\n";

#[test]
fn hybrid_detected_from_report() {
    assert!(HybridDrive::detect(SSHD_REPORT));
    assert!(HybridDrive::detect("Rotation Rate: 7200 rpm\nNAND flash"));
    assert!(!HybridDrive::detect("Rotation Rate: 7200 rpm\n"));
}

#[test]
fn hybrid_capacity_reads_bracket_word_without_commas() {
    let r = "User Capacity:    500,107,862,016 bytes [500,107,862,016 x]\n";
    assert_eq!(HybridDrive::parse_capacity(r), 500_107_862_016);
    // Without a bracket the line gives nothing and the default is 0.
    assert_eq!(HybridDrive::parse_capacity("User Capacity: 12 bytes"), 0);
}

#[test]
fn hybrid_rpm_and_defaults() {
    assert_eq!(HybridDrive::parse_rpm("Rotation Rate:    7200 rpm"), 7200);
    assert_eq!(HybridDrive::parse_rpm("Rotation Rate: Solid State Device"), 5400);
    assert_eq!(HybridDrive::parse_rpm(""), 5400);
}

#[test]
fn hybrid_cache_size_by_digits() {
    let gib: u64 = 1024 * 1024 * 1024;
    assert_eq!(HybridDrive::parse_cache_size("NAND cache: 16 GB"), 16 * gib);
    assert_eq!(HybridDrive::parse_cache_size("SSD Cache 32GB"), 32 * gib);
    assert_eq!(HybridDrive::parse_cache_size("Cache: 128 MB"), 8 * gib);
    assert_eq!(HybridDrive::parse_cache_size("nothing here"), 8 * gib);
}

#[test]
fn hybrid_manufacturer_from_family() {
    assert_eq!(HybridDrive::parse_manufacturer(SSHD_REPORT), "Seagate Laptop SSHD");
    assert_eq!(HybridDrive::parse_manufacturer("no vendor"), "Unknown");
}

#[test]
fn hybrid_configuration_and_pinning() {
    let mut d = HybridDrive::get_configuration("/dev/sdb", SSHD_REPORT);
    assert_eq!(d.device_path, "/dev/sdb");
    assert_eq!(d.hdd_portion.capacity, 0);
    assert_eq!(d.hdd_portion.rpm, 5400);
    assert_eq!(d.ssd_cache.cache_size, 8 * 1024 * 1024 * 1024);
    assert!(!d.ssd_cache.is_pinned_data_present);
    assert!(!d.needs_unpin());
    d.detect_pinned_data();
    assert_eq!(d.pinned_data.len(), 1);
    assert_eq!(d.pinned_data[0].length, 63);
    assert_eq!(d.pinned_data[0].pinned_by, "Firmware");
    assert!(d.needs_unpin());
    assert_eq!(d.cache_disable_route(), CacheDisableRoute::Generic);
    d.manufacturer = "Seagate".to_string();
    assert_eq!(d.cache_disable_route(), CacheDisableRoute::Seagate);
    d.manufacturer = "WDC".to_string();
    assert_eq!(d.cache_disable_route(), CacheDisableRoute::WesternDigital);
}

#[test]
fn optane_detection_sources() {
    assert!(OptaneDrive::detect("/dev/sda", Some("Vendor: Intel\nModel: Optane SSD 900P"), None));
    assert!(!OptaneDrive::detect("/dev/sda", Some("Model: Optane"), None));
    assert!(OptaneDrive::detect("/dev/nvme0", None, Some("mn : INTEL SSDPF21Q400GB")));
    assert!(!OptaneDrive::detect("/dev/sda", None, Some("mn : INTEL SSDPF21Q400GB")));
    assert!(OptaneDrive::detect("/dev/pmem0", None, None));
}

#[test]
fn optane_namespaces_from_list_ns() {
    let ns = OptaneDrive::enumerate_namespaces("/dev/nvme0", Some("[   0]:0x1\nns2 extra\nnsns3\nfoo\n"), None)
        .unwrap();
    assert_eq!(ns.len(), 2);
    assert_eq!(ns[0].nsid, 2);
    assert_eq!(ns[0].device_path, "/dev/nvme0n2");
    assert_eq!(ns[1].nsid, 3);
    assert_eq!(ns[1].mode, OptaneMode::BlockMode);
}

#[test]
fn optane_namespaces_defaults_and_pmem() {
    let ns = OptaneDrive::enumerate_namespaces("/dev/nvme0", None, None).unwrap();
    assert_eq!(ns.len(), 1);
    assert_eq!(ns[0].nsid, 1);
    let p = OptaneDrive::enumerate_namespaces("/dev/pmem0", None, Some(4096)).unwrap();
    assert_eq!(p[0].mode, OptaneMode::PersistentMemory);
    assert_eq!(p[0].capacity, 4096);
    assert!(OptaneDrive::enumerate_namespaces("/dev/pmem0", None, None).is_err());
}

#[test]
fn optane_pmem_size_in_bytes() {
    assert_eq!(OptaneDrive::get_pmem_size(Some("8\n")), Some(4096));
    assert_eq!(OptaneDrive::get_pmem_size(Some("x")), None);
    assert_eq!(OptaneDrive::get_pmem_size(None), None);
}

#[test]
fn optane_configuration_and_plan() {
    let d = OptaneDrive::get_configuration(
        "/dev/nvme0",
        Some("Intel Optane DC P4800X"),
        Some("Crypto Erase Supported"),
        Some("ns1\n"),
        None,
    )
    .unwrap();
    assert!(d.supports_ise);
    assert!(!d.is_pmem);
    assert_eq!(d.generation, "Optane DC P4800X (1st Gen)");
    assert_eq!(d.total_capacity, 0);
    assert!(d.wipe_plan().is_none());
    assert!(d.ise_precheck().is_ok());
    let cmds = d.ise_commands();
    assert_eq!(cmds[0], vec!["format", "/dev/nvme0", "-s", "2"]);
    assert_eq!(cmds[1], vec!["sanitize", "/dev/nvme0", "-a", "2"]);

    let p = OptaneDrive::get_configuration("/dev/pmem0", None, None, None, Some(1 << 20)).unwrap();
    assert_eq!(p.total_capacity, 1 << 20);
    assert_eq!(p.generation, "Unknown 3D XPoint");
    assert_eq!(p.wipe_plan(), Some(vec![NamespaceWipe::ZeroPmem]));
    assert_eq!(
        p.ise_precheck(),
        Err("Device does not support Instant Secure Erase".to_string())
    );
    assert_eq!(p.overwrite_chunks(), vec![(0, 1 << 20)]);
}

#[test]
fn optane_pmem_precheck() {
    let ns = OptaneNamespace {
        nsid: 1,
        capacity: 0,
        mode: OptaneMode::BlockMode,
        device_path: "/dev/nvme0n1".to_string(),
        is_healthy: true,
    };
    assert_eq!(
        OptaneDrive::pmem_precheck(&ns),
        Err("Namespace is not in persistent memory mode".to_string())
    );
}

#[test]
fn optane_overwrite_chunk_fills_tail_with_first_byte() {
    let d = OptaneDrive::overwrite_chunk(&vec![1u8, 2, 3], 7);
    assert_eq!(d, vec![1, 2, 3, 1, 2, 3, 1]);
    let d = OptaneDrive::overwrite_chunk(&vec![9u8, 8], 5);
    assert_eq!(d, vec![9, 8, 9, 8, 9]);
    let pats = OptaneDrive::overwrite_patterns_with(vec![7u8; 4096]);
    assert_eq!(pats.len(), 5);
    assert_eq!(pats[2][0], 0xAA);
    assert_eq!(pats[3][4095], 0x55);
}

#[test]
fn emmc_detection_and_layout() {
    assert!(EMMCDevice::detect("/dev/mmcblk0", false));
    assert!(EMMCDevice::detect("/dev/sdz", true));
    assert!(!EMMCDevice::detect("/dev/sdz", false));
    let d = EMMCDevice::get_configuration("/dev/mmcblk0");
    assert_eq!(d.boot_partitions.len(), 2);
    assert_eq!(d.boot_partition_paths(), vec!["/dev/mmcblk0boot1", "/dev/mmcblk0boot2"]);
    assert_eq!(d.rpmb_summary(), Some((128, false)));
    assert_eq!(d.emmc_version, "5.1");
    assert_eq!(
        EMMCDevice::erase_order(),
        vec![EmmcErase::Sanitize, EmmcErase::SecureErase, EmmcErase::Trim]
    );
    assert!(!EMMCDevice::wipes_boot_partitions_after(EmmcErase::Sanitize));
    assert!(EMMCDevice::wipes_boot_partitions_after(EmmcErase::Trim));
}

#[test]
fn ufs_detection() {
    assert!(UFSDevice::detect(Some("Vendor: SAMSUNG UFS 3.1")));
    assert!(!UFSDevice::detect(Some("ATA disk")));
    assert!(!UFSDevice::detect(None));
}
