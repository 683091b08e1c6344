use sayonara_core::strategies::{AcpiSleep, KernelModule, PcieHotReset, VendorSpecific};
use sayonara_core::vendor::ControllerVendor;
use sayonara_core::vendor_steps::RunOutcome::{Failed, NotStarted, Succeeded};
use sayonara_core::vendor_steps::{RunOutcome, VendorAction, VendorProcedure};

#[test]
fn test_module_loaded_check() {
    let _strategy = KernelModule::new();
    // This test doesn't require root
    let _loaded = KernelModule::is_module_loaded("");
    // Just verify it doesn't crash
}

#[test]
fn test_pcie_extract_pci_address() {
    let _strategy = PcieHotReset::new();

    // Test valid PCI address extraction
    let path = "/sys/devices/pci0000:00/0000:00:1f.2/ata1/host0/target0:0:0/0:0:0:0";
    let result = PcieHotReset::extract_pci_address(path);

    // The regex should match the PCI address pattern
    if result.is_some() {
        let addr = result.unwrap();
        assert!(addr.contains(':'));
        assert!(addr.contains('.'));
        // Should be in format XXXX:XX:XX.X
        assert_eq!(addr, "0000:00:1f.2");
    } else {
        println!("PCI address extraction returned None (regex may not be available)");
    }

    // Test invalid path - should always return None
    let invalid_path = "/sys/devices/invalid/path";
    assert!(PcieHotReset::extract_pci_address(invalid_path).is_none());
}

#[test]
fn test_pcie_find_storage_controller() {
    let _strategy = PcieHotReset::new();

    // With no lspci output there is no controller; with one it must look
    // like a PCI address.
    let result = PcieHotReset::find_storage_controller_via_lspci("");
    if let Some(addr) = result {
        assert!(addr.contains(':'));
        assert!(addr.contains('.'));
    }
}

#[test]
fn test_acpi_sleep_s3_support_check() {
    let _strategy = AcpiSleep::new();

    // Test S3 support check (may vary by system)
    let supported = AcpiSleep::is_s3_supported(None);
    // Should return bool without panicking
    assert!(supported == true || supported == false);
}

#[test]
fn test_detect_vendor_logic() {
    let _strategy = VendorSpecific::new();

    // Test that detect_vendor doesn't crash
    let _ = VendorSpecific::detect_vendor(None, "");
}

#[test]
fn test_get_device_serial_format() {
    let _strategy = VendorSpecific::new();

    // Test that serial number extraction handles missing data gracefully
    let result = VendorSpecific::get_device_serial("");
    assert!(result.is_none() || result.is_some());
}

#[test]
fn test_dell_perc_disk_id_parsing() {
    let _strategy = VendorSpecific::new();

    // Test that disk ID generation doesn't crash
    let result = VendorSpecific::get_perc_physical_disk("", "");
    assert!(!result.is_empty());
}

#[test]
fn test_hp_array_id_format() {
    let _strategy = VendorSpecific::new();

    // Test HP array ID format parsing
    let id = VendorSpecific::get_hp_array_id("", "TEST123");
    // HP format should contain colons: "1I:1:1"
    assert!(id.contains(':') || id == "1I:1:1");
}

#[test]
fn test_lsi_disk_id_format() {
    let _strategy = VendorSpecific::new();

    // Test LSI disk ID format
    let id = VendorSpecific::get_lsi_disk_id("", "TEST123");
    // Should produce enclosure/slot format
    assert!(id.contains('/') || id.starts_with('e'));
}

#[test]
fn test_adaptec_disk_id_format() {
    let _strategy = VendorSpecific::new();

    // Test Adaptec disk ID format (channel device)
    let id = VendorSpecific::get_adaptec_disk_id("", "TEST123");
    // Should be "X Y" format
    let parts: Vec<&str> = id.split_whitespace().collect();
    assert!(parts.len() >= 2 || id == "0 0");
}

#[test]
fn test_intel_rst_controller_detection() {
    let _strategy = VendorSpecific::new();

    // Should always return a value (default if not found)
    let addr = VendorSpecific::find_intel_sata_controller("");
    // Should be PCI address format
    assert!(addr.contains(':') || addr.contains('.'));
}

#[test]
fn test_sata_host_detection() {
    let _strategy = VendorSpecific::new();

    // Test SATA host detection
    let host = VendorSpecific::sata_host_from_entry("2:0:0:0");
    assert!(host.starts_with("host"));
}

#[test]
fn test_vendor_detection_unknown_fallback() {
    let _strategy = VendorSpecific::new();

    // For a device no tool knows, the vendor is "Unknown"
    let vendor = VendorSpecific::detect_vendor(None, "");
    let name = VendorSpecific::vendor_name(vendor);
    assert!(!name.is_empty());
}

#[test]
fn pci_address_takes_all_function_digits() {
    assert_eq!(
        PcieHotReset::extract_pci_address("/x/0000:3b:00.10/y"),
        Some("0000:3b:00.10".to_string())
    );
    assert_eq!(PcieHotReset::extract_pci_address("00:1f.2"), None);
}

#[test]
fn storage_controller_skips_usb_and_bad_addresses() {
    let lspci = "0000:00:14.0 USB controller [0c03]: Intel SATA USB\n\
                 garbage SATA controller\n\
                 0000:00:17.0 SATA controller [0106]: Intel Corporation\n";
    assert_eq!(
        PcieHotReset::find_storage_controller_via_lspci(lspci),
        Some("0000:00:17.0".to_string())
    );
}

#[test]
fn s3_support_from_power_state() {
    assert!(AcpiSleep::is_s3_supported(Some("freeze mem disk\n")));
    assert!(!AcpiSleep::is_s3_supported(Some("freeze disk\n")));
}

#[test]
fn vendor_from_sysfs_then_lspci() {
    assert_eq!(VendorSpecific::detect_vendor(Some("  DELL \n"), ""), ControllerVendor::DellPerc);
    assert_eq!(VendorSpecific::detect_vendor(Some("ATA"), "RAID bus: Broadcom / LSI MegaRAID"), ControllerVendor::LsiMegaRaid);
    assert_eq!(VendorSpecific::detect_vendor(None, "Intel SATA AHCI"), ControllerVendor::IntelRst);
    assert_eq!(VendorSpecific::detect_vendor(None, "Adaptec"), ControllerVendor::Adaptec);
    assert_eq!(VendorSpecific::vendor_name(ControllerVendor::HpSmartArray), "HP SmartArray");
}

#[test]
fn serial_and_disk_ids_from_tool_output() {
    let info = "Device Model: X\nSerial Number:    S3Z1NB0K\n";
    assert_eq!(VendorSpecific::get_device_serial(info), Some("S3Z1NB0K".to_string()));
    let perc = "EID:Slt DID State\n252:3 5 Onln S3Z1NB0K\n";
    assert_eq!(VendorSpecific::get_perc_physical_disk(perc, "S3Z1NB0K"), "e252/s3");
    let hp = "physicaldrive 1I:1:2\n Serial Number: AAA\nphysicaldrive 2I:1:5\n Serial Number: S3Z1NB0K\n";
    assert_eq!(VendorSpecific::get_hp_array_id(hp, "S3Z1NB0K"), "2I:1:5");
    let lsi = "252:7 12 Onln 0 1.8 TB SATA HDD\n SN = S3Z1NB0K\n";
    assert_eq!(VendorSpecific::get_lsi_disk_id(lsi, "S3Z1NB0K"), "e252/s7");
    let arc = "Device #3\n Reported Channel,Device(T:L) : 0,3(3:0)\nChannel 1,\nDevice 4,\nSerial number S3Z1NB0K\n";
    assert_eq!(VendorSpecific::get_adaptec_disk_id(arc, "S3Z1NB0K"), "1 4");
    let pci = "0000:00:02.0 VGA\n0000:00:1f.2 SATA controller [0106]: Intel Corporation [8086:a102]\n";
    assert_eq!(VendorSpecific::find_intel_sata_controller(pci), "0000:00:1f.2");
}

#[test]
fn kernel_module_log_and_build() {
    assert!(KernelModule::is_module_loaded("ata_unfreeze  16384  0\n"));
    let log = "[1] ata_unfreeze: loaded\n[2] other\n[3] ata_unfreeze: Successfully unfrozen ata1\n";
    assert!(KernelModule::check_module_output(log));
    assert!(!KernelModule::check_module_output("[1] ata_unfreeze: loaded\n"));
    let mut old = String::from("[0] ata_unfreeze: Unfroze ata1\n");
    for _ in 0..5 {
        old.push_str("[x] ata_unfreeze: idle\n");
    }
    assert!(!KernelModule::check_module_output(&old));
    assert_eq!(KernelModule::make_args_for(8), vec!["-j", "8"]);
    assert_eq!(KernelModule::make_args()[0], "-j");
    assert_eq!(
        KernelModule::module_source_dir("/w", true, true),
        Ok("/w/src/drives/freeze/kernel_module".to_string())
    );
    assert_eq!(
        KernelModule::module_source_dir("/w", false, true),
        Ok("/usr/local/src/sayonara-wipe/kernel_module".to_string())
    );
    assert!(KernelModule::module_source_dir("/w", false, false).is_err());
}

fn drive(vendor: ControllerVendor, target: &str, outcomes: &[RunOutcome]) -> Vec<VendorAction> {
    let mut p = VendorProcedure::start(vendor, target);
    let mut acts = Vec::new();
    let mut last = RunOutcome::NotStarted;
    let mut k = 0;
    loop {
        let a = p.next(last, "1a2b\n");
        acts.push(a.clone());
        match a {
            VendorAction::Run(_, _) | VendorAction::RescanHost => {
                last = outcomes.get(k).copied().unwrap_or(RunOutcome::Failed);
                k += 1;
            }
            VendorAction::Sleep(_) => {}
            VendorAction::Finish(_) => break,
        }
        assert!(acts.len() < 102);
    }
    assert!(p.finished());
    acts
}

fn run_of(tool: &str, args: &[&str]) -> VendorAction {
    VendorAction::Run(tool.to_string(), args.iter().map(|a| a.to_string()).collect())
}

#[test]
fn dell_perc_jbod_route_when_jbod_succeeds() {
    let acts = drive(ControllerVendor::DellPerc, "e252/s0", &[Failed, Succeeded, Succeeded, Succeeded, Succeeded]);
    assert_eq!(
        acts,
        vec![
            run_of("percli", &["/c0/e252/s0", "stop", "initialization"]),
            VendorAction::Sleep(1),
            run_of("percli", &["/c0/e252/s0", "set", "jbod"]),
            VendorAction::Sleep(2),
            run_of("percli", &["/c0", "/fall", "delete"]),
            run_of("percli", &["/c0/e252/s0", "spindown"]),
            VendorAction::Sleep(2),
            run_of("percli", &["/c0/e252/s0", "spinup"]),
            VendorAction::Sleep(3),
            VendorAction::Finish(None),
        ]
    );
}

#[test]
fn dell_perc_fails_when_no_tool_runs() {
    let acts = drive(ControllerVendor::DellPerc, "e252/s0", &[NotStarted, NotStarted, NotStarted]);
    assert_eq!(acts.last(), Some(&VendorAction::Finish(Some("Dell PERC unfreeze failed".to_string()))));
    assert_eq!(acts[3], run_of("percli", &["/c0", "set", "cacheflushinterval=0"]));
}

#[test]
fn lsi_megaraid_falls_back_to_patrol_read() {
    let acts = drive(ControllerVendor::LsiMegaRaid, "e8/s3", &[Succeeded, Succeeded, Succeeded, Failed, Failed, Succeeded, Succeeded]);
    assert_eq!(
        acts,
        vec![
            run_of("storcli64", &["/c0", "stop", "bgi"]),
            run_of("storcli64", &["/c0", "/fall", "delete"]),
            run_of("storcli64", &["/c0/e8/s3", "set", "good", "force"]),
            run_of("storcli64", &["/c0/e8/s3", "spindown"]),
            run_of("megacli", &["-PdClear", "-Start", "-PhysDrv", "e8/s3", "-a0"]),
            run_of("storcli64", &["/c0", "set", "patrolread=stop"]),
            VendorAction::Sleep(1),
            run_of("storcli64", &["/c0", "set", "patrolread=start"]),
            VendorAction::Finish(None),
        ]
    );
}

#[test]
fn hp_smartarray_done_after_clearing_security() {
    let acts = drive(ControllerVendor::HpSmartArray, "1I:1:1", &[Succeeded]);
    assert_eq!(
        acts,
        vec![
            run_of("hpssacli", &["ctrl", "slot=0", "pd", "1I:1:1", "modify", "clearsecurity"]),
            VendorAction::Finish(None),
        ]
    );
    let acts = drive(ControllerVendor::HpSmartArray, "1I:1:1", &[Failed, Failed, Failed, NotStarted, NotStarted]);
    assert_eq!(acts.last(), Some(&VendorAction::Finish(Some("HP SmartArray unfreeze failed".to_string()))));
}

#[test]
fn adaptec_rescans_when_tasks_cannot_stop() {
    let acts = drive(ControllerVendor::Adaptec, "0 0", &[Failed, Failed, NotStarted, Failed]);
    assert_eq!(
        acts,
        vec![
            run_of("arcconf", &["setstate", "controller", "1", "device", "0 0", "state", "non-raid"]),
            run_of("arcconf", &["identify", "controller", "1", "device", "0 0", "time", "2"]),
            VendorAction::Sleep(3),
            run_of("arcconf", &["task", "stop", "controller", "1", "device", "0 0"]),
            run_of("arcconf", &["rescan", "controller", "1"]),
            VendorAction::Finish(None),
        ]
    );
}

#[test]
fn intel_rst_restores_the_map_register() {
    let acts = drive(ControllerVendor::IntelRst, "0000:00:1f.2", &[Succeeded, Succeeded, Succeeded]);
    assert_eq!(
        acts,
        vec![
            run_of("setpci", &["-s", "0000:00:1f.2", "0x90.w"]),
            run_of("setpci", &["-s", "0000:00:1f.2", "0x90.w=0x00"]),
            VendorAction::Sleep(2),
            run_of("setpci", &["-s", "0000:00:1f.2", "0x90.w=0x1a2b"]),
            VendorAction::Sleep(1),
            VendorAction::Finish(None),
        ]
    );
    let acts = drive(ControllerVendor::IntelRst, "00:1f.2", &[Succeeded, Failed, Failed, Failed]);
    assert_eq!(acts[2], run_of("which", &["rstcli64"]));
    assert_eq!(acts[3], VendorAction::RescanHost);
    assert_eq!(acts.last(), Some(&VendorAction::Finish(Some("Intel RST unfreeze failed".to_string()))));
}

#[test]
fn unknown_vendor_has_no_procedure() {
    let acts = drive(ControllerVendor::Unknown, "", &[]);
    assert_eq!(acts, vec![VendorAction::Finish(Some("Unknown or unsupported vendor".to_string()))]);
}
