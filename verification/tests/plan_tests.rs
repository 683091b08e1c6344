use sayonara_core::algorithms::{remaining_passes, checkpoint_after, DoDWipe, GutmannWipe};
use sayonara_core::drbg::HmacDrbg;
use sayonara_core::erase::{HDDWipe, NVMeWipe, SSDWipe};
use sayonara_core::integrated::{
    format_namespace_args, nvme_wipe_plan, three_pass_algorithms, NamespaceStep, WipeAlgorithm,
};
use sayonara_core::nvme::{NVMeAdvanced, NVMeNamespace, NamespaceType};
use sayonara_core::rng::{RngError, SecureRNG};
use sayonara_core::sed::{CryptoEraseMethod, SEDInfo, SEDManager};
use sayonara_core::smart::{CoolingAction, SMARTMonitor, SelfTestResult, TemperatureMonitor};
use sayonara_core::strategies::SataLinkReset;
use sayonara_core::trim::TrimOperations;
use sayonara_core::{DriveError, SEDType};

#[test]
fn resumed_passes_start_at_the_checkpoint() {
    assert_eq!(DoDWipe::remaining_passes(0), vec![0, 1, 2]);
    assert_eq!(DoDWipe::remaining_passes(2), vec![2]);
    assert!(DoDWipe::remaining_passes(3).is_empty());
    assert!(DoDWipe::remaining_passes(7).is_empty());
    let g = GutmannWipe::remaining_passes(30);
    assert_eq!(g, vec![30, 31, 32, 33, 34]);
    assert_eq!(remaining_passes(4, 1), vec![1, 2, 3]);
    assert_eq!(checkpoint_after(0, 100), (1, 100));
    assert_eq!(checkpoint_after(34, 1000), (35, 35000));
}

#[test]
fn verification_samples_cover_the_device_evenly() {
    let s = GutmannWipe::verification_samples(4096 * 3 + 100);
    assert_eq!(s, vec![(0, 4096), (4129, 4096), (8258, 4096)]);
    let big = GutmannWipe::verification_samples(1 << 40);
    assert_eq!(big.len(), 1000);
    assert_eq!(big[1].0, (1u64 << 40) / 1000);
    for (o, l) in &big {
        assert!(o + l <= 1 << 40);
    }
    let one = GutmannWipe::verification_samples(4096);
    assert_eq!(one, vec![(0, 4096)]);
    assert_eq!(GutmannWipe::probe_offset(10_000, 8192), 10_000 % 4096);
}

fn monitor(current: u32) -> TemperatureMonitor {
    TemperatureMonitor {
        current_celsius: current,
        max_operating: 70,
        critical_threshold: 65,
        warning_threshold: 55,
    }
}

#[test]
fn cooling_wait_steps() {
    assert_eq!(SMARTMonitor::cooling_step(2, Some(&monitor(55)), false), (0, CoolingAction::Proceed));
    assert_eq!(SMARTMonitor::cooling_step(0, Some(&monitor(60)), false), (0, CoolingAction::WaitSeconds(30)));
    assert_eq!(SMARTMonitor::cooling_step(0, Some(&monitor(60)), true), (0, CoolingAction::AskContinueHot));
    assert_eq!(SMARTMonitor::cooling_step(0, None, false), (1, CoolingAction::WaitSeconds(10)));
    assert_eq!(SMARTMonitor::cooling_step(2, None, true), (3, CoolingAction::AskSkipMonitoring));
    assert!(SMARTMonitor::is_critical(&monitor(65)));
    assert!(!SMARTMonitor::is_critical(&monitor(64)));
}

#[test]
fn cooling_answers() {
    let hot = monitor(61);
    assert_eq!(SMARTMonitor::cooling_answer(&CoolingAction::AskContinueHot, Some(&hot), true), Ok(()));
    assert_eq!(
        SMARTMonitor::cooling_answer(&CoolingAction::AskContinueHot, Some(&hot), false),
        Err(DriveError::TemperatureExceeded(
            "Drive temperature 61°C exceeds safe threshold 55°C".to_string()
        ))
    );
    assert_eq!(
        SMARTMonitor::cooling_answer(&CoolingAction::AskSkipMonitoring, None, false),
        Err(DriveError::SMARTReadFailed("Temperature monitoring unavailable".to_string()))
    );
}

#[test]
fn hardware_erase_commands() {
    assert!(HDDWipe::supports_secure_erase("\tsupported: enhanced erase\n"));
    assert!(!HDDWipe::supports_secure_erase("not\tsupported"));
    let (set, erase) = HDDWipe::erase_commands("/dev/sda");
    assert_eq!(set, vec!["--user-master", "u", "--security-set-pass", "temp123", "/dev/sda"]);
    assert_eq!(erase, vec!["--user-master", "u", "--security-erase", "temp123", "/dev/sda"]);
    assert_eq!(
        SSDWipe::is_secure_erase_supported(""),
        Err("Secure erase not supported on this device".to_string())
    );
    assert_eq!(SSDWipe::password_error("bad"), "Failed to set security password: bad");
    let (args, label) = NVMeWipe::erase_command("Format NVM Supported", "/dev/nvme0n1").unwrap();
    assert_eq!(args, vec!["format", "/dev/nvme0n1", "--ses=1", "--force"]);
    assert_eq!(label, "Format NVM secure erase");
    let (args, _) = NVMeWipe::erase_command("Sanitize Operation Supported", "/dev/nvme0n1").unwrap();
    assert_eq!(args, vec!["sanitize", "/dev/nvme0n1", "--crypto-erase", "--force"]);
    assert_eq!(
        NVMeWipe::erase_command("", "/dev/nvme0n1"),
        Err("No secure erase method available for this NVMe device".to_string())
    );
    assert_eq!(NVMeWipe::failure_message("Sanitize crypto erase"), "Sanitize crypto erase failed");
}

fn ns(nsid: u32, ty: NamespaceType, active: bool, zones: bool) -> NVMeNamespace {
    NVMeNamespace {
        nsid,
        size: 1 << 20,
        namespace_type: ty,
        device_path: format!("/dev/nvme0n{}", nsid),
        is_active: active,
        is_attached: true,
        zones: if zones { Some(Vec::new()) } else { None },
    }
}

#[test]
fn nvme_plan_per_namespace() {
    let drive = NVMeAdvanced {
        device_path: "/dev/nvme0n1".to_string(),
        controller_path: "/dev/nvme0".to_string(),
        namespaces: vec![
            ns(1, NamespaceType::Block, true, false),
            ns(2, NamespaceType::ZonedNamespace, false, true),
            ns(3, NamespaceType::ZonedNamespace, true, true),
            ns(4, NamespaceType::ZonedNamespace, true, false),
            ns(5, NamespaceType::KeyValue, true, false),
        ],
        zns_support: true,
        kv_support: true,
        is_computational_storage: false,
        model: String::new(),
        firmware: String::new(),
    };
    assert_eq!(
        nvme_wipe_plan(&drive, false),
        vec![
            (0, NamespaceStep::ThreePass),
            (2, NamespaceStep::ZoneSweep),
            (3, NamespaceStep::ThreePass),
            (4, NamespaceStep::ThreePass)
        ]
    );
    assert_eq!(
        nvme_wipe_plan(&drive, true),
        vec![
            (0, NamespaceStep::Format),
            (2, NamespaceStep::Format),
            (3, NamespaceStep::Format),
            (4, NamespaceStep::Format)
        ]
    );
    assert_eq!(
        three_pass_algorithms(),
        vec![WipeAlgorithm::Zeros, WipeAlgorithm::Ones, WipeAlgorithm::Random]
    );
    assert_eq!(format_namespace_args("/dev/nvme0", 12), vec!["format", "/dev/nvme0", "-n", "12"]);
}

fn sed(t: SEDType, locked: bool, crypto: bool) -> SEDInfo {
    SEDInfo {
        sed_type: t,
        locked,
        enabled: true,
        frozen: false,
        max_password_tries: None,
        supports_crypto_erase: crypto,
        supports_instant_secure_erase: false,
        firmware_version: None,
    }
}

#[test]
fn crypto_erase_routes() {
    assert_eq!(
        SEDManager::crypto_erase_method(&sed(SEDType::OPAL20, false, false)),
        Err(DriveError::CryptoEraseFailed("Device does not support cryptographic erase".to_string()))
    );
    assert_eq!(
        SEDManager::crypto_erase_method(&sed(SEDType::EDrive, false, true)),
        Ok(CryptoEraseMethod::OpalRevert)
    );
    assert_eq!(
        SEDManager::crypto_erase_method(&sed(SEDType::TCGEnterprise, false, true)),
        Ok(CryptoEraseMethod::TcgSanitize)
    );
    assert_eq!(
        SEDManager::crypto_erase_method(&sed(SEDType::Proprietary("Samsung".to_string()), false, true)),
        Ok(CryptoEraseMethod::SamsungMagician)
    );
    assert_eq!(
        SEDManager::crypto_erase_method(&sed(SEDType::Proprietary("Crucial".to_string()), false, true)),
        Ok(CryptoEraseMethod::AtaSecureErase)
    );
    assert_eq!(
        SEDManager::crypto_erase_method(&sed(SEDType::NotSED, false, true)),
        Err(DriveError::CryptoEraseFailed("No SED capabilities detected".to_string()))
    );
    assert_eq!(
        SEDManager::crypto_erase_failure(CryptoEraseMethod::TcgSanitize),
        DriveError::CryptoEraseFailed("TCG Enterprise crypto erase failed".to_string())
    );
    let (a, b) = SEDManager::ata_secure_erase_args("/dev/sdc");
    assert_eq!(a[3], "temporary_erase_pwd");
    assert_eq!(b[2], "--security-erase");
}

#[test]
fn unlock_routes() {
    assert_eq!(SEDManager::unlock_command("/dev/sda", "pw", &sed(SEDType::OPAL20, false, true)), Ok(None));
    let (tool, args) = SEDManager::unlock_command("/dev/sda", "pw", &sed(SEDType::OPAL10, true, true))
        .unwrap()
        .unwrap();
    assert_eq!(tool, "sedutil-cli");
    assert_eq!(args, vec!["--setLockingRange", "0", "RW", "pw", "/dev/sda"]);
    let (tool, args) = SEDManager::unlock_command("/dev/sda", "pw", &sed(SEDType::ATASecurity, true, true))
        .unwrap()
        .unwrap();
    assert_eq!(tool, "hdparm");
    assert_eq!(args[2], "--security-unlock");
    assert_eq!(
        SEDManager::unlock_command("/dev/sda", "pw", &sed(SEDType::EDrive, true, true)),
        Err(DriveError::UnlockFailed("Unlock not supported for this SED type".to_string()))
    );
    assert!(SEDManager::check_samsung_encryption("Encrypted: yes"));
}

#[test]
fn rng_reseed_decision_and_mixing() {
    let mut rng = SecureRNG::new_at(&[1, 2, 3, 4], 5, 6, 7);
    assert!(rng.is_healthy());
    assert!(!rng.needs_reseed(1024));
    assert!(rng.needs_reseed(1u64 << 32));
    assert!(rng.needs_reseed(u64::MAX));
    let mut out = vec![0u8; 64];
    assert_eq!(rng.mix_at(&mut out, 8), Ok(()));
    assert_eq!(out.len(), 64);
    assert!(out.iter().any(|&b| b != 0));
    // The same sources and times give the same keystream.
    let mut again = SecureRNG::new_at(&[1, 2, 3, 4], 5, 6, 7);
    let mut out2 = vec![0u8; 64];
    again.mix_at(&mut out2, 8).unwrap();
    assert_eq!(out, out2);
    // Mixing the keystream into its own output gives zeros: XOR is its own inverse.
    let mut third = SecureRNG::new_at(&[1, 2, 3, 4], 5, 6, 7);
    let mut out3 = out.clone();
    third.mix_at(&mut out3, 8).unwrap();
    assert!(out3.iter().all(|&b| b == 0));
    // Reseeding gives a different keystream.
    let mut r2 = SecureRNG::new_at(&[1, 2, 3, 4], 5, 6, 7);
    r2.reseed_at(&[9, 9], 10, 11);
    let mut out4 = vec![0u8; 64];
    r2.mix_at(&mut out4, 12).unwrap();
    assert_ne!(out4, out);
    let _ = HmacDrbg::MAX_REQUESTS;
}

#[test]
fn rng_continuous_test_catches_a_repeat() {
    let mut rng = SecureRNG::new_at(&[0; 32], 1, 2, 3);
    let mut a = vec![0u8; 16];
    rng.mix_at(&mut a, 4).unwrap();
    // Handing back the keystream of the next request as the source output
    // makes the mixed output all zeros twice, which the test refuses.
    let mut probe = SecureRNG::new_at(&[0; 32], 1, 2, 3);
    let mut z1 = vec![0u8; 16];
    probe.mix_at(&mut z1, 4).unwrap();
    let mut z2 = vec![0u8; 16];
    probe.mix_at(&mut z2, 4).unwrap();
    let mut first = z1.clone();
    let mut second = z2.clone();
    let mut r = SecureRNG::new_at(&[0; 32], 1, 2, 3);
    assert_eq!(r.mix_at(&mut first, 4), Ok(()));
    assert_eq!(r.mix_at(&mut second, 4), Err(RngError::ContinuousTestFailed));
    assert!(!r.is_healthy());
    assert_eq!(first, vec![0u8; 16]);
}

#[test]
fn self_test_log_gives_the_latest_result() {
    let passed = "# 1  Short offline       Completed without error       00%      1234         -\n";
    assert!(matches!(SMARTMonitor::check_self_test_results(passed), SelfTestResult::Passed));
    let failed = "Num  Test_Description\n# 1  Extended offline    Completed: read failure       90%      1000         12345\n";
    match SMARTMonitor::check_self_test_results(failed) {
        SelfTestResult::Failed(m) => assert_eq!(m, "Read failure detected"),
        _ => panic!("expected a failure"),
    }
    let running = "# 1  Short offline       In progress 40% remaining\n";
    assert!(matches!(SMARTMonitor::check_self_test_results(running), SelfTestResult::InProgress(40)));
    let none = "No self-tests have been logged.\n";
    assert!(matches!(SMARTMonitor::check_self_test_results(none), SelfTestResult::NotRun));
    assert!(SMARTMonitor::self_test_result_of(none).is_some());
}

#[test]
fn lifetime_writes_from_ata_and_nvme_reports() {
    let ata = "241 Total_LBAs_Written      0x0032   099   099   000    Old_age   Always       -       1000\n";
    assert_eq!(SMARTMonitor::get_lifetime_writes("/dev/sda", ata, None), Some(512000));
    let nvme_log = "data_units_written                      : 3\n";
    assert_eq!(SMARTMonitor::get_lifetime_writes("/dev/nvme0n1", "", Some(nvme_log)), Some(3 * 524288));
    assert_eq!(SMARTMonitor::get_lifetime_writes("/dev/sda", "", Some(nvme_log)), None);
    assert_eq!(SMARTMonitor::get_lifetime_writes("/dev/nvme0n1", "", None), None);
}

#[test]
fn trim_samples_are_counted_and_judged() {
    let samples = vec![vec![0u8; 16], vec![0xFFu8; 16], vec![], vec![0x12u8, 0x34, 0x56, 0x78]];
    assert_eq!(TrimOperations::trim_sample_counts(&samples), (3, 2));
    assert!(!TrimOperations::trim_effective(2, 3));
    assert!(TrimOperations::trim_effective(10, 10));
    assert!(!TrimOperations::trim_effective(9, 10));
    assert!(!TrimOperations::trim_effective(0, 0));
    let off = TrimOperations::sample_offset(8192);
    assert!(off + 4096 < 8192);
}

#[test]
fn link_power_cycle_skips_the_current_policy() {
    assert_eq!(
        SataLinkReset::link_pm_path_from_link("../../devices/pci0000:00/0000:00:1f.2/ata3/host2/target2:0:0"),
        Some("/sys/class/ata_port/ata3/link_power_management_policy".to_string())
    );
    assert_eq!(SataLinkReset::link_pm_path_from_link("../../devices/virtual/block/loop0"), None);
    let (writes, restore) = SataLinkReset::cycle_link_power_plan("max_performance\n");
    assert_eq!(writes, vec![("min_power".to_string(), 500), ("medium_power".to_string(), 500)]);
    assert_eq!(restore, "max_performance");
    let (writes, restore) = SataLinkReset::cycle_link_power_plan("min_power");
    assert_eq!(writes, vec![("medium_power".to_string(), 500), ("max_performance".to_string(), 2500)]);
    assert_eq!(restore, "min_power");
}

#[test]
fn bit_counts_and_runs_of_random_data() {
    assert_eq!(SecureRNG::count_ones(&[0xFF, 0x01, 0x00]), 9);
    assert_eq!(SecureRNG::count_ones(&[]), 0);
    assert_eq!(SecureRNG::longest_run(&[5]), 0);
    assert_eq!(SecureRNG::longest_run(&[1, 2, 2, 2, 3, 3]), 3);
    assert_eq!(SecureRNG::longest_run(&[1, 2, 3]), 0);
}
