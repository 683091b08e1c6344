use sayonara_core::freeze::{
    FreezeDetector, FreezeMitigationConfig, FreezeReason, UnfreezeResult,
};
use sayonara_core::strategies::{
    AcpiSleep, IpmiPower, KernelModule, PcieHotReset, SataLinkReset, StrategyResult, UnfreezeStrategy,
    UsbSuspend, VendorSpecific,
};

#[test]
fn test_config_defaults() {
    let config = FreezeMitigationConfig::default();

    assert_eq!(config.max_attempts_duration, 300);
    assert!(config.allow_kernel_module);
    assert!(!config.allow_ipmi); // Conservative default
    assert!(config.allow_vendor_specific);
}

#[test]
fn test_freeze_reason_description() {
    let desc = FreezeDetector::describe_reason(&FreezeReason::BiosSetFrozen);
    assert!(desc.contains("BIOS"));
    assert!(desc.contains("POST"));

    let desc = FreezeDetector::describe_reason(&FreezeReason::RaidController);
    assert!(desc.contains("RAID"));
}

#[test]
fn test_controller_freeze_policy() {
    assert!(FreezeDetector::has_controller_freeze_policy("Intel RST"));
    assert!(FreezeDetector::has_controller_freeze_policy("Dell PERC"));
    assert!(!FreezeDetector::has_controller_freeze_policy(
        "Generic AHCI"
    ));
}

#[test]
fn test_kernel_module_properties() {
    let strategy = KernelModule::new();

    assert_eq!(strategy.name(), "Kernel Module");
    assert_eq!(strategy.risk_level(), 8);
    assert!(strategy.is_compatible_with(&FreezeReason::Unknown));
    assert!(strategy.is_compatible_with(&FreezeReason::BiosSetFrozen));
}

#[test]
fn test_strategy_result() {
    let success = StrategyResult::success("Test passed");
    assert!(success.success);
    assert!(success.warning.is_none());

    let warning = StrategyResult::success_with_warning("Passed", "Minor issue");
    assert!(warning.success);
    assert!(warning.warning.is_some());

    let failure = StrategyResult::failure("Test failed");
    assert!(!failure.success);
}

#[test]
fn test_pcie_hot_reset_name() {
    let strategy = PcieHotReset::new();
    assert_eq!(strategy.name(), "PCIe Hot Reset");
}

#[test]
fn test_pcie_hot_reset_description() {
    let strategy = PcieHotReset::new();
    let desc = strategy.description();
    assert!(desc.contains("PCIe") || desc.contains("controller"));
}

#[test]
fn test_pcie_hot_reset_compatibility() {
    let strategy = PcieHotReset::new();

    assert!(strategy.is_compatible_with(&FreezeReason::ControllerPolicy));
    assert!(strategy.is_compatible_with(&FreezeReason::BiosSetFrozen));
    assert!(strategy.is_compatible_with(&FreezeReason::Unknown));
    assert!(!strategy.is_compatible_with(&FreezeReason::OsSecurity));
}

#[test]
fn test_pcie_hot_reset_risk_level() {
    let strategy = PcieHotReset::new();
    assert_eq!(strategy.risk_level(), 7);
}

#[test]
fn test_acpi_sleep_name() {
    let strategy = AcpiSleep::new();
    assert_eq!(strategy.name(), "ACPI S3 Sleep");
}

#[test]
fn test_acpi_sleep_description() {
    let strategy = AcpiSleep::new();
    let desc = strategy.description();
    assert!(desc.contains("S3") || desc.contains("sleep"));
}

#[test]
fn test_acpi_sleep_compatibility() {
    let strategy = AcpiSleep::new();

    assert!(strategy.is_compatible_with(&FreezeReason::BiosSetFrozen));
    assert!(strategy.is_compatible_with(&FreezeReason::ControllerPolicy));
    assert!(strategy.is_compatible_with(&FreezeReason::Unknown));
    assert!(!strategy.is_compatible_with(&FreezeReason::RaidController));
}

#[test]
fn test_acpi_sleep_risk_level() {
    let strategy = AcpiSleep::new();
    assert_eq!(strategy.risk_level(), 9);
}

#[test]
fn test_usb_suspend_name() {
    let strategy = UsbSuspend::new();
    assert_eq!(strategy.name(), "USB Suspend/Resume");
}

#[test]
fn test_usb_suspend_description() {
    let strategy = UsbSuspend::new();
    let desc = strategy.description();
    assert!(desc.contains("USB") || desc.contains("power"));
}

#[test]
fn test_usb_suspend_compatibility() {
    let strategy = UsbSuspend::new();

    // USB suspend is compatible with all freeze reasons for USB devices
    assert!(strategy.is_compatible_with(&FreezeReason::BiosSetFrozen));
    assert!(strategy.is_compatible_with(&FreezeReason::ControllerPolicy));
    assert!(strategy.is_compatible_with(&FreezeReason::RaidController));
}

#[test]
fn test_usb_suspend_risk_level() {
    let strategy = UsbSuspend::new();
    assert_eq!(strategy.risk_level(), 3);
}

#[test]
fn test_usb_suspend_availability() {
    let strategy = UsbSuspend::new();

    // Always available (checks happen during execution)
    assert!(strategy.is_available());
}

#[test]
fn test_ipmi_power_name() {
    let strategy = IpmiPower::new();
    assert_eq!(strategy.name(), "IPMI Power Management");
}

#[test]
fn test_ipmi_power_description() {
    let strategy = IpmiPower::new();
    let desc = strategy.description();
    assert!(desc.contains("IPMI") || desc.contains("server"));
}

#[test]
fn test_ipmi_power_compatibility() {
    let strategy = IpmiPower::new();

    // IPMI is compatible with all freeze reasons (nuclear option)
    assert!(strategy.is_compatible_with(&FreezeReason::BiosSetFrozen));
    assert!(strategy.is_compatible_with(&FreezeReason::ControllerPolicy));
    assert!(strategy.is_compatible_with(&FreezeReason::RaidController));
    assert!(strategy.is_compatible_with(&FreezeReason::OsSecurity));
    assert!(strategy.is_compatible_with(&FreezeReason::Unknown));
}

#[test]
fn test_ipmi_power_risk_level() {
    let strategy = IpmiPower::new();
    assert_eq!(strategy.risk_level(), 10);
}

#[test]
fn test_ipmi_power_estimated_duration() {
    let strategy = IpmiPower::new();
    assert_eq!(strategy.estimated_duration(), 120);
}

#[test]
fn test_all_strategies_have_names() {
    assert_eq!(PcieHotReset::new().name(), "PCIe Hot Reset");
    assert_eq!(AcpiSleep::new().name(), "ACPI S3 Sleep");
    assert_eq!(UsbSuspend::new().name(), "USB Suspend/Resume");
    assert_eq!(IpmiPower::new().name(), "IPMI Power Management");
}

#[test]
fn test_risk_levels_are_appropriate() {
    // Verify risk levels are in valid range and ordered correctly
    assert!(PcieHotReset::new().risk_level() <= 10);
    assert!(AcpiSleep::new().risk_level() <= 10);
    assert!(UsbSuspend::new().risk_level() <= 10);
    assert_eq!(IpmiPower::new().risk_level(), 10); // Should be max

    // USB should be least risky
    assert!(UsbSuspend::new().risk_level() < PcieHotReset::new().risk_level());

    // IPMI should be most risky
    assert!(IpmiPower::new().risk_level() >= AcpiSleep::new().risk_level());
}

#[test]
fn test_all_strategies_have_descriptions() {
    let strategies: Vec<Box<dyn UnfreezeStrategy>> = vec![
        Box::new(PcieHotReset::new()),
        Box::new(AcpiSleep::new()),
        Box::new(UsbSuspend::new()),
        Box::new(IpmiPower::new()),
    ];

    for strategy in strategies {
        let desc = strategy.description();
        assert!(!desc.is_empty());
        assert!(desc.len() > 20); // Should be descriptive
    }
}

#[test]
fn test_estimated_durations_are_reasonable() {
    // All durations should be positive and reasonable
    assert!(PcieHotReset::new().estimated_duration() > 0);
    assert!(AcpiSleep::new().estimated_duration() > 0);
    assert!(IpmiPower::new().estimated_duration() > 0);

    // IPMI should take longest (full reboot)
    assert!(IpmiPower::new().estimated_duration() > PcieHotReset::new().estimated_duration());
}

#[test]
fn test_sata_link_reset_compatibility() {
    let strategy = SataLinkReset::new();

    assert!(strategy.is_compatible_with(&FreezeReason::BiosSetFrozen));
    assert!(strategy.is_compatible_with(&FreezeReason::ControllerPolicy));
    assert!(!strategy.is_compatible_with(&FreezeReason::RaidController));
}

#[test]
fn test_sata_link_reset_properties() {
    let strategy = SataLinkReset::new();

    assert_eq!(strategy.name(), "SATA Link Reset");
    assert_eq!(strategy.risk_level(), 2);
    assert_eq!(strategy.estimated_duration(), 5);
}

#[test]
fn test_vendor_specific_compatibility() {
    let strategy = VendorSpecific::new();

    assert!(strategy.is_compatible_with(&FreezeReason::RaidController));
    assert!(strategy.is_compatible_with(&FreezeReason::ControllerPolicy));
    assert!(!strategy.is_compatible_with(&FreezeReason::OsSecurity));
    assert!(!strategy.is_compatible_with(&FreezeReason::BiosSetFrozen));
}

#[test]
fn test_vendor_specific_properties() {
    let strategy = VendorSpecific::new();

    assert_eq!(strategy.name(), "Vendor-Specific Commands");
    assert_eq!(strategy.risk_level(), 6);
    assert_eq!(strategy.estimated_duration(), 15);
}

#[test]
fn test_strategy_description() {
    let strategy = VendorSpecific::new();

    let desc = strategy.description();
    assert!(!desc.is_empty());
    assert!(desc.contains("vendor") || desc.contains("RAID") || desc.contains("CLI"));
}

#[test]
fn test_config_default_values() {
    let config = FreezeMitigationConfig::default();

    assert_eq!(config.max_attempts_duration, 300);
    assert!(config.allow_kernel_module);
    assert!(config.allow_vendor_specific);
    assert!(!config.allow_ipmi); // Conservative default
    assert!(!config.allow_acpi_sleep);
    assert_eq!(config.retry_delay_ms, 2000);
}

#[test]
fn test_config_custom_values() {
    let config = FreezeMitigationConfig {
        max_attempts_duration: 600,
        allow_kernel_module: false,
        allow_ipmi: true,
        allow_acpi_sleep: true,
        allow_vendor_specific: false,
        retry_delay_ms: 5000,
    };

    assert_eq!(config.max_attempts_duration, 600);
    assert!(!config.allow_kernel_module);
    assert!(config.allow_ipmi);
}

#[test]
fn test_freeze_reason_descriptions() {
    let reasons = vec![
        FreezeReason::BiosSetFrozen,
        FreezeReason::RaidController,
        FreezeReason::OsSecurity,
        FreezeReason::ControllerPolicy,
        FreezeReason::Unknown,
    ];

    for reason in reasons {
        let desc = FreezeDetector::describe_reason(&reason);
        assert!(!desc.is_empty());
        assert!(desc.len() > 50); // Should be detailed
    }
}

#[test]
fn test_unfreeze_result_structure() {
    let result = UnfreezeResult {
        success: true,
        method_used: "SATA Link Reset".to_string(),
        attempts_made: 2,
        time_taken: std::time::Duration::from_secs(15),
        freeze_reason: Some(FreezeReason::BiosSetFrozen),
        warnings: vec!["Minor warning".to_string()],
    };

    assert!(result.success);
    assert_eq!(result.attempts_made, 2);
    assert_eq!(result.warnings.len(), 1);
    assert!(result.time_taken.as_secs() > 0);
}

#[test]
fn test_compatibility_matrix() {
    
    let sata = SataLinkReset::new();
    let vendor = VendorSpecific::new();
    let kernel = KernelModule::new();

    // SATA compatible with BIOS and controller freeze
    assert!(sata.is_compatible_with(&FreezeReason::BiosSetFrozen));
    assert!(sata.is_compatible_with(&FreezeReason::ControllerPolicy));
    assert!(!sata.is_compatible_with(&FreezeReason::RaidController));

    // Vendor specific compatible with RAID
    assert!(vendor.is_compatible_with(&FreezeReason::RaidController));
    assert!(vendor.is_compatible_with(&FreezeReason::ControllerPolicy));

    // Kernel module compatible with everything (nuclear option)
    assert!(kernel.is_compatible_with(&FreezeReason::BiosSetFrozen));
    assert!(kernel.is_compatible_with(&FreezeReason::RaidController));
    assert!(kernel.is_compatible_with(&FreezeReason::Unknown));
}

#[test]
fn test_risk_levels() {
    
    // Low risk strategies
    assert!(SataLinkReset::new().risk_level() <= 3);
    assert!(UsbSuspend::new().risk_level() <= 3);

    // Medium risk strategies
    assert!(VendorSpecific::new().risk_level() >= 5);
    assert!(VendorSpecific::new().risk_level() <= 7);

    // High risk strategies
    assert!(KernelModule::new().risk_level() >= 7);
    assert!(AcpiSleep::new().risk_level() >= 8);

    // Maximum risk
    assert_eq!(IpmiPower::new().risk_level(), 10);
}

#[test]
fn test_estimated_durations() {
    
    // Quick strategies
    assert!(SataLinkReset::new().estimated_duration() <= 10);

    // Medium duration
    assert!(VendorSpecific::new().estimated_duration() <= 20);
    assert!(KernelModule::new().estimated_duration() <= 30);

    // Long duration (system reboot)
    assert!(IpmiPower::new().estimated_duration() >= 60);
}

#[test]
fn test_strategy_descriptions() {
    
    let strategies: Vec<Box<dyn UnfreezeStrategy>> = vec![
        Box::new(SataLinkReset::new()),
        Box::new(PcieHotReset::new()),
        Box::new(AcpiSleep::new()),
        Box::new(UsbSuspend::new()),
        Box::new(IpmiPower::new()),
        Box::new(VendorSpecific::new()),
        Box::new(KernelModule::new()),
    ];

    for strategy in strategies {
        let name = strategy.name();
        let desc = strategy.description();

        assert!(!name.is_empty());
        assert!(!desc.is_empty());
        assert!(desc.len() > 20); // Should be descriptive
    }
}

#[test]
fn test_strategy_result_helpers() {
    
    let success = StrategyResult::success("Test passed");
    assert!(success.success);
    assert_eq!(success.message, "Test passed");
    assert!(success.warning.is_none());

    let warning = StrategyResult::success_with_warning(
        "Completed",
        "Minor issue"
    );
    assert!(warning.success);
    assert_eq!(warning.warning.unwrap(), "Minor issue");

    let failure = StrategyResult::failure("Test failed");
    assert!(!failure.success);
    assert_eq!(failure.message, "Test failed");
}
