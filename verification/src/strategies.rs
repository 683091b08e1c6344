//! Unfreeze strategies: what each one is, which freeze reasons it answers,
//! how long it takes and how risky it is.
use vstd::prelude::*;

use crate::freeze::FreezeReason;
use crate::text::{
    chars_eq, chars_of, contains, decimal, decimal_exec, has_str, lines, lowercase, push_str,
    split_lines, split_words, string_from_chars, to_lowercase, trim, trim_exec, views, words,
};

verus! {

broadcast use vstd::string::group_string_axioms;

/// The outcome of one strategy.
#[derive(Debug, Clone)]
pub struct StrategyResult {
    pub success: bool,
    pub message: String,
    pub warning: Option<String>,
}

impl StrategyResult {
    /// A success.
    pub fn success(message: &str) -> (r: StrategyResult)
        ensures
            r.success && r.message@ == message@ && r.warning is None,
    {
        StrategyResult { success: true, message: message.to_string(), warning: None }
    }

    /// A success with a warning.
    pub fn success_with_warning(message: &str, warning: &str) -> (r: StrategyResult)
        ensures
            r.success && r.message@ == message@ && (r.warning matches Some(w) && w@ == warning@),
    {
        StrategyResult { success: true, message: message.to_string(), warning: Some(warning.to_string()) }
    }

    /// A failure.
    pub fn failure(message: &str) -> (r: StrategyResult)
        ensures
            !r.success && r.message@ == message@ && r.warning is None,
    {
        StrategyResult { success: false, message: message.to_string(), warning: None }
    }
}

/// A way to unfreeze a drive.
pub trait UnfreezeStrategy: Send + Sync {
    /// The strategy's name.
    fn name(&self) -> &str;

    /// What the strategy does.
    fn description(&self) -> &str;

    /// Whether the strategy answers a freeze reason.
    fn is_compatible_with(&self, reason: &FreezeReason) -> bool;

    /// Seconds the strategy takes: 10 unless the strategy says otherwise.
    fn estimated_duration(&self) -> (d: u64)
        default_ensures
            d == 10,
    {
        10
    }

    /// Risk from 0 (safest) to 10: 5 unless the strategy says otherwise.
    fn risk_level(&self) -> (r: u8)
        ensures
            r <= 10,
        default_ensures
            r == 5,
    {
        5
    }
}

/// Cycling the power states of the SATA link.
pub struct SataLinkReset;

/// Hot-resetting the PCIe storage controller.
pub struct PcieHotReset;

/// An ACPI S3 sleep and wake of the whole system.
pub struct AcpiSleep;

/// De- and re-authorising a USB device.
pub struct UsbSuspend;

/// Resetting the system through IPMI.
pub struct IpmiPower;

/// The RAID vendors' command-line tools.
pub struct VendorSpecific;

/// A kernel module that writes the ATA registers.
pub struct KernelModule {
    module_file: String,
}

impl SataLinkReset {
    pub fn new() -> (s: Self) {
        SataLinkReset
    }
}

impl Default for SataLinkReset {
    fn default() -> (s: Self) {
        SataLinkReset
    }
}

impl PcieHotReset {
    pub fn new() -> (s: Self) {
        PcieHotReset
    }
}

impl AcpiSleep {
    pub fn new() -> (s: Self) {
        AcpiSleep
    }
}

impl UsbSuspend {
    pub fn new() -> (s: Self) {
        UsbSuspend
    }

    /// A USB device can always be de-authorised; whether the drive is one is
    /// found when the strategy runs.
    pub fn is_available(&self) -> (b: bool)
        ensures
            b,
    {
        true
    }
}

impl IpmiPower {
    pub fn new() -> (s: Self) {
        IpmiPower
    }
}

impl VendorSpecific {
    pub fn new() -> (s: Self) {
        VendorSpecific
    }
}

impl KernelModule {
    /// The path of the module file.
    pub closed spec fn module(&self) -> Seq<char> {
        self.module_file@
    }

    /// The module at its installed path.
    pub fn new() -> (s: Self)
        ensures
            s.module() == "/usr/local/lib/sayonara-wipe/ata_unfreeze.ko"@,
    {
        KernelModule { module_file: "/usr/local/lib/sayonara-wipe/ata_unfreeze.ko".to_string() }
    }

    /// Where the module is installed.
    pub fn module_file(&self) -> (p: &str)
        ensures
            p@ == self.module(),
    {
        self.module_file.as_str()
    }

    /// Whether `lsmod` lists the module.
    pub fn is_module_loaded(lsmod: &str) -> (b: bool)
        ensures
            b == contains(lsmod@, "ata_unfreeze"@),
    {
        let c = chars_of(lsmod);
        has_str(&c, "ata_unfreeze")
    }

    /// Whether the kernel log reports an unfrozen drive: of its lines that
    /// name the module, one of the last five says `Successfully unfrozen` or
    /// `Unfroze`.
    pub fn check_module_output(dmesg: &str) -> (b: bool)
        ensures
            b == module_success(module_lines(lines(dmesg@))),
    {
        let c = chars_of(dmesg);
        let ls = split_lines(&c);
        let mut m: Vec<Vec<char>> = Vec::new();
        let mut i: usize = 0;
        assert(views(ls@).take(0) =~= Seq::<Seq<char>>::empty());
        while i < ls.len()
            invariant
                i <= ls@.len(),
                views(ls@) == lines(dmesg@),
                views(m@) == module_lines(views(ls@).take(i as int)),
            decreases ls@.len() - i,
        {
            assert(views(ls@).take(i + 1).drop_last() =~= views(ls@).take(i as int));
            assert(views(ls@).take(i + 1).last() == ls@[i as int]@);
            if has_str(&ls[i], "ata_unfreeze") {
                let ghost before = views(m@);
                m.push(ls[i].clone());
                assert(views(m@) =~= before.push(ls@[i as int]@));
            }
            i += 1;
        }
        assert(views(ls@).take(ls@.len() as int) =~= views(ls@));
        let n = m.len();
        let start: usize = if n > 5 {
            n - 5
        } else {
            0
        };
        let mut k: usize = start;
        while k < n
            invariant
                n == m@.len(),
                views(m@) == module_lines(lines(dmesg@)),
                start == (if n > 5 { n - 5 } else { 0 }),
                start <= k <= n,
                forall|j: int| start <= j < k ==> !success_line(#[trigger] views(m@)[j]),
            decreases n - k,
        {
            assert(views(m@)[k as int] == m@[k as int]@);
            if has_str(&m[k], "Successfully unfrozen") || has_str(&m[k], "Unfroze") {
                assert(success_line(views(m@)[k as int]));
                return true;
            }
            k += 1;
        }
        false
    }

    /// The `make` arguments that build the module on `cpus` parallel jobs.
    pub fn make_args_for(cpus: usize) -> (v: Vec<String>)
        ensures
            v@.len() == 2,
            v@[0]@ == "-j"@,
            v@[1]@ == decimal(cpus as nat),
    {
        let mut v: Vec<String> = Vec::new();
        v.push("-j".to_string());
        let d = decimal_exec(cpus as u64);
        v.push(string_from_chars(&d));
        v
    }

    /// The `make` arguments that build the module, one job per available CPU.
    pub fn make_args() -> (v: Vec<String>)
        ensures
            v@.len() == 2,
            v@[0]@ == "-j"@,
            exists|n: nat| n >= 1 && v@[1]@ == decimal(n),
    {
        let n = available_cpus();
        let v = Self::make_args_for(n);
        assert(v@[1]@ == decimal(n as nat));
        v
    }

    /// The directory the module is built from: the source tree under the
    /// working directory `cwd` where it exists there (`in_tree`); else the
    /// system location where that exists (`installed`); else the error that
    /// names both.
    pub fn module_source_dir(cwd: &str, in_tree: bool, installed: bool) -> (r: Result<String, String>)
        ensures
            in_tree ==> (r matches Ok(d) && d@ == cwd@ + "/src/drives/freeze/kernel_module"@),
            (!in_tree && installed) ==> (r matches Ok(d) && d@
                == "/usr/local/src/sayonara-wipe/kernel_module"@),
            (!in_tree && !installed) ==> (r matches Err(m) && m@
                == "Kernel module source not found. Expected at: src/drives/freeze/kernel_module/ or /usr/local/src/sayonara-wipe/kernel_module"@),
    {
        if in_tree {
            let mut c: Vec<char> = Vec::new();
            push_str(&mut c, cwd);
            push_str(&mut c, "/src/drives/freeze/kernel_module");
            Ok(string_from_chars(&c))
        } else if installed {
            Ok("/usr/local/src/sayonara-wipe/kernel_module".to_string())
        } else {
            Err(
                "Kernel module source not found. Expected at: src/drives/freeze/kernel_module/ or /usr/local/src/sayonara-wipe/kernel_module".to_string(),
            )
        }
    }
}

/// The kernel log lines that name the module, in order.
pub open spec fn module_lines(ls: Seq<Seq<char>>) -> Seq<Seq<char>>
    decreases ls.len(),
{
    if ls.len() == 0 {
        seq![]
    } else if contains(ls.last(), "ata_unfreeze"@) {
        module_lines(ls.drop_last()).push(ls.last())
    } else {
        module_lines(ls.drop_last())
    }
}

/// A module log line that reports success.
pub open spec fn success_line(l: Seq<char>) -> bool {
    contains(l, "Successfully unfrozen"@) || contains(l, "Unfroze"@)
}

/// Whether one of the last five of the module's lines reports success.
pub open spec fn module_success(m: Seq<Seq<char>>) -> bool {
    exists|j: int| (if m.len() > 5 { m.len() - 5 } else { 0 }) <= j < m.len() && #[trigger] success_line(m[j])
}

/// The number of CPUs available (`num_cpus::get`), which its documentation
/// says is always at least 1; which number depends on the machine.
#[verifier::external_body]
fn available_cpus() -> (n: usize)
    ensures
        n >= 1,
{
    num_cpus::get()
}

impl UnfreezeStrategy for SataLinkReset {
    fn name(&self) -> (r: &str)
        ensures
            r@ == "SATA Link Reset"@,
    {
        "SATA Link Reset"
    }

    fn description(&self) -> (r: &str)
        ensures
            r@ == "Cycles SATA link power states to reset the link, clearing freeze state"@,
    {
        "Cycles SATA link power states to reset the link, clearing freeze state"
    }

    fn is_compatible_with(&self, reason: &FreezeReason) -> (b: bool)
        ensures
            b == (*reason == FreezeReason::BiosSetFrozen || *reason == FreezeReason::ControllerPolicy
                || *reason == FreezeReason::Unknown),
    {
        match reason {
            FreezeReason::BiosSetFrozen | FreezeReason::ControllerPolicy | FreezeReason::Unknown => true,
            _ => false,
        }
    }

    fn estimated_duration(&self) -> (d: u64)
        ensures
            d == 5,
    {
        5
    }

    fn risk_level(&self) -> (r: u8)
        ensures
            r == 2,
    {
        2
    }
}

impl UnfreezeStrategy for PcieHotReset {
    fn name(&self) -> (r: &str)
        ensures
            r@ == "PCIe Hot Reset"@,
    {
        "PCIe Hot Reset"
    }

    fn description(&self) -> (r: &str)
        ensures
            r@ == "Triggers PCIe hot-reset of the storage controller through sysfs"@,
    {
        "Triggers PCIe hot-reset of the storage controller through sysfs"
    }

    fn is_compatible_with(&self, reason: &FreezeReason) -> (b: bool)
        ensures
            b == (*reason == FreezeReason::ControllerPolicy || *reason == FreezeReason::BiosSetFrozen
                || *reason == FreezeReason::Unknown),
    {
        match reason {
            FreezeReason::ControllerPolicy | FreezeReason::BiosSetFrozen | FreezeReason::Unknown => true,
            _ => false,
        }
    }

    fn estimated_duration(&self) -> (d: u64)
        ensures
            d == 10,
    {
        10
    }

    fn risk_level(&self) -> (r: u8)
        ensures
            r == 7,
    {
        7
    }
}

impl UnfreezeStrategy for AcpiSleep {
    fn name(&self) -> (r: &str)
        ensures
            r@ == "ACPI S3 Sleep"@,
    {
        "ACPI S3 Sleep"
    }

    fn description(&self) -> (r: &str)
        ensures
            r@ == "Performs S3 sleep/wake cycle to reset BIOS-level drive freeze state"@,
    {
        "Performs S3 sleep/wake cycle to reset BIOS-level drive freeze state"
    }

    fn is_compatible_with(&self, reason: &FreezeReason) -> (b: bool)
        ensures
            b == (*reason == FreezeReason::BiosSetFrozen || *reason == FreezeReason::ControllerPolicy
                || *reason == FreezeReason::Unknown),
    {
        match reason {
            FreezeReason::BiosSetFrozen | FreezeReason::ControllerPolicy | FreezeReason::Unknown => true,
            _ => false,
        }
    }

    fn estimated_duration(&self) -> (d: u64)
        ensures
            d == 30,
    {
        30
    }

    fn risk_level(&self) -> (r: u8)
        ensures
            r == 9,
    {
        9
    }
}

impl UnfreezeStrategy for UsbSuspend {
    fn name(&self) -> (r: &str)
        ensures
            r@ == "USB Suspend/Resume"@,
    {
        "USB Suspend/Resume"
    }

    fn description(&self) -> (r: &str)
        ensures
            r@ == "Power cycles USB device through sysfs authorization"@,
    {
        "Power cycles USB device through sysfs authorization"
    }

    fn is_compatible_with(&self, reason: &FreezeReason) -> (b: bool)
        ensures
            b,
    {
        true
    }

    fn risk_level(&self) -> (r: u8)
        ensures
            r == 3,
    {
        3
    }
}

impl UnfreezeStrategy for IpmiPower {
    fn name(&self) -> (r: &str)
        ensures
            r@ == "IPMI Power Management"@,
    {
        "IPMI Power Management"
    }

    fn description(&self) -> (r: &str)
        ensures
            r@ == "Uses IPMI to reset the system, clearing all hardware states including drive freeze (server environments)"@,
    {
        "Uses IPMI to reset the system, clearing all hardware states including drive freeze (server environments)"
    }

    fn is_compatible_with(&self, reason: &FreezeReason) -> (b: bool)
        ensures
            b,
    {
        true
    }

    fn estimated_duration(&self) -> (d: u64)
        ensures
            d == 120,
    {
        120
    }

    fn risk_level(&self) -> (r: u8)
        ensures
            r == 10,
    {
        10
    }
}

impl UnfreezeStrategy for VendorSpecific {
    fn name(&self) -> (r: &str)
        ensures
            r@ == "Vendor-Specific Commands"@,
    {
        "Vendor-Specific Commands"
    }

    fn description(&self) -> (r: &str)
        ensures
            r@ == "Uses vendor-specific CLI tools to unfreeze drives on RAID controllers"@,
    {
        "Uses vendor-specific CLI tools to unfreeze drives on RAID controllers"
    }

    fn is_compatible_with(&self, reason: &FreezeReason) -> (b: bool)
        ensures
            b == (*reason == FreezeReason::RaidController || *reason == FreezeReason::ControllerPolicy
                || *reason == FreezeReason::Unknown),
    {
        match reason {
            FreezeReason::RaidController | FreezeReason::ControllerPolicy | FreezeReason::Unknown => true,
            _ => false,
        }
    }

    fn estimated_duration(&self) -> (d: u64)
        ensures
            d == 15,
    {
        15
    }

    fn risk_level(&self) -> (r: u8)
        ensures
            r == 6,
    {
        6
    }
}

impl UnfreezeStrategy for KernelModule {
    fn name(&self) -> (r: &str)
        ensures
            r@ == "Kernel Module"@,
    {
        "Kernel Module"
    }

    fn description(&self) -> (r: &str)
        ensures
            r@ == "Loads a kernel module that directly manipulates ATA registers to unfreeze drives"@,
    {
        "Loads a kernel module that directly manipulates ATA registers to unfreeze drives"
    }

    fn is_compatible_with(&self, reason: &FreezeReason) -> (b: bool)
        ensures
            b,
    {
        true
    }

    fn estimated_duration(&self) -> (d: u64)
        ensures
            d == 20,
    {
        20
    }

    fn risk_level(&self) -> (r: u8)
        ensures
            r == 8,
    {
        8
    }
}

/// A hexadecimal digit.
pub open spec fn is_hex(c: char) -> bool {
    ('0' <= c && c <= '9') || ('a' <= c && c <= 'f') || ('A' <= c && c <= 'F')
}

/// `n` hexadecimal digits of `s` from `i`.
pub open spec fn hex_span(s: Seq<char>, i: int, n: int) -> bool {
    forall|k: int| i <= k < i + n ==> is_hex(#[trigger] s[k])
}

/// Whether a PCI address (`dddd:bb:dd.f`, hex digits, one or more in the
/// function) starts at `i` of `s`.
pub open spec fn pci_at(s: Seq<char>, i: int) -> bool {
    &&& 0 <= i
    &&& i + 12 <= s.len()
    &&& hex_span(s, i, 4)
    &&& s[i + 4] == ':'
    &&& hex_span(s, i + 5, 2)
    &&& s[i + 7] == ':'
    &&& hex_span(s, i + 8, 2)
    &&& s[i + 10] == '.'
    &&& is_hex(s[i + 11])
}

/// The length of the run of hexadecimal digits of `s` from `j`.
pub open spec fn hex_run(s: Seq<char>, j: int) -> nat
    decreases s.len() - j,
{
    if 0 <= j < s.len() && is_hex(s[j]) {
        1 + hex_run(s, j + 1)
    } else {
        0
    }
}

/// The leftmost PCI address in `s` from `i` on, its function as long as the
/// hexadecimal digits go.
pub open spec fn pci_match_from(s: Seq<char>, i: int) -> Option<Seq<char>>
    decreases s.len() - i,
{
    if i < 0 || i + 12 > s.len() {
        None
    } else if pci_at(s, i) {
        Some(s.subrange(i, i + 11 + hex_run(s, i + 11)))
    } else {
        pci_match_from(s, i + 1)
    }
}

/// The first match of the PCI address pattern
/// `[0-9a-fA-F]{4}:[0-9a-fA-F]{2}:[0-9a-fA-F]{2}\.[0-9a-fA-F]+` in `s`:
/// the leftmost, with as many function digits as follow.
pub open spec fn pci_match_in(s: Seq<char>) -> Option<Seq<char>> {
    pci_match_from(s, 0)
}

/// `regex::Regex::new` with the PCI address pattern above, then
/// `Regex::captures` on `path` and its first group, which is the whole
/// match. The pattern is valid, so it compiles; regex reports the leftmost
/// match and a greedy repetition takes every digit it can, which is what
/// `pci_match_in` states.
#[verifier::external_body]
fn pci_address_match(path: &str) -> (r: Option<String>)
    ensures
        match r {
            Some(m) => pci_match_in(path@) == Some(m@),
            None => pci_match_in(path@) is None,
        },
{
    match regex::Regex::new(r"([0-9a-fA-F]{4}:[0-9a-fA-F]{2}:[0-9a-fA-F]{2}\.[0-9a-fA-F]+)") {
        Ok(re) => re.captures(path).and_then(|c| c.get(1)).map(|m| m.as_str().to_string()),
        Err(_) => None,
    }
}

/// Whether an `lspci` line, lower-cased, names a storage controller that is
/// not on USB.
pub open spec fn storage_line(l: Seq<char>) -> bool {
    let lo = lowercase(l);
    (contains(lo, "sata"@) || contains(lo, "ahci"@) || contains(lo, "raid"@) || contains(lo, "nvme"@)
        || contains(lo, "non-volatile memory"@)) && !contains(lo, "usb"@)
}

/// The address of the first storage controller line of `lspci -D -nn`
/// whose first word looks like a PCI address (has a `:` and a `.`).
pub open spec fn storage_controller_in(ls: Seq<Seq<char>>) -> Option<Seq<char>>
    decreases ls.len(),
{
    if ls.len() == 0 {
        None
    } else if storage_line(ls[0]) && words(ls[0]).len() > 0 && contains(words(ls[0])[0], ":"@)
        && contains(words(ls[0])[0], "."@) {
        Some(words(ls[0])[0])
    } else {
        storage_controller_in(ls.drop_first())
    }
}

impl PcieHotReset {
    /// The PCI address in a sysfs path (`pci_match_in`).
    pub fn extract_pci_address(path: &str) -> (r: Option<String>)
        ensures
            match r {
                Some(m) => pci_match_in(path@) == Some(m@),
                None => pci_match_in(path@) is None,
            },
    {
        pci_address_match(path)
    }

    /// The storage controller from `lspci -D -nn`
    /// (`storage_controller_in`); none where no line gives one.
    pub fn find_storage_controller_via_lspci(lspci: &str) -> (r: Option<String>)
        ensures
            match storage_controller_in(lines(lspci@)) {
                Some(a) => r matches Some(x) && x@ == a,
                None => r is None,
            },
    {
        let s = chars_of(lspci);
        let ls = split_lines(&s);
        let mut i: usize = 0;
        assert(views(ls@).skip(0) =~= views(ls@));
        while i < ls.len()
            invariant
                i <= ls@.len(),
                views(ls@) == lines(lspci@),
                storage_controller_in(views(ls@)) == storage_controller_in(views(ls@).skip(i as int)),
            decreases ls@.len() - i,
        {
            assert(views(ls@).skip(i as int).drop_first() =~= views(ls@).skip(i + 1));
            assert(views(ls@).skip(i as int)[0] == ls@[i as int]@);
            let line = string_from_chars(&ls[i]);
            let low = to_lowercase(line.as_str());
            let lo = chars_of(low.as_str());
            if (has_str(&lo, "sata") || has_str(&lo, "ahci") || has_str(&lo, "raid") || has_str(
                &lo,
                "nvme",
            ) || has_str(&lo, "non-volatile memory")) && !has_str(&lo, "usb") {
                let ws = split_words(&ls[i]);
                if ws.len() > 0 {
                    assert(views(ws@)[0] == ws@[0]@);
                    if has_str(&ws[0], ":") && has_str(&ws[0], ".") {
                        return Some(string_from_chars(&ws[0]));
                    }
                }
            }
            i += 1;
        }
        None
    }
}

impl AcpiSleep {
    /// Whether S3 sleep is supported: `/sys/power/state` could be read and
    /// lists `mem`.
    pub fn is_s3_supported(power_state: Option<&str>) -> (b: bool)
        ensures
            b == (power_state matches Some(s) && contains(s@, "mem"@)),
    {
        match power_state {
            Some(s) => {
                let c = chars_of(s);
                has_str(&c, "mem")
            },
            None => false,
        }
    }
}

/// What the pattern `ata(\d+)` captures in its group on a sysfs path: the
/// digits after the first `ata` that digits follow.
pub uninterp spec fn ata_digits(path: Seq<char>) -> Option<Seq<char>>;

/// `regex::Regex::new(r"ata(\d+)")`, then `Regex::captures` on `path` and
/// its first group. What the group holds is left to the name `ata_digits`
/// (regex's `\d` is Unicode's decimal digits); that a match starts with
/// `ata` is not stated.
#[verifier::external_body]
fn ata_number_match(path: &str) -> (r: Option<String>)
    ensures
        match r {
            Some(m) => ata_digits(path@) == Some(m@),
            None => ata_digits(path@) is None,
        },
{
    match regex::Regex::new(r"ata(\d+)") {
        Ok(re) => re.captures(path).and_then(|c| c.get(1)).map(|m| m.as_str().to_string()),
        Err(_) => None,
    }
}

/// The policies written to cycle a link whose policy is now `current`
/// (trimmed): the three but the current one, in order, each with the pause
/// after it in milliseconds (500, and 2500 after the last of the three).
pub open spec fn link_cycle_writes(current: Seq<char>) -> Seq<(Seq<char>, nat)> {
    let c = trim(current);
    let steps = seq![
        ("min_power"@, 500nat),
        ("medium_power"@, 500nat),
        ("max_performance"@, 2500nat),
    ];
    steps.filter(|st: (Seq<char>, nat)| st.0 != c)
}

/// The policy written back after the cycle: the current one where it is
/// `min_power` or `medium_power`, else `max_performance`.
pub open spec fn link_restore_policy(current: Seq<char>) -> Seq<char> {
    let c = trim(current);
    if c == "min_power"@ || c == "medium_power"@ {
        c
    } else {
        "max_performance"@
    }
}

impl SataLinkReset {
    /// The link power management file of a device from its sysfs link:
    /// `/sys/class/ata_port/ata<n>/link_power_management_policy` for the
    /// port number that the link names (`ata_digits`).
    pub fn link_pm_path_from_link(link_target: &str) -> (r: Option<String>)
        ensures
            match ata_digits(link_target@) {
                Some(n) => r matches Some(p) && p@ == "/sys/class/ata_port/ata"@ + n
                    + "/link_power_management_policy"@,
                None => r is None,
            },
    {
        match ata_number_match(link_target) {
            Some(n) => {
                let mut c: Vec<char> = Vec::new();
                push_str(&mut c, "/sys/class/ata_port/ata");
                push_str(&mut c, n.as_str());
                push_str(&mut c, "/link_power_management_policy");
                Some(string_from_chars(&c))
            },
            None => None,
        }
    }

    /// The writes that cycle the link (`link_cycle_writes`) and the policy
    /// restored after them (`link_restore_policy`).
    pub fn cycle_link_power_plan(current: &str) -> (r: (Vec<(String, u64)>, String))
        ensures
            r.0@.map_values(|w: (String, u64)| (w.0@, w.1 as nat)) == link_cycle_writes(current@),
            r.1@ == link_restore_policy(current@),
    {
        let cs = chars_of(current);
        let c = trim_exec(&cs);
        let ghost steps = seq![
            ("min_power"@, 500nat),
            ("medium_power"@, 500nat),
            ("max_performance"@, 2500nat),
        ];
        let ghost pred = |st: (Seq<char>, nat)| st.0 != c@;
        let mut v: Vec<(String, u64)> = Vec::new();
        let names: [&str; 3] = ["min_power", "medium_power", "max_performance"];
        let waits: [u64; 3] = [500, 500, 2500];
        proof {
            reveal_strlit("min_power");
            reveal_strlit("medium_power");
            reveal_strlit("max_performance");
            assert(steps.take(0) =~= Seq::<(Seq<char>, nat)>::empty());
            assert(steps.take(0).filter(pred) =~= Seq::<(Seq<char>, nat)>::empty()) by {
                reveal(Seq::filter);
            }
            assert(v@.map_values(|w: (String, u64)| (w.0@, w.1 as nat)) =~= Seq::<
                (Seq<char>, nat),
            >::empty());
        }
        let mut i: usize = 0;
        while i < 3
            invariant
                i <= 3,
                c@ == trim(current@),
                names@.len() == 3 && waits@.len() == 3,
                names@[0]@ == "min_power"@ && names@[1]@ == "medium_power"@ && names@[2]@
                    == "max_performance"@,
                waits@[0] == 500 && waits@[1] == 500 && waits@[2] == 2500,
                steps == seq![
                    ("min_power"@, 500nat),
                    ("medium_power"@, 500nat),
                    ("max_performance"@, 2500nat),
                ],
                pred == (|st: (Seq<char>, nat)| st.0 != c@),
                v@.map_values(|w: (String, u64)| (w.0@, w.1 as nat)) == steps.take(i as int).filter(
                    pred,
                ),
            decreases 3 - i,
        {
            let name = names[i];
            let n = chars_of(name);
            proof {
                assert(steps.take(i + 1) =~= steps.take(i as int).push(steps[i as int]));
                steps.take(i as int).lemma_filter_push(steps[i as int], pred);
            }
            let ghost before = v@;
            if !chars_eq(&n, &c) {
                v.push((name.to_string(), waits[i]));
                assert(v@.map_values(|w: (String, u64)| (w.0@, w.1 as nat)) =~= before.map_values(
                    |w: (String, u64)| (w.0@, w.1 as nat),
                ).push((name@, waits[i as int] as nat)));
            }
            i += 1;
        }
        assert(steps.take(3) =~= steps);
        assert((|st: (Seq<char>, nat)| st.0 != trim(current@)) =~= pred);
        assert(link_cycle_writes(current@) == steps.filter(pred));
        let restore = if chars_eq(&c, &chars_of("min_power")) || chars_eq(&c, &chars_of("medium_power")) {
            string_from_chars(&c)
        } else {
            "max_performance".to_string()
        };
        (v, restore)
    }
}

} // verus!
