//! Drive freeze: what `hdparm -I` says of the security freeze, why a drive
//! is frozen, and the settings of the mitigation that unfreezes it.
use vstd::prelude::*;

use crate::text::{
    chars_of, contains, find_char, find_char_exec, find_sub, find_exec, has_str,
    lemma_find_char, lemma_find_sub_bounds, lowercase, matches_at, push_str, string_from_chars,
    subvec, to_lowercase, trim, trim_exec,
};
use crate::{DriveError, DriveResult, FreezeStatus};

verus! {

broadcast use vstd::string::group_string_axioms;

/// Why a drive is frozen.
#[derive(Debug, Clone, Copy, PartialEq, Eq, Structural)]
pub enum FreezeReason {
    /// The BIOS set the frozen bit during POST.
    BiosSetFrozen,
    /// A RAID or HBA controller policy.
    RaidController,
    /// An operating system security policy.
    OsSecurity,
    /// A controller-specific freeze policy.
    ControllerPolicy,
    /// No reason found.
    Unknown,
}

/// Finding why a drive is frozen.
pub struct FreezeDetector;

/// The basic freeze mitigation.
pub struct FreezeMitigation;

/// The explanation of a freeze reason, with the remedies to try.
pub open spec fn reason_text(reason: FreezeReason) -> Seq<char> {
    match reason {
        FreezeReason::BiosSetFrozen => "Drive was frozen by BIOS during system boot (POST). \
                 This is a common security feature. Solutions: \
                 1) SATA link reset, 2) System sleep/wake, 3) Cold boot"@,
        FreezeReason::RaidController => "Drive is managed by a RAID controller which enforces freeze policy. \
                 Solutions: 1) Use controller-specific commands, \
                 2) Temporarily remove from RAID array, 3) Controller reset"@,
        FreezeReason::OsSecurity => "Operating system has a security policy that freezes drives. \
                 Solutions: 1) Disable udev rules, 2) Boot from Live USB, \
                 3) Modify systemd services"@,
        FreezeReason::ControllerPolicy => "Storage controller has a built-in freeze policy. \
                 Solutions: 1) Controller-specific unlock commands, \
                 2) PCIe hot-reset, 3) Update controller firmware"@,
        FreezeReason::Unknown => "Freeze reason could not be determined. \
                 Try all available unfreeze methods in sequence."@,
    }
}

/// Controllers known to freeze drives.
pub open spec fn freezing_controller(c: Seq<char>) -> bool {
    c == "Intel RST"@ || c == "Dell PERC"@ || c == "HP SmartArray"@ || c == "LSI MegaRAID"@
}

/// The freeze reason from what was found, first match winning: RAID
/// membership, a BIOS freeze, a controller with a freeze policy, an OS policy.
pub open spec fn reason_for(is_raid: bool, bios_frozen: bool, controller: Option<Seq<char>>, os_security: bool) -> FreezeReason {
    if is_raid {
        FreezeReason::RaidController
    } else if bios_frozen {
        FreezeReason::BiosSetFrozen
    } else if controller is Some && freezing_controller(controller->0) {
        FreezeReason::ControllerPolicy
    } else if os_security {
        FreezeReason::OsSecurity
    } else {
        FreezeReason::Unknown
    }
}

/// The controller that the sysfs link of a device, or else `lspci -v`, names.
pub open spec fn controller_named(link: Seq<char>, lspci: Option<Seq<char>>) -> Option<Seq<char>> {
    if contains(link, "ahci"@) {
        Some("AHCI"@)
    } else if contains(link, "ata"@) {
        Some("ATA"@)
    } else if contains(link, "nvme"@) {
        Some("NVMe"@)
    } else if contains(link, "usb"@) {
        Some("USB"@)
    } else {
        match lspci {
            None => None,
            Some(o) => if contains(o, "Intel"@) && contains(o, "SATA"@) {
                Some("Intel RST"@)
            } else if contains(o, "LSI"@) || contains(o, "MegaRAID"@) {
                Some("LSI MegaRAID"@)
            } else if contains(o, "Adaptec"@) {
                Some("Adaptec"@)
            } else if contains(o, "PERC"@) {
                Some("Dell PERC"@)
            } else if contains(o, "SmartArray"@) {
                Some("HP SmartArray"@)
            } else {
                None
            },
        }
    }
}

/// The freeze status that `hdparm -I` reports, with `default` where it says
/// nothing of freezing or locking.
pub open spec fn freeze_status_in(s: Seq<char>, default: FreezeStatus) -> FreezeStatus {
    if contains(s, "frozen"@) && contains(s, "not"@) {
        FreezeStatus::NotFrozen
    } else if contains(s, "frozen"@) {
        if contains(s, "BIOS"@) {
            FreezeStatus::FrozenByBIOS
        } else {
            FreezeStatus::Frozen
        }
    } else if contains(s, "locked"@) {
        FreezeStatus::SecurityLocked
    } else {
        default
    }
}

/// A status under which the security erase is refused.
pub open spec fn blocks_erase(s: FreezeStatus) -> bool {
    s == FreezeStatus::Frozen || s == FreezeStatus::FrozenByBIOS
}

/// The ATA port in the sysfs link of a device: from the first `ata` to the
/// next `/`.
pub open spec fn ata_port_in(link: Seq<char>) -> Option<Seq<char>> {
    let i = find_sub(link, "ata"@);
    if i < 0 {
        None
    } else {
        let part = link.skip(i);
        let e = find_char(part, '/');
        if e < 0 {
            None
        } else {
            Some(part.take(e))
        }
    }
}

/// The SCSI host number in the sysfs link of a device: what follows the
/// first `host` up to the next `/`.
pub open spec fn scsi_host_in(link: Seq<char>) -> Option<Seq<char>> {
    let i = find_sub(link, "host"@);
    if i < 0 {
        None
    } else {
        let part = link.skip(i);
        let e = find_char(part, '/');
        if e < 0 {
            None
        } else {
            Some(part.subrange(4, e))
        }
    }
}

/// The link power policies written to toggle the link: those of
/// `max_performance`, `medium_power` and `min_power` that the current policy
/// does not name, in that order, then the current policy, trimmed, again.
pub open spec fn link_pm_writes(current: Seq<char>) -> Seq<Seq<char>> {
    seq!["max_performance"@, "medium_power"@, "min_power"@].filter(
        |p: Seq<char>| !contains(current, p),
    ).push(trim(current))
}

/// The probes that find why a drive is frozen, in the order they run.
#[derive(Debug, Clone, Copy, PartialEq, Eq, Structural)]
pub enum FreezeProbe {
    /// Whether the drive belongs to a RAID array.
    RaidMembership,
    /// Whether `hdparm -I` shows a freeze set by the BIOS.
    BiosFreeze,
    /// Whether the drive sits behind a controller known to freeze drives.
    ControllerPolicy,
    /// Whether a udev rule or a systemd service freezes drives.
    OsSecurity,
}

/// What follows a probe: the next probe to run, or the reason found.
#[derive(Debug, Clone, Copy, PartialEq, Eq, Structural)]
pub enum ProbeStep {
    Run(FreezeProbe),
    Decided(FreezeReason),
}

/// What follows a probe whose finding is `found`: a probe that finds its
/// cause decides the reason and no later probe runs; one that does not
/// hands over to the next; after the last, the reason is unknown.
pub open spec fn probe_step(probe: FreezeProbe, found: bool) -> ProbeStep {
    match probe {
        FreezeProbe::RaidMembership => if found {
            ProbeStep::Decided(FreezeReason::RaidController)
        } else {
            ProbeStep::Run(FreezeProbe::BiosFreeze)
        },
        FreezeProbe::BiosFreeze => if found {
            ProbeStep::Decided(FreezeReason::BiosSetFrozen)
        } else {
            ProbeStep::Run(FreezeProbe::ControllerPolicy)
        },
        FreezeProbe::ControllerPolicy => if found {
            ProbeStep::Decided(FreezeReason::ControllerPolicy)
        } else {
            ProbeStep::Run(FreezeProbe::OsSecurity)
        },
        FreezeProbe::OsSecurity => if found {
            ProbeStep::Decided(FreezeReason::OsSecurity)
        } else {
            ProbeStep::Decided(FreezeReason::Unknown)
        },
    }
}

/// The outcome of running the probes from `probe` on, each with the finding
/// that `findings` gives it (RAID, BIOS, controller, OS in that order).
pub open spec fn probes_from(probe: FreezeProbe, findings: (bool, bool, bool, bool)) -> FreezeReason
    decreases (match probe {
        FreezeProbe::RaidMembership => 3int,
        FreezeProbe::BiosFreeze => 2int,
        FreezeProbe::ControllerPolicy => 1int,
        FreezeProbe::OsSecurity => 0int,
    }),
{
    let found = match probe {
        FreezeProbe::RaidMembership => findings.0,
        FreezeProbe::BiosFreeze => findings.1,
        FreezeProbe::ControllerPolicy => findings.2,
        FreezeProbe::OsSecurity => findings.3,
    };
    match probe_step(probe, found) {
        ProbeStep::Decided(r) => r,
        ProbeStep::Run(next) => probes_from(next, findings),
    }
}

/// Law: running the probes one at a time, as the step function leads,
/// gives the reason that the findings give taken together, first match
/// winning (`reason_for`); the controller's finding is whether it is
/// known to freeze drives.
pub proof fn lemma_probes_give_reason(
    is_raid: bool,
    bios_frozen: bool,
    controller: Option<Seq<char>>,
    os_security: bool,
)
    ensures
        probes_from(
            FreezeProbe::RaidMembership,
            (is_raid, bios_frozen, controller is Some && freezing_controller(controller->0), os_security),
        ) == reason_for(is_raid, bios_frozen, controller, os_security),
{
    let f = (is_raid, bios_frozen, controller is Some && freezing_controller(controller->0), os_security);
    reveal_with_fuel(probes_from, 5);
    assert(probes_from(FreezeProbe::OsSecurity, f) == (if os_security { FreezeReason::OsSecurity } else { FreezeReason::Unknown }));
}

/// The methods of the basic mitigation, in the order they are tried.
#[derive(Debug, Clone, Copy, PartialEq, Eq, Structural)]
pub enum BasicMethod {
    SleepWake,
    HotPlug,
    LinkPower,
    PowerCycle,
}

/// The name a basic method reports under.
pub open spec fn basic_method_name(m: BasicMethod) -> Seq<char> {
    match m {
        BasicMethod::SleepWake => "Sleep/Wake"@,
        BasicMethod::HotPlug => "Hot-plug"@,
        BasicMethod::LinkPower => "Link PM"@,
        BasicMethod::PowerCycle => "Power Cycle"@,
    }
}

impl BasicMethod {
    /// The method's name.
    pub fn name(&self) -> (r: &'static str)
        ensures
            r@ == basic_method_name(*self),
    {
        match self {
            BasicMethod::SleepWake => "Sleep/Wake",
            BasicMethod::HotPlug => "Hot-plug",
            BasicMethod::LinkPower => "Link PM",
            BasicMethod::PowerCycle => "Power Cycle",
        }
    }
}

fn text_string(s: &str) -> (r: String)
    ensures
        r@ == s@,
{
    s.to_string()
}

impl FreezeDetector {
    /// The explanation of a freeze reason (`reason_text`).
    pub fn describe_reason(reason: &FreezeReason) -> (s: String)
        ensures
            s@ == reason_text(*reason),
    {
        match reason {
            FreezeReason::BiosSetFrozen => text_string(
                "Drive was frozen by BIOS during system boot (POST). \
                 This is a common security feature. Solutions: \
                 1) SATA link reset, 2) System sleep/wake, 3) Cold boot",
            ),
            FreezeReason::RaidController => text_string(
                "Drive is managed by a RAID controller which enforces freeze policy. \
                 Solutions: 1) Use controller-specific commands, \
                 2) Temporarily remove from RAID array, 3) Controller reset",
            ),
            FreezeReason::OsSecurity => text_string(
                "Operating system has a security policy that freezes drives. \
                 Solutions: 1) Disable udev rules, 2) Boot from Live USB, \
                 3) Modify systemd services",
            ),
            FreezeReason::ControllerPolicy => text_string(
                "Storage controller has a built-in freeze policy. \
                 Solutions: 1) Controller-specific unlock commands, \
                 2) PCIe hot-reset, 3) Update controller firmware",
            ),
            FreezeReason::Unknown => text_string(
                "Freeze reason could not be determined. \
                 Try all available unfreeze methods in sequence.",
            ),
        }
    }

    /// Whether a controller is known to freeze drives.
    pub fn has_controller_freeze_policy(controller_type: &str) -> (b: bool)
        ensures
            b == freezing_controller(controller_type@),
    {
        let c = chars_of(controller_type);
        let a = chars_of("Intel RST");
        let b = chars_of("Dell PERC");
        let d = chars_of("HP SmartArray");
        let e = chars_of("LSI MegaRAID");
        crate::text::chars_eq(&c, &a) || crate::text::chars_eq(&c, &b) || crate::text::chars_eq(&c, &d)
            || crate::text::chars_eq(&c, &e)
    }

    /// The freeze reason from what was found (`reason_for`).
    pub fn reason_from_findings(
        is_raid: bool,
        bios_frozen: bool,
        controller: Option<&str>,
        os_security: bool,
    ) -> (r: FreezeReason)
        ensures
            r == reason_for(
                is_raid,
                bios_frozen,
                match controller {
                    Some(c) => Some(c@),
                    None => None,
                },
                os_security,
            ),
    {
        if is_raid {
            return FreezeReason::RaidController;
        }
        if bios_frozen {
            return FreezeReason::BiosSetFrozen;
        }
        if let Some(c) = controller {
            if Self::has_controller_freeze_policy(c) {
                return FreezeReason::ControllerPolicy;
            }
        }
        if os_security {
            return FreezeReason::OsSecurity;
        }
        FreezeReason::Unknown
    }

    /// The probe that runs first: RAID membership.
    pub fn first_probe() -> (p: FreezeProbe)
        ensures
            p == FreezeProbe::RaidMembership,
    {
        FreezeProbe::RaidMembership
    }

    /// What follows `probe`, given what it found (`probe_step`).
    pub fn after_probe(probe: FreezeProbe, found: bool) -> (s: ProbeStep)
        ensures
            s == probe_step(probe, found),
    {
        match probe {
            FreezeProbe::RaidMembership => if found {
                ProbeStep::Decided(FreezeReason::RaidController)
            } else {
                ProbeStep::Run(FreezeProbe::BiosFreeze)
            },
            FreezeProbe::BiosFreeze => if found {
                ProbeStep::Decided(FreezeReason::BiosSetFrozen)
            } else {
                ProbeStep::Run(FreezeProbe::ControllerPolicy)
            },
            FreezeProbe::ControllerPolicy => if found {
                ProbeStep::Decided(FreezeReason::ControllerPolicy)
            } else {
                ProbeStep::Run(FreezeProbe::OsSecurity)
            },
            FreezeProbe::OsSecurity => if found {
                ProbeStep::Decided(FreezeReason::OsSecurity)
            } else {
                ProbeStep::Decided(FreezeReason::Unknown)
            },
        }
    }

    /// The finding of the controller probe: a controller was found and it
    /// is known to freeze drives.
    pub fn controller_probe_finding(controller: Option<&str>) -> (b: bool)
        ensures
            b == (controller matches Some(c) && freezing_controller(c@)),
    {
        match controller {
            Some(c) => Self::has_controller_freeze_policy(c),
            None => false,
        }
    }

    /// Whether `hdparm -I` shows a freeze set by the BIOS.
    pub fn bios_frozen_from_identify(hdparm_identify: &str) -> (b: bool)
        ensures
            b == (contains(hdparm_identify@, "frozen"@) && contains(hdparm_identify@, "BIOS"@)),
    {
        let s = chars_of(hdparm_identify);
        has_str(&s, "frozen") && has_str(&s, "BIOS")
    }

    /// Whether the vendor that sysfs gives for a device is a RAID vendor.
    pub fn raid_vendor(vendor: &str) -> (b: bool)
        ensures
            b == (contains(lowercase(vendor@), "lsi"@) || contains(lowercase(vendor@), "megaraid"@)
                || contains(lowercase(vendor@), "adaptec"@) || contains(lowercase(vendor@), "hp"@)
                || contains(lowercase(vendor@), "dell"@)),
    {
        let lower = to_lowercase(vendor);
        let v = chars_of(lower.as_str());
        has_str(&v, "lsi") || has_str(&v, "megaraid") || has_str(&v, "adaptec") || has_str(&v, "hp")
            || has_str(&v, "dell")
    }

    /// The controller that the sysfs link of a device, or else `lspci -v`,
    /// names (`controller_named`).
    pub fn controller_type_from(link_target: &str, lspci: Option<&str>) -> (r: Option<String>)
        ensures
            match r {
                Some(s) => controller_named(
                    link_target@,
                    match lspci {
                        Some(o) => Some(o@),
                        None => None,
                    },
                ) == Some(s@),
                None => controller_named(
                    link_target@,
                    match lspci {
                        Some(o) => Some(o@),
                        None => None,
                    },
                ) is None,
            },
    {
        let l = chars_of(link_target);
        if has_str(&l, "ahci") {
            return Some(text_string("AHCI"));
        } else if has_str(&l, "ata") {
            return Some(text_string("ATA"));
        } else if has_str(&l, "nvme") {
            return Some(text_string("NVMe"));
        } else if has_str(&l, "usb") {
            return Some(text_string("USB"));
        }
        match lspci {
            None => None,
            Some(o) => {
                let s = chars_of(o);
                if has_str(&s, "Intel") && has_str(&s, "SATA") {
                    Some(text_string("Intel RST"))
                } else if has_str(&s, "LSI") || has_str(&s, "MegaRAID") {
                    Some(text_string("LSI MegaRAID"))
                } else if has_str(&s, "Adaptec") {
                    Some(text_string("Adaptec"))
                } else if has_str(&s, "PERC") {
                    Some(text_string("Dell PERC"))
                } else if has_str(&s, "SmartArray") {
                    Some(text_string("HP SmartArray"))
                } else {
                    None
                }
            },
        }
    }

    /// Whether a udev rule freezes drives.
    pub fn udev_rule_freezes(content: &str) -> (b: bool)
        ensures
            b == (contains(content@, "hdparm"@) && contains(content@, "--security-freeze"@)),
    {
        let s = chars_of(content);
        has_str(&s, "hdparm") && has_str(&s, "--security-freeze")
    }

    /// Whether a systemd service freezes drives.
    pub fn service_freezes(content: &str) -> (b: bool)
        ensures
            b == (contains(content@, "hdparm"@) && contains(content@, "freeze"@)),
    {
        let s = chars_of(content);
        has_str(&s, "hdparm") && has_str(&s, "freeze")
    }
}

/// The freeze status that `hdparm -I` reports (`freeze_status_in`).
pub fn freeze_status_from(hdparm_identify: &str, default: FreezeStatus) -> (st: FreezeStatus)
    ensures
        st == freeze_status_in(hdparm_identify@, default),
{
    let s = chars_of(hdparm_identify);
    if has_str(&s, "frozen") && has_str(&s, "not") {
        FreezeStatus::NotFrozen
    } else if has_str(&s, "frozen") {
        if has_str(&s, "BIOS") {
            FreezeStatus::FrozenByBIOS
        } else {
            FreezeStatus::Frozen
        }
    } else if has_str(&s, "locked") {
        FreezeStatus::SecurityLocked
    } else {
        default
    }
}

impl FreezeMitigation {
    /// The methods tried in turn: sleep/wake, hot-plug, link power, power cycle.
    pub fn methods() -> (v: Vec<BasicMethod>)
        ensures
            v@ == seq![
                BasicMethod::SleepWake,
                BasicMethod::HotPlug,
                BasicMethod::LinkPower,
                BasicMethod::PowerCycle,
            ],
    {
        let mut v: Vec<BasicMethod> = Vec::new();
        v.push(BasicMethod::SleepWake);
        v.push(BasicMethod::HotPlug);
        v.push(BasicMethod::LinkPower);
        v.push(BasicMethod::PowerCycle);
        assert(v@ =~= seq![
            BasicMethod::SleepWake,
            BasicMethod::HotPlug,
            BasicMethod::LinkPower,
            BasicMethod::PowerCycle,
        ]);
        v
    }

    /// What the status read first settles: a drive that is not frozen needs
    /// nothing; a security-locked one cannot be unfrozen without its
    /// password; for any other status the methods are tried (`None`).
    pub fn initial_decision(status: FreezeStatus) -> (r: Option<DriveResult<()>>)
        ensures
            status == FreezeStatus::NotFrozen ==> r == Some(Ok::<(), DriveError>(())),
            status == FreezeStatus::SecurityLocked ==> (r matches Some(Err(DriveError::DriveFrozen(m)))
                && m@ == "Drive is security locked and cannot be unfrozen without password"@),
            (status != FreezeStatus::NotFrozen && status != FreezeStatus::SecurityLocked) ==> r is None,
    {
        match status {
            FreezeStatus::NotFrozen => Some(Ok(())),
            FreezeStatus::SecurityLocked => Some(
                Err(
                    DriveError::DriveFrozen(
                        text_string("Drive is security locked and cannot be unfrozen without password"),
                    ),
                ),
            ),
            _ => None,
        }
    }

    /// What follows method `i` of `methods()` on `device_path`:
    /// `status_after` is the status read after it ran, `None` where it
    /// failed. The drive read as not frozen ends the mitigation with
    /// success; otherwise the next method is tried (`None`), and after the
    /// last the mitigation fails.
    pub fn after_method(device_path: &str, i: usize, status_after: Option<FreezeStatus>) -> (r: Option<
        DriveResult<()>,
    >)
        requires
            i < 4,
        ensures
            status_after == Some(FreezeStatus::NotFrozen) ==> r == Some(Ok::<(), DriveError>(())),
            status_after != Some(FreezeStatus::NotFrozen) && i < 3 ==> r is None,
            status_after != Some(FreezeStatus::NotFrozen) && i == 3 ==> (r matches Some(
                Err(DriveError::DriveFrozen(m)),
            ) && m@ == "Failed to unfreeze drive "@ + device_path@ + " after trying all methods"@),
    {
        if status_after == Some(FreezeStatus::NotFrozen) {
            return Some(Ok(()));
        }
        if i < 3 {
            return None;
        }
        Some(Err(Self::all_methods_failed(device_path)))
    }

    /// The error once every method has been tried on `device_path`.
    pub fn all_methods_failed(device_path: &str) -> (e: DriveError)
        ensures
            e matches DriveError::DriveFrozen(m) && m@ == "Failed to unfreeze drive "@ + device_path@
                + " after trying all methods"@,
    {
        let mut m: Vec<char> = Vec::new();
        push_str(&mut m, "Failed to unfreeze drive ");
        push_str(&mut m, device_path);
        push_str(&mut m, " after trying all methods");
        DriveError::DriveFrozen(string_from_chars(&m))
    }

    /// The SCSI host directory for a device from its sysfs link target:
    /// `/sys/class/scsi_host/host` and the number after the first `host`.
    pub fn scsi_host_from_link(link_target: &str) -> (r: Option<String>)
        ensures
            match r {
                Some(s) => scsi_host_in(link_target@) matches Some(n) && s@
                    == "/sys/class/scsi_host/host"@ + n,
                None => scsi_host_in(link_target@) is None,
            },
    {
        let l = chars_of(link_target);
        let host = chars_of("host");
        proof {
            reveal_strlit("host");
            lemma_find_sub_bounds(l@, host@);
        }
        match find_exec(&l, &host) {
            None => None,
            Some(i) => {
                let len = l.len();
                assert(matches_at(l@, host@, i as int));
                let part = subvec(&l, i, len);
                assert(part@ =~= l@.skip(i as int));
                proof {
                    lemma_find_char(part@, '/');
                }
                match find_char_exec(&part, '/') {
                    None => None,
                    Some(e) => {
                        assert(part@[0] == 'h' && part@[1] == 'o' && part@[2] == 's' && part@[3] == 't');
                        assert(e >= 4);
                        let num = subvec(&part, 4, e);
                        assert(num@ =~= part@.subrange(4, e as int));
                        let mut m: Vec<char> = Vec::new();
                        push_str(&mut m, "/sys/class/scsi_host/host");
                        let mut n = num;
                        m.append(&mut n);
                        Some(string_from_chars(&m))
                    },
                }
            },
        }
    }

    /// The policies to write, in order, to toggle the SATA link power
    /// management of a port whose policy is now `current` (`link_pm_writes`).
    pub fn link_pm_sequence(current: &str) -> (v: Vec<String>)
        ensures
            v@.map_values(|x: String| x@) == link_pm_writes(current@),
    {
        let c = chars_of(current);
        let ghost pred = |p: Seq<char>| !contains(current@, p);
        let ghost all = seq!["max_performance"@, "medium_power"@, "min_power"@];
        let mut v: Vec<String> = Vec::new();
        proof {
            reveal_strlit("max_performance");
            reveal_strlit("medium_power");
            reveal_strlit("min_power");
            assert(all.take(0) =~= Seq::<Seq<char>>::empty());
            assert(all.take(0).filter(pred) =~= Seq::<Seq<char>>::empty()) by {
                reveal(Seq::filter);
            }
            assert(v@.map_values(|x: String| x@) =~= Seq::<Seq<char>>::empty());
        }
        let ghost v0 = v@;
        if !has_str(&c, "max_performance") {
            v.push(text_string("max_performance"));
        }
        proof {
            assert(all.take(1) =~= all.take(0).push(all[0]));
            all.take(0).lemma_filter_push(all[0], pred);
            assert(v@.map_values(|x: String| x@) =~= all.take(1).filter(pred));
        }
        if !has_str(&c, "medium_power") {
            v.push(text_string("medium_power"));
        }
        proof {
            assert(all.take(2) =~= all.take(1).push(all[1]));
            all.take(1).lemma_filter_push(all[1], pred);
            assert(v@.map_values(|x: String| x@) =~= all.take(2).filter(pred));
        }
        if !has_str(&c, "min_power") {
            v.push(text_string("min_power"));
        }
        proof {
            assert(all.take(3) =~= all.take(2).push(all[2]));
            all.take(2).lemma_filter_push(all[2], pred);
            assert(all.take(3) =~= all);
            assert(v@.map_values(|x: String| x@) =~= all.filter(pred));
        }
        let t = trim_exec(&c);
        let ghost before = v@;
        v.push(string_from_chars(&t));
        assert(v@.map_values(|x: String| x@) =~= before.map_values(|x: String| x@).push(trim(current@)));
        v
    }

    /// The freeze status that `hdparm -I` reports; not frozen where it says
    /// nothing of freezing or locking.
    pub fn get_freeze_status(hdparm_identify: &str) -> (r: DriveResult<FreezeStatus>)
        ensures
            r == Ok::<FreezeStatus, DriveError>(freeze_status_in(hdparm_identify@, FreezeStatus::NotFrozen)),
    {
        Ok(freeze_status_from(hdparm_identify, FreezeStatus::NotFrozen))
    }

    /// Whether the freeze that `hdparm -I` reports refuses a security erase.
    pub fn is_secure_erase_blocked(hdparm_identify: &str) -> (r: DriveResult<bool>)
        ensures
            r == Ok::<bool, DriveError>(blocks_erase(freeze_status_in(hdparm_identify@, FreezeStatus::NotFrozen))),
    {
        let status = freeze_status_from(hdparm_identify, FreezeStatus::NotFrozen);
        Ok(status == FreezeStatus::Frozen || status == FreezeStatus::FrozenByBIOS)
    }

    /// Whether a drive in a status needs unfreezing: not when it is not
    /// frozen; a locked drive cannot be unfrozen without its password.
    pub fn needs_unfreeze(status: FreezeStatus) -> (r: DriveResult<bool>)
        ensures
            status == FreezeStatus::NotFrozen ==> r == Ok::<bool, DriveError>(false),
            status == FreezeStatus::SecurityLocked ==> r matches Err(DriveError::DriveFrozen(_)),
            status != FreezeStatus::NotFrozen && status != FreezeStatus::SecurityLocked ==> r
                == Ok::<bool, DriveError>(true),
    {
        match status {
            FreezeStatus::NotFrozen => Ok(false),
            FreezeStatus::SecurityLocked => Err(
                DriveError::DriveFrozen(
                    text_string("Drive is security locked and cannot be unfrozen without password"),
                ),
            ),
            _ => Ok(true),
        }
    }

    /// The ATA port in the sysfs link of a device (`ata_port_in`).
    pub fn ata_port_from_link(link_target: &str) -> (r: Option<String>)
        ensures
            match r {
                Some(s) => ata_port_in(link_target@) == Some(s@),
                None => ata_port_in(link_target@) is None,
            },
    {
        let l = chars_of(link_target);
        let ata = chars_of("ata");
        proof {
            reveal_strlit("ata");
            lemma_find_sub_bounds(l@, ata@);
        }
        match find_exec(&l, &ata) {
            None => None,
            Some(i) => {
                let len = l.len();
                assert(matches_at(l@, ata@, i as int));
                let part = subvec(&l, i, len);
                assert(part@ =~= l@.skip(i as int));
                proof {
                    lemma_find_char(part@, '/');
                }
                match find_char_exec(&part, '/') {
                    None => None,
                    Some(e) => {
                        let head = subvec(&part, 0, e);
                        assert(head@ =~= part@.take(e as int));
                        Some(string_from_chars(&head))
                    },
                }
            },
        }
    }
}

/// Settings of the advanced freeze mitigation.
#[derive(Debug, Clone)]
pub struct FreezeMitigationConfig {
    /// Longest time to spend unfreezing, in seconds.
    pub max_attempts_duration: u64,
    /// Whether the kernel module may be loaded.
    pub allow_kernel_module: bool,
    /// Whether IPMI may be used (servers).
    pub allow_ipmi: bool,
    /// Whether ACPI sleep may be used (suspends the system).
    pub allow_acpi_sleep: bool,
    /// Whether vendor tools may be used.
    pub allow_vendor_specific: bool,
    /// Pause between attempts, in milliseconds.
    pub retry_delay_ms: u64,
}

impl Default for FreezeMitigationConfig {
    /// Five minutes, kernel module and vendor tools allowed, IPMI and ACPI
    /// sleep not, two seconds between attempts.
    fn default() -> (c: Self)
        ensures
            c.max_attempts_duration == 300 && c.allow_kernel_module && !c.allow_ipmi
                && !c.allow_acpi_sleep && c.allow_vendor_specific && c.retry_delay_ms == 2000,
    {
        FreezeMitigationConfig {
            max_attempts_duration: 300,
            allow_kernel_module: true,
            allow_ipmi: false,
            allow_acpi_sleep: false,
            allow_vendor_specific: true,
            retry_delay_ms: 2000,
        }
    }
}

/// The outcome of an unfreeze attempt.
#[derive(Debug)]
pub struct UnfreezeResult {
    pub success: bool,
    pub method_used: String,
    pub attempts_made: u32,
    pub time_taken: std::time::Duration,
    pub freeze_reason: Option<FreezeReason>,
    pub warnings: Vec<String>,
}

/// Law: an `hdparm -I` report that says both "frozen" and "not" reads as
/// not frozen, whatever else it says, and the security erase is not
/// refused; one that says "frozen" without "not" reads as frozen (by the
/// BIOS where it names the BIOS) and the erase is refused; one silent on
/// freezing that says "locked" reads as locked, and the erase is not
/// refused for a freeze.
pub proof fn lemma_freeze_status_reading(s: Seq<char>, default: FreezeStatus)
    ensures
        contains(s, "frozen"@) && contains(s, "not"@) ==> freeze_status_in(s, default)
            == FreezeStatus::NotFrozen && !blocks_erase(freeze_status_in(s, default)),
        contains(s, "frozen"@) && !contains(s, "not"@) ==> blocks_erase(freeze_status_in(s, default))
            && (freeze_status_in(s, default) == FreezeStatus::FrozenByBIOS <==> contains(s, "BIOS"@)),
        !contains(s, "frozen"@) && contains(s, "locked"@) ==> freeze_status_in(s, default)
            == FreezeStatus::SecurityLocked && !blocks_erase(freeze_status_in(s, default)),
        !contains(s, "frozen"@) && !contains(s, "locked"@) ==> freeze_status_in(s, default) == default,
{
}

} // verus!
