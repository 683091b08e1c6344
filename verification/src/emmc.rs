//! Embedded storage (eMMC and UFS): recognising it, its layout (boot
//! partitions, the replay-protected block, the user area), and the order in
//! which its erase commands are tried.
use vstd::prelude::*;

use crate::text::{chars_of, contains, decimal, decimal_exec, has_str, push_str, string_from_chars};

verus! {

broadcast use vstd::string::group_string_axioms;

/// A boot partition of an eMMC device.
#[derive(Debug, Clone)]
pub struct BootPartition {
    pub partition_number: u8,
    pub size: u64,
    pub is_write_protected: bool,
}

/// The replay-protected memory block, which cannot be wiped.
#[derive(Debug, Clone)]
pub struct RPMBPartition {
    pub size: u64,
    pub key_programmed: bool,
    pub counter: u64,
}

/// The user data area.
#[derive(Debug, Clone)]
pub struct UserDataArea {
    pub size: u64,
    pub is_trimmed: bool,
}

/// An eMMC device.
#[derive(Debug, Clone)]
pub struct EMMCDevice {
    pub device_path: String,
    pub capacity: u64,
    pub boot_partitions: Vec<BootPartition>,
    pub rpmb: Option<RPMBPartition>,
    pub user_data_area: UserDataArea,
    pub emmc_version: String,
}

/// A logical unit of a UFS device.
#[derive(Debug, Clone)]
pub struct UFSLogicalUnit {
    pub lun_id: u8,
    pub capacity: u64,
    pub is_boot_lun: bool,
}

/// A UFS device.
#[derive(Debug, Clone)]
pub struct UFSDevice {
    pub device_path: String,
    pub luns: Vec<UFSLogicalUnit>,
    pub supports_purge: bool,
    pub ufs_version: String,
}

/// The erase commands of an eMMC wipe.
#[derive(Debug, Clone, Copy, PartialEq, Eq, Structural)]
pub enum EmmcErase {
    /// `mmc sanitize`.
    Sanitize,
    /// `mmc erase secure` (CMD38).
    SecureErase,
    /// `blkdiscard`, which is taken as done whatever it reports.
    Trim,
}

/// The path of boot partition `n` of the device at `device_path`.
pub open spec fn boot_path(device_path: Seq<char>, n: u8) -> Seq<char> {
    device_path + "boot"@ + decimal(n as nat)
}

impl EMMCDevice {
    /// Whether a device is eMMC: an `mmcblk` path, or one whose extended CSD
    /// `mmc extcsd read` could read (`extcsd_readable`).
    pub fn detect(device_path: &str, extcsd_readable: bool) -> (b: bool)
        ensures
            b == (contains(device_path@, "mmcblk"@) || extcsd_readable),
    {
        let p = chars_of(device_path);
        has_str(&p, "mmcblk") || extcsd_readable
    }

    /// The layout assumed for an eMMC device: two boot partitions of 4 MiB,
    /// not write-protected; a 128 KiB replay-protected block with no key and
    /// counter 0; capacity and user area 0, not trimmed; version 5.1.
    pub fn get_configuration(device_path: &str) -> (d: EMMCDevice)
        ensures
            d.device_path@ == device_path@,
            d.capacity == 0,
            d.boot_partitions@.len() == 2,
            d.boot_partitions@[0].partition_number == 1 && d.boot_partitions@[0].size == 4 * 1024 * 1024
                && !d.boot_partitions@[0].is_write_protected,
            d.boot_partitions@[1].partition_number == 2 && d.boot_partitions@[1].size == 4 * 1024 * 1024
                && !d.boot_partitions@[1].is_write_protected,
            d.rpmb matches Some(r) && r.size == 128 * 1024 && !r.key_programmed && r.counter == 0,
            d.user_data_area.size == 0 && !d.user_data_area.is_trimmed,
            d.emmc_version@ == "5.1"@,
    {
        let mut boot: Vec<BootPartition> = Vec::new();
        boot.push(BootPartition { partition_number: 1, size: 4 * 1024 * 1024, is_write_protected: false });
        boot.push(BootPartition { partition_number: 2, size: 4 * 1024 * 1024, is_write_protected: false });
        EMMCDevice {
            device_path: device_path.to_string(),
            capacity: 0,
            boot_partitions: boot,
            rpmb: Some(RPMBPartition { size: 128 * 1024, key_programmed: false, counter: 0 }),
            user_data_area: UserDataArea { size: 0, is_trimmed: false },
            emmc_version: "5.1".to_string(),
        }
    }

    /// The erase commands in the order tried: sanitize, secure erase, TRIM.
    pub fn erase_order() -> (v: Vec<EmmcErase>)
        ensures
            v@ == seq![EmmcErase::Sanitize, EmmcErase::SecureErase, EmmcErase::Trim],
    {
        let mut v: Vec<EmmcErase> = Vec::new();
        v.push(EmmcErase::Sanitize);
        v.push(EmmcErase::SecureErase);
        v.push(EmmcErase::Trim);
        assert(v@ =~= seq![EmmcErase::Sanitize, EmmcErase::SecureErase, EmmcErase::Trim]);
        v
    }

    /// Whether the boot partitions are zeroed after the erase that
    /// succeeded: not after a sanitize, which covers them.
    pub fn wipes_boot_partitions_after(e: EmmcErase) -> (b: bool)
        ensures
            b == (e != EmmcErase::Sanitize),
    {
        match e {
            EmmcErase::Sanitize => false,
            _ => true,
        }
    }

    /// The paths of the boot partitions, in order: the device's path,
    /// `boot` and the partition's number.
    pub fn boot_partition_paths(&self) -> (v: Vec<String>)
        ensures
            v@.len() == self.boot_partitions@.len(),
            forall|i: int| 0 <= i < v@.len() ==> (#[trigger] v@[i])@ == boot_path(
                self.device_path@,
                self.boot_partitions@[i].partition_number,
            ),
    {
        let mut v: Vec<String> = Vec::new();
        let mut i: usize = 0;
        while i < self.boot_partitions.len()
            invariant
                i <= self.boot_partitions@.len(),
                v@.len() == i,
                forall|j: int| 0 <= j < i ==> (#[trigger] v@[j])@ == boot_path(
                    self.device_path@,
                    self.boot_partitions@[j].partition_number,
                ),
            decreases self.boot_partitions@.len() - i,
        {
            let mut p: Vec<char> = Vec::new();
            push_str(&mut p, self.device_path.as_str());
            push_str(&mut p, "boot");
            let mut d = decimal_exec(self.boot_partitions[i].partition_number as u64);
            p.append(&mut d);
            v.push(string_from_chars(&p));
            i += 1;
        }
        v
    }

    /// What is shown of the replay-protected block, if there is one: its
    /// size in KiB and whether its key is programmed.
    pub fn rpmb_summary(&self) -> (r: Option<(u64, bool)>)
        ensures
            self.rpmb is None ==> r is None,
            self.rpmb matches Some(b) ==> r == Some((b.size / 1024, b.key_programmed)),
    {
        match &self.rpmb {
            Some(b) => Some((b.size / 1024, b.key_programmed)),
            None => None,
        }
    }
}

impl UFSDevice {
    /// Whether `sg_inq` shows a UFS device.
    pub fn detect(sg_inq: Option<&str>) -> (b: bool)
        ensures
            b == (sg_inq matches Some(s) && contains(s@, "UFS"@)),
    {
        match sg_inq {
            Some(s) => {
                let c = chars_of(s);
                has_str(&c, "UFS")
            },
            None => false,
        }
    }

    /// Whether the wipe uses the purge command (an error where it fails);
    /// else a plain discard, whatever it reports.
    pub fn uses_purge(&self) -> (b: bool)
        ensures
            b == self.supports_purge,
    {
        self.supports_purge
    }
}

} // verus!
