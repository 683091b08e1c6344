//! Drive detection: which block devices are drives, what kind each is, and
//! what its identify reports say it can do.
use vstd::prelude::*;

use crate::text::{
    chars_of, contains, has_str, lines, second_piece, second_piece_exec, split_lines,
    starts_with, starts_with_str, string_from_chars, trim, trim_exec, views, split_words, words,
    opt64, parse_u64, parse_u64_exec,
};
use crate::{DriveResult, DriveType, EncryptionStatus, SanitizeOption};

verus! {

broadcast use vstd::string::group_string_axioms;

/// Drive detection.
pub struct DriveDetector;

/// A block device that is no physical drive: loop, RAM, device-mapper,
/// optical and compressed-RAM devices.
pub open spec fn skipped_device(n: Seq<char>) -> bool {
    starts_with(n, "loop"@) || starts_with(n, "ram"@) || starts_with(n, "dm-"@) || starts_with(
        n,
        "sr"@,
    ) || starts_with(n, "zram"@)
}

/// The value of the first line of `ls` that holds `field`: the trimmed text
/// between its first and second `:`.
pub open spec fn field_in(ls: Seq<Seq<char>>, field: Seq<char>) -> Option<Seq<char>>
    decreases ls.len(),
{
    if ls.len() == 0 {
        None
    } else if contains(ls[0], field) {
        match second_piece(ls[0], ':') {
            Some(p) => Some(trim(p)),
            None => None,
        }
    } else {
        field_in(ls.drop_first(), field)
    }
}

/// The rotation rate that `smartctl -i` reports: the number that opens the
/// value of its first `Rotation Rate:` line, if it reads as one.
pub open spec fn rotation_rate(info: Seq<char>) -> Option<nat> {
    match field_in(lines(info), "Rotation Rate:"@) {
        Some(v) => if words(v).len() > 0 {
            parse_u64(words(v)[0])
        } else {
            None
        },
        None => None,
    }
}

/// `smartctl -i` reports a solid-state drive: it says so, or its rotation
/// rate is 0.
pub open spec fn reports_solid_state(info: Seq<char>) -> bool {
    contains(info, "Solid State Device"@) || rotation_rate(info) == Some(0nat)
}

/// The kind of a drive: NVMe by its path, then USB, then RAID membership,
/// then by what `smartctl -i` says of rotation or solid state: a reported
/// rotation rate of 0 or a solid-state device is an SSD, any other reported
/// rate an HDD.
pub open spec fn drive_type_of(path: Seq<char>, info: Seq<char>, is_usb: bool, is_raid: bool) -> DriveType {
    if contains(path, "nvme"@) {
        DriveType::NVMe
    } else if is_usb {
        DriveType::USB
    } else if is_raid {
        DriveType::RAID
    } else if contains(info, "Rotation Rate:"@) {
        if reports_solid_state(info) {
            DriveType::SSD
        } else {
            DriveType::HDD
        }
    } else if contains(info, "SSD"@) || contains(info, "Solid State"@) {
        DriveType::SSD
    } else if contains(info, "rpm"@) {
        DriveType::HDD
    } else {
        DriveType::Unknown
    }
}

/// `p` occurs in `b` at `i`.
pub open spec fn bytes_at(b: Seq<u8>, p: Seq<u8>, i: int) -> bool {
    0 <= i && i + p.len() <= b.len() && b.subrange(i, i + p.len()) == p
}

/// `p` occurs somewhere in `b`.
pub open spec fn holds_bytes(b: Seq<u8>, p: Seq<u8>) -> bool {
    exists|i: int| bytes_at(b, p, i)
}

/// The BitLocker volume signature.
pub open spec fn bitlocker_signature() -> Seq<u8> {
    seq![0x2du8, 0x46, 0x56, 0x45, 0x2d, 0x46, 0x53, 0x2d]
}

/// The Core Storage signature.
pub open spec fn core_storage_signature() -> Seq<u8> {
    seq![0x43u8, 0x53, 0, 0, 0, 0, 0, 0]
}

/// The APFS container signature.
pub open spec fn apfs_signature() -> Seq<u8> {
    seq![0x4eu8, 0x58, 0x53, 0x42, 0, 0, 0, 0]
}

/// The sanitize operations that `nvme id-ctrl` reports; for an NVMe path
/// that reports none, crypto erase and block erase.
pub open spec fn sanitize_options_of(path: Seq<char>, s: Seq<char>) -> Seq<SanitizeOption> {
    let found = (if contains(s, "Crypto Erase Supported"@) {
        seq![SanitizeOption::CryptoErase]
    } else {
        seq![]
    }) + (if contains(s, "Block Erase Supported"@) {
        seq![SanitizeOption::BlockErase]
    } else {
        seq![]
    }) + (if contains(s, "Overwrite Supported"@) {
        seq![SanitizeOption::Overwrite]
    } else {
        seq![]
    }) + (if contains(s, "Crypto Scramble Supported"@) {
        seq![SanitizeOption::CryptoScramble]
    } else {
        seq![]
    });
    if found.len() == 0 && contains(path, "nvme"@) {
        seq![SanitizeOption::CryptoErase, SanitizeOption::BlockErase]
    } else {
        found
    }
}

/// A line of `/proc/mounts` that mounts a partition of `dev` at `/`.
pub open spec fn root_mount_line(l: Seq<char>, dev: Seq<char>) -> bool {
    let w = words(l);
    w.len() >= 2 && w[1] == "/"@ && starts_with(w[0], dev)
}

fn bytes_at_exec(b: &[u8], p: &[u8], i: usize) -> (r: bool)
    ensures
        r == bytes_at(b@, p@, i as int),
{
    let blen = b.len();
    let plen = p.len();
    if i > blen || plen > blen - i {
        return false;
    }
    let mut j: usize = 0;
    while j < plen
        invariant
            blen == b@.len(),
            plen == p@.len(),
            i + plen <= blen,
            j <= p@.len(),
            forall|k: int| 0 <= k < j ==> b@[i + k] == p@[k],
        decreases p@.len() - j,
    {
        if b[i + j] != p[j] {
            assert(b@.subrange(i as int, i + p@.len())[j as int] != p@[j as int]);
            return false;
        }
        j += 1;
    }
    assert(b@.subrange(i as int, i + p@.len()) =~= p@);
    true
}

fn holds_bytes_exec(b: &[u8], p: &[u8]) -> (r: bool)
    ensures
        r == holds_bytes(b@, p@),
{
    let mut i: usize = 0;
    while i < b.len()
        invariant
            i <= b@.len(),
            forall|k: int| 0 <= k < i ==> !bytes_at(b@, p@, k),
        decreases b@.len() - i,
    {
        if bytes_at_exec(b, p, i) {
            return true;
        }
        i += 1;
    }
    if bytes_at_exec(b, p, b.len()) {
        return true;
    }
    assert forall|k: int| !bytes_at(b@, p@, k) by {
        if 0 <= k && k + p@.len() <= b@.len() && k > b@.len() {
        }
    }
    false
}

impl DriveDetector {
    /// Whether a block device is skipped (`skipped_device`).
    pub fn should_skip_device(device_name: &str) -> (b: bool)
        ensures
            b == skipped_device(device_name@),
    {
        let n = chars_of(device_name);
        starts_with_str(&n, "loop") || starts_with_str(&n, "ram") || starts_with_str(&n, "dm-")
            || starts_with_str(&n, "sr") || starts_with_str(&n, "zram")
    }

    /// The value of a field of `smartctl -i` (`field_in` of its lines).
    pub fn extract_field(output: &str, field_name: &str) -> (r: Option<String>)
        ensures
            match r {
                Some(s) => field_in(lines(output@), field_name@) == Some(s@),
                None => field_in(lines(output@), field_name@) is None,
            },
    {
        let cs = chars_of(output);
        let field = chars_of(field_name);
        let ls = split_lines(&cs);
        let ghost all = views(ls@);
        let mut i: usize = 0;
        assert(all.skip(0) =~= all);
        while i < ls.len()
            invariant
                all == views(ls@),
                all == lines(output@),
                field@ == field_name@,
                i <= all.len(),
                field_in(all, field@) == field_in(all.skip(i as int), field@),
            decreases all.len() - i,
        {
            assert(all.skip(i as int).drop_first() =~= all.skip(i + 1));
            assert(all.skip(i as int)[0] == ls@[i as int]@);
            if crate::text::has(&ls[i], &field) {
                return match second_piece_exec(&ls[i], ':') {
                    Some(p) => {
                        let t = trim_exec(&p);
                        Some(string_from_chars(&t))
                    },
                    None => None,
                };
            }
            i += 1;
        }
        None
    }

    /// The rotation rate in `smartctl -i` (`rotation_rate`).
    pub fn rotation_rate_of(info: &str) -> (r: Option<u64>)
        ensures
            opt64(r) == rotation_rate(info@),
    {
        match Self::extract_field(info, "Rotation Rate:") {
            Some(v) => {
                let cs = chars_of(v.as_str());
                let ws = split_words(&cs);
                if ws.len() > 0 {
                    assert(views(ws@)[0] == ws@[0]@);
                    parse_u64_exec(&ws[0])
                } else {
                    None
                }
            },
            None => None,
        }
    }

    /// Whether `smartctl -i` reports a solid-state drive
    /// (`reports_solid_state`).
    pub fn reports_solid_state(info: &str) -> (b: bool)
        ensures
            b == reports_solid_state(info@),
    {
        let c = chars_of(info);
        if has_str(&c, "Solid State Device") {
            return true;
        }
        match Self::rotation_rate_of(info) {
            Some(n) => n == 0,
            None => false,
        }
    }

    /// The kind of a drive (`drive_type_of`), from its path, what `smartctl -i`
    /// printed, and whether it hangs on USB and is a RAID member.
    pub fn determine_drive_type(device_path: &str, smartctl_output: &str, is_usb: bool, is_raid: bool) -> (r:
        DriveResult<DriveType>)
        ensures
            r matches Ok(t) && t == drive_type_of(device_path@, smartctl_output@, is_usb, is_raid),
    {
        let path = chars_of(device_path);
        if has_str(&path, "nvme") {
            return Ok(DriveType::NVMe);
        }
        if is_usb {
            return Ok(DriveType::USB);
        }
        if is_raid {
            return Ok(DriveType::RAID);
        }
        let info = chars_of(smartctl_output);
        if has_str(&info, "Rotation Rate:") {
            if Self::reports_solid_state(smartctl_output) {
                Ok(DriveType::SSD)
            } else {
                Ok(DriveType::HDD)
            }
        } else if has_str(&info, "SSD") || has_str(&info, "Solid State") {
            Ok(DriveType::SSD)
        } else if has_str(&info, "rpm") {
            Ok(DriveType::HDD)
        } else {
            Ok(DriveType::Unknown)
        }
    }

    /// Whether a device is a RAID member: `mdadm --examine` succeeded and names
    /// a RAID level or array UUID, or `sg_inq` mentions RAID.
    pub fn raid_member_from_reports(mdadm_examine: Option<&str>, sg_inq: Option<&str>) -> (b: bool)
        ensures
            b == ((mdadm_examine matches Some(m) && (contains(m@, "Raid Level"@) || contains(
                m@,
                "Array UUID"@,
            ))) || (sg_inq matches Some(s) && contains(s@, "RAID"@))),
    {
        if let Some(m) = mdadm_examine {
            let mc = chars_of(m);
            if has_str(&mc, "Raid Level") || has_str(&mc, "Array UUID") {
                return true;
            }
        }
        if let Some(s) = sg_inq {
            let sc = chars_of(s);
            if has_str(&sc, "RAID") {
                return true;
            }
        }
        false
    }

    /// Whether `hdparm -I` reports the security erase feature.
    pub fn secure_erase_from_identify(hdparm_identify: &str) -> (b: bool)
        ensures
            b == (contains(hdparm_identify@, "supported: enhanced erase"@) || contains(
                hdparm_identify@,
                "SECURITY ERASE UNIT"@,
            )),
    {
        let s = chars_of(hdparm_identify);
        has_str(&s, "supported: enhanced erase") || has_str(&s, "SECURITY ERASE UNIT")
    }

    /// Whether `hdparm -I` reports the enhanced security erase.
    pub fn enhanced_erase_from_identify(hdparm_identify: &str) -> (b: bool)
        ensures
            b == contains(hdparm_identify@, "enhanced erase"@),
    {
        let s = chars_of(hdparm_identify);
        has_str(&s, "enhanced erase")
    }

    /// The sanitize operations of an NVMe drive (`sanitize_options_of`).
    pub fn sanitize_options_from_id_ctrl(device_path: &str, id_ctrl: &str) -> (v: Vec<SanitizeOption>)
        ensures
            v@ == sanitize_options_of(device_path@, id_ctrl@),
    {
        let s = chars_of(id_ctrl);
        let mut options: Vec<SanitizeOption> = Vec::new();
        if has_str(&s, "Crypto Erase Supported") {
            options.push(SanitizeOption::CryptoErase);
        }
        if has_str(&s, "Block Erase Supported") {
            options.push(SanitizeOption::BlockErase);
        }
        if has_str(&s, "Overwrite Supported") {
            options.push(SanitizeOption::Overwrite);
        }
        if has_str(&s, "Crypto Scramble Supported") {
            options.push(SanitizeOption::CryptoScramble);
        }
        let path = chars_of(device_path);
        if options.len() == 0 && has_str(&path, "nvme") {
            options.push(SanitizeOption::CryptoErase);
            options.push(SanitizeOption::BlockErase);
        }
        assert(options@ =~= sanitize_options_of(device_path@, id_ctrl@));
        options
    }

    /// Whether a first sector holds the BitLocker signature `-FVE-FS-`.
    pub fn has_bitlocker_signature(sector: &[u8]) -> (b: bool)
        ensures
            b == holds_bytes(sector@, bitlocker_signature()),
    {
        let sig: [u8; 8] = [0x2d, 0x46, 0x56, 0x45, 0x2d, 0x46, 0x53, 0x2d];
        assert(sig@ =~= bitlocker_signature());
        holds_bytes_exec(sector, &sig)
    }

    /// Whether the first blocks hold a Core Storage or APFS signature.
    pub fn has_filevault_signature(blocks: &[u8]) -> (b: bool)
        ensures
            b == (holds_bytes(blocks@, core_storage_signature()) || holds_bytes(
                blocks@,
                apfs_signature(),
            )),
    {
        let cs: [u8; 8] = [0x43, 0x53, 0, 0, 0, 0, 0, 0];
        let nx: [u8; 8] = [0x4e, 0x58, 0x53, 0x42, 0, 0, 0, 0];
        assert(cs@ =~= core_storage_signature());
        assert(nx@ =~= apfs_signature());
        holds_bytes_exec(blocks, &cs) || holds_bytes_exec(blocks, &nx)
    }

    /// The encryption of a drive from what was found, first match winning:
    /// a self-encrypting drive, LUKS, BitLocker, FileVault, VeraCrypt.
    pub fn encryption_from_findings(
        is_sed: bool,
        is_luks: bool,
        is_bitlocker: bool,
        is_filevault: bool,
        is_veracrypt: bool,
    ) -> (e: EncryptionStatus)
        ensures
            e == (if is_sed {
                EncryptionStatus::OPAL
            } else if is_luks {
                EncryptionStatus::LUKS
            } else if is_bitlocker {
                EncryptionStatus::BitLocker
            } else if is_filevault {
                EncryptionStatus::FileVault
            } else if is_veracrypt {
                EncryptionStatus::VeraCrypt
            } else {
                EncryptionStatus::Unencrypted
            }),
    {
        if is_sed {
            EncryptionStatus::OPAL
        } else if is_luks {
            EncryptionStatus::LUKS
        } else if is_bitlocker {
            EncryptionStatus::BitLocker
        } else if is_filevault {
            EncryptionStatus::FileVault
        } else if is_veracrypt {
            EncryptionStatus::VeraCrypt
        } else {
            EncryptionStatus::Unencrypted
        }
    }

    /// Whether a drive is mounted: a line of `/proc/mounts` begins with its path.
    pub fn mounted_in(mounts: &str, device_path: &str) -> (b: bool)
        ensures
            b == exists|i: int| 0 <= i < lines(mounts@).len() && starts_with(#[trigger] lines(mounts@)[i], device_path@),
    {
        let cs = chars_of(mounts);
        let ls = split_lines(&cs);
        let ghost all = views(ls@);
        let mut i: usize = 0;
        while i < ls.len()
            invariant
                all == views(ls@),
                all == lines(mounts@),
                i <= all.len(),
                forall|j: int| 0 <= j < i ==> !starts_with(#[trigger] all[j], device_path@),
            decreases all.len() - i,
        {
            assert(all[i as int] == ls@[i as int]@);
            if starts_with_str(&ls[i], device_path) {
                return true;
            }
            i += 1;
        }
        false
    }

    /// Whether a drive holds the system: a line of `/proc/mounts` mounts one of
    /// its partitions at `/`, or the kernel command line names it.
    pub fn system_drive_in(mounts: &str, cmdline: Option<&str>, device_path: &str) -> (b: bool)
        ensures
            b == ((exists|i: int| 0 <= i < lines(mounts@).len() && root_mount_line(#[trigger] lines(mounts@)[i], device_path@))
                || (cmdline matches Some(c) && contains(c@, device_path@))),
    {
        let cs = chars_of(mounts);
        let ls = split_lines(&cs);
        let ghost all = views(ls@);
        let mut i: usize = 0;
        while i < ls.len()
            invariant
                all == views(ls@),
                all == lines(mounts@),
                i <= all.len(),
                forall|j: int| 0 <= j < i ==> !root_mount_line(#[trigger] all[j], device_path@),
            decreases all.len() - i,
        {
            assert(all[i as int] == ls@[i as int]@);
            let parts = split_words(&ls[i]);
            if parts.len() >= 2 {
                let ghost w = views(parts@);
                assert(w[0] == parts@[0]@ && w[1] == parts@[1]@);
                let root = chars_of("/");
                if crate::text::chars_eq(&parts[1], &root) && starts_with_str(&parts[0], device_path) {
                    return true;
                }
            }
            i += 1;
        }
        if let Some(c) = cmdline {
            let cc = chars_of(c);
            let dev = chars_of(device_path);
            return crate::text::has(&cc, &dev);
        }
        false
    }
}

/// Law: the path and the bus decide before anything `smartctl` prints: an
/// NVMe path is NVMe; otherwise a USB-attached drive is USB; otherwise a RAID
/// member is RAID. Only for the rest does `smartctl -i` count, where a
/// reported rotation rate above 0 (not called a solid-state device) makes
/// an HDD and a rate of 0 an SSD.
pub proof fn lemma_drive_type_precedence(path: Seq<char>, info: Seq<char>, is_usb: bool, is_raid: bool)
    ensures
        contains(path, "nvme"@) ==> drive_type_of(path, info, is_usb, is_raid) == DriveType::NVMe,
        !contains(path, "nvme"@) && is_usb ==> drive_type_of(path, info, is_usb, is_raid)
            == DriveType::USB,
        !contains(path, "nvme"@) && !is_usb && is_raid ==> drive_type_of(path, info, is_usb, is_raid)
            == DriveType::RAID,
        (!contains(path, "nvme"@) && !is_usb && !is_raid && contains(info, "Rotation Rate:"@) && (
        rotation_rate(info) matches Some(n) && n > 0) && !contains(info, "Solid State Device"@))
            ==> drive_type_of(path, info, is_usb, is_raid) == DriveType::HDD,
        (!contains(path, "nvme"@) && !is_usb && !is_raid && contains(info, "Rotation Rate:"@)
            && rotation_rate(info) == Some(0nat)) ==> drive_type_of(path, info, is_usb, is_raid)
            == DriveType::SSD,
{
}

} // verus!
