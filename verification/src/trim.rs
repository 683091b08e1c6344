//! TRIM and deallocation: which drives support it, the arguments of the
//! tools that perform it, and what a trimmed block looks like.
use vstd::prelude::*;

use crate::text::{
    chars_of, contains, decimal, decimal_exec, has_str, lemma_rfind_char, parse_u64,
    parse_u64_exec, parse_uint, parse_uint_exec, rfind_char, rfind_char_exec, string_from_chars,
    subvec, trim, trim_exec,
};
use crate::detection::{reports_solid_state, DriveDetector};
use crate::{DriveError, DriveResult, DriveType};

verus! {

broadcast use vstd::string::group_string_axioms;

/// The TRIM operations.
pub struct TrimOperations;

/// Every byte of `b` equals its first.
pub open spec fn all_same(b: Seq<u8>) -> bool {
    forall|i: int| 0 <= i < b.len() ==> #[trigger] b[i] == b[0]
}

/// Every whole four-byte chunk of `b` equals the first one.
pub open spec fn repeats_first_dword(b: Seq<u8>) -> bool {
    forall|i: int| 0 <= i < (b.len() / 4) * 4 ==> #[trigger] b[i] == b[i % 4]
}

/// A block that a trimmed drive returns: one byte throughout, or, from eight
/// bytes on, one four-byte pattern repeated. An empty block shows no pattern.
pub open spec fn is_trimmed_block(b: Seq<u8>) -> bool {
    b.len() > 0 && (all_same(b) || (b.len() >= 8 && repeats_first_dword(b)))
}

/// The namespace of an NVMe path: the number after its last `n`, or 1.
pub open spec fn nsid_of(path: Seq<char>) -> Seq<char> {
    let p = rfind_char(path, 'n');
    if p >= 0 && parse_uint(path.skip(p + 1), 10, u32::MAX as nat) is Some {
        decimal(parse_uint(path.skip(p + 1), 10, u32::MAX as nat)->0)
    } else {
        "1"@
    }
}

/// What `hdparm -I` says of TRIM.
pub open spec fn reports_trim(s: Seq<char>) -> bool {
    contains(s, "Data Set Management TRIM supported"@) || contains(s, "TRIM supported"@)
        || contains(s, "Deterministic read data after TRIM"@)
}

/// The kind of a drive: NVMe by its path, else by what `smartctl -i` says of
/// its rotation: a solid-state device or a rotation rate of 0 is an SSD,
/// another rate in rpm an HDD.
pub open spec fn trim_drive_type(path: Seq<char>, info: Seq<char>) -> DriveType {
    if contains(path, "nvme"@) {
        DriveType::NVMe
    } else if reports_solid_state(info) {
        DriveType::SSD
    } else if contains(info, "rpm"@) {
        DriveType::HDD
    } else {
        DriveType::Unknown
    }
}

impl TrimOperations {
    /// Whether a block looks trimmed (`is_trimmed_block`).
    pub fn is_trim_pattern(buffer: &[u8]) -> (b: bool)
        ensures
            b == is_trimmed_block(buffer@),
    {
        if buffer.len() == 0 {
            return false;
        }
        let first = buffer[0];
        let mut i: usize = 0;
        let mut same = true;
        while i < buffer.len()
            invariant
                i <= buffer@.len(),
                first == buffer@[0],
                same == (forall|j: int| 0 <= j < i ==> #[trigger] buffer@[j] == first),
            decreases buffer@.len() - i,
        {
            if buffer[i] != first {
                same = false;
            }
            i += 1;
        }
        if same {
            return true;
        }
        if buffer.len() >= 8 {
            let whole: usize = (buffer.len() / 4) * 4;
            let mut k: usize = 0;
            let mut matches = true;
            while k < whole
                invariant
                    whole == (buffer@.len() / 4) * 4,
                    whole <= buffer@.len(),
                    k <= whole,
                    matches == (forall|j: int| 0 <= j < k ==> #[trigger] buffer@[j] == buffer@[j % 4]),
                decreases whole - k,
            {
                if buffer[k] != buffer[k % 4] {
                    matches = false;
                }
                k += 1;
            }
            if matches {
                return true;
            }
        }
        false
    }

    /// The namespace id of an NVMe path (`nsid_of`).
    pub fn get_nvme_nsid(device_path: &str) -> (r: DriveResult<String>)
        ensures
            r matches Ok(s) && s@ == nsid_of(device_path@),
    {
        let path = chars_of(device_path);
        proof {
            lemma_rfind_char(path@, 'n');
        }
        if let Some(n_pos) = rfind_char_exec(&path, 'n') {
            let len = path.len();
            let after = subvec(&path, n_pos + 1, len);
            assert(after@ =~= path@.skip(n_pos + 1));
            if let Some(nsid) = parse_uint_exec(&after, 10, u32::MAX as u64) {
                let digits = decimal_exec(nsid);
                return Ok(string_from_chars(&digits));
            }
        }
        proof {
            reveal_strlit("1");
        }
        Ok("1".to_string())
    }

    /// Whether `hdparm -I` reports TRIM (`reports_trim`).
    pub fn check_ata_trim_support(hdparm_identify: &str) -> (b: bool)
        ensures
            b == reports_trim(hdparm_identify@),
    {
        let s = chars_of(hdparm_identify);
        has_str(&s, "Data Set Management TRIM supported") || has_str(&s, "TRIM supported")
            || has_str(&s, "Deterministic read data after TRIM")
    }

    /// The kind of a drive (`trim_drive_type`); `smartctl_info` is what
    /// `smartctl -i` prints for it, read only for a path that is not NVMe.
    pub fn get_drive_type(device_path: &str, smartctl_info: &str) -> (r: DriveResult<DriveType>)
        ensures
            r == Ok::<DriveType, DriveError>(trim_drive_type(device_path@, smartctl_info@)),
    {
        let path = chars_of(device_path);
        if has_str(&path, "nvme") {
            return Ok(DriveType::NVMe);
        }
        let info = chars_of(smartctl_info);
        if DriveDetector::reports_solid_state(smartctl_info) {
            Ok(DriveType::SSD)
        } else if has_str(&info, "rpm") {
            Ok(DriveType::HDD)
        } else {
            Ok(DriveType::Unknown)
        }
    }

    /// Whether a drive supports TRIM: an SSD where `hdparm -I` reports it,
    /// every NVMe drive (deallocate), no other drive.
    pub fn supports_trim(drive_type: DriveType, hdparm_identify: &str) -> (r: DriveResult<bool>)
        ensures
            r == Ok::<bool, DriveError>(match drive_type {
                DriveType::SSD => reports_trim(hdparm_identify@),
                DriveType::NVMe => true,
                _ => false,
            }),
    {
        match drive_type {
            DriveType::SSD => Ok(Self::check_ata_trim_support(hdparm_identify)),
            DriveType::NVMe => Ok(true),
            _ => Ok(false),
        }
    }

    /// The device size in bytes that `blockdev --getsize64` prints.
    pub fn device_size_from_blockdev(output: &str) -> (r: DriveResult<u64>)
        ensures
            parse_u64(trim(output@)) matches Some(v) ==> r == Ok::<u64, DriveError>(v as u64),
            parse_u64(trim(output@)) is None ==> r matches Err(DriveError::HardwareCommandFailed(_)),
    {
        let cs = chars_of(output);
        let t = trim_exec(&cs);
        match parse_u64_exec(&t) {
            Some(v) => Ok(v),
            None => Err(DriveError::HardwareCommandFailed("Failed to parse device size".to_string())),
        }
    }

    /// The sector range that `hdparm --trim-sector-ranges` takes to trim a
    /// device of `size` bytes: `0:` and the number of whole 512-byte sectors.
    pub fn trim_range_argument(size: u64) -> (s: String)
        ensures
            s@ == "0:"@ + decimal((size / 512) as nat),
    {
        let mut v = chars_of("0:");
        let mut digits = decimal_exec(size / 512);
        v.append(&mut digits);
        string_from_chars(&v)
    }
}

/// The samples of `s` that could be read (non-empty), and of those the ones
/// that look trimmed.
pub open spec fn trim_counts(s: Seq<Vec<u8>>) -> (nat, nat)
    decreases s.len(),
{
    if s.len() == 0 {
        (0, 0)
    } else {
        let c = trim_counts(s.drop_last());
        let b = s.last()@;
        if b.len() == 0 {
            c
        } else if is_trimmed_block(b) {
            (c.0 + 1, c.1 + 1)
        } else {
            (c.0 + 1, c.1)
        }
    }
}

/// A uniformly random offset below `n` (`rand::thread_rng`,
/// `Rng::gen_range(0..n)`); which one is chance.
#[verifier::external_body]
fn random_below(n: u64) -> (r: u64)
    requires
        n > 0,
    ensures
        r < n,
{
    rand::Rng::gen_range(&mut rand::thread_rng(), 0..n)
}

impl TrimOperations {
    /// Where one TRIM sample of 4096 bytes is read on a device of
    /// `device_size` bytes: at random below the size less one sample.
    pub fn sample_offset(device_size: u64) -> (o: u64)
        requires
            device_size > 4096,
        ensures
            o + 4096 < device_size,
    {
        random_below(device_size - 4096)
    }

    /// The samples read and the samples that look trimmed (`trim_counts`).
    pub fn trim_sample_counts(samples: &Vec<Vec<u8>>) -> (r: (u64, u64))
        ensures
            r.0 == trim_counts(samples@).0,
            r.1 == trim_counts(samples@).1,
    {
        let mut checked: u64 = 0;
        let mut trimmed: u64 = 0;
        let mut i: usize = 0;
        assert(samples@.take(0) =~= Seq::<Vec<u8>>::empty());
        while i < samples.len()
            invariant
                i <= samples@.len(),
                checked == trim_counts(samples@.take(i as int)).0,
                trimmed == trim_counts(samples@.take(i as int)).1,
                trimmed <= checked,
                checked <= i,
            decreases samples@.len() - i,
        {
            assert(samples@.take(i + 1).drop_last() =~= samples@.take(i as int));
            assert(samples@.take(i + 1).last() == samples@[i as int]);
            let b = &samples[i];
            if b.len() > 0 {
                if Self::is_trim_pattern(b.as_slice()) {
                    trimmed = trimmed + 1;
                }
                checked = checked + 1;
            }
            i += 1;
        }
        assert(samples@.take(samples@.len() as int) =~= samples@);
        (checked, trimmed)
    }

    /// Whether TRIM worked: some samples were read and more than nine in
    /// ten of them look trimmed.
    pub fn trim_effective(trimmed: u64, checked: u64) -> (b: bool)
        ensures
            b == (checked > 0 && 10 * trimmed > 9 * checked),
    {
        checked > 0 && 10 * (trimmed as u128) > 9 * (checked as u128)
    }
}

} // verus!
