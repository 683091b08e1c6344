//! Hybrid drives (SSHD): a magnetic disk with a flash cache. What `smartctl
//! -a` says of the disk and its cache, the regions pinned in the cache, and
//! which way the cache is switched off for a wipe.
use vstd::prelude::*;

use crate::text::{
    chars_of, contains, has_str, lines, parse_uint, parse_uint_exec, second_piece,
    second_piece_exec, split_lines, split_words, string_from_chars, trim, trim_exec, views,
    without, without_exec, words,
};

verus! {

broadcast use vstd::string::group_string_axioms;

/// The magnetic part of a hybrid drive.
#[derive(Debug, Clone)]
pub struct HDDInfo {
    pub capacity: u64,
    pub rpm: u32,
    pub is_smr: bool,
}

/// The flash cache of a hybrid drive.
#[derive(Debug, Clone)]
pub struct SSDCacheInfo {
    pub cache_size: u64,
    pub cache_algorithm: String,
    pub is_pinned_data_present: bool,
    pub cache_enabled: bool,
}

/// A region held in the cache.
#[derive(Debug, Clone)]
pub struct PinnedRegion {
    pub start_lba: u64,
    pub length: u64,
    pub pinned_by: String,
}

/// A hybrid drive.
#[derive(Debug, Clone)]
pub struct HybridDrive {
    pub device_path: String,
    pub hdd_portion: HDDInfo,
    pub ssd_cache: SSDCacheInfo,
    pub pinned_data: Vec<PinnedRegion>,
    pub manufacturer: String,
}

/// How the write cache is switched off for a wipe.
#[derive(Debug, Clone, Copy, PartialEq, Eq, Structural)]
pub enum CacheDisableRoute {
    /// Seagate's SCT command, then `hdparm -W 0`.
    Seagate,
    /// `hdparm -W 0`, then a flush, for Western Digital.
    WesternDigital,
    /// `hdparm -W 0` alone.
    Generic,
}

/// The value that the first line for which `f` gives one gives.
pub open spec fn first_hit(ls: Seq<Seq<char>>, f: spec_fn(Seq<char>) -> Option<nat>) -> Option<nat>
    decreases ls.len(),
{
    if ls.len() == 0 {
        None
    } else if f(ls[0]) is Some {
        f(ls[0])
    } else {
        first_hit(ls.drop_first(), f)
    }
}

/// The first word of `p`, if it has one.
pub open spec fn first_word(p: Option<Seq<char>>) -> Option<Seq<char>> {
    match p {
        Some(q) => if words(q).len() > 0 {
            Some(words(q)[0])
        } else {
            None
        },
        None => None,
    }
}

/// The byte count of a `User Capacity` line: the first word after the first
/// `[`, without commas.
pub open spec fn capacity_in(l: Seq<char>) -> Option<nat> {
    if contains(l, "User Capacity"@) {
        match first_word(second_piece(l, '[')) {
            Some(w) => parse_uint(without(w, ','), 10, u64::MAX as nat),
            None => None,
        }
    } else {
        None
    }
}

/// The speed of a `Rotation Rate` line: the first word after the first `:`.
pub open spec fn rpm_in(l: Seq<char>) -> Option<nat> {
    if contains(l, "Rotation Rate"@) {
        match first_word(second_piece(l, ':')) {
            Some(w) => parse_uint(w, 10, u32::MAX as nat),
            None => None,
        }
    } else {
        None
    }
}

/// 8, 16 or 32 GiB for a line on the NAND, SSD or cache that holds `8`,
/// else `16`, else `32`.
pub open spec fn cache_size_in(l: Seq<char>) -> Option<nat> {
    if contains(l, "NAND"@) || contains(l, "SSD"@) || contains(l, "Cache"@) {
        if contains(l, "8"@) {
            Some(8 * 1024 * 1024 * 1024)
        } else if contains(l, "16"@) {
            Some(16 * 1024 * 1024 * 1024)
        } else if contains(l, "32"@) {
            Some(32 * 1024 * 1024 * 1024)
        } else {
            None
        }
    } else {
        None
    }
}

/// The first line that names the vendor or model family and has a `:`.
pub open spec fn manufacturer_line(ls: Seq<Seq<char>>) -> Option<Seq<char>>
    decreases ls.len(),
{
    if ls.len() == 0 {
        None
    } else if (contains(ls[0], "Vendor"@) || contains(ls[0], "Model Family"@)) && second_piece(
        ls[0],
        ':',
    ) is Some {
        Some(trim(second_piece(ls[0], ':')->0))
    } else {
        manufacturer_line(ls.drop_first())
    }
}

/// Whether `smartctl -a` shows a hybrid drive.
pub open spec fn hybrid_report(s: Seq<char>) -> bool {
    contains(s, "Hybrid"@) || contains(s, "SSHD"@) || contains(s, "SSD Cache"@) || (contains(
        s,
        "rpm"@,
    ) && contains(s, "NAND"@))
}

fn first_word_exec(p: &Option<Vec<char>>) -> (r: Option<Vec<char>>)
    ensures
        r matches Some(w) ==> first_word(match p {
            Some(q) => Some(q@),
            None => None,
        }) == Some(w@),
        r is None ==> first_word(match p {
            Some(q) => Some(q@),
            None => None,
        }) is None,
{
    match p {
        Some(q) => {
            let ws = split_words(q);
            if ws.len() > 0 {
                assert(views(ws@)[0] == ws@[0]@);
                Some(ws[0].clone())
            } else {
                None
            }
        },
        None => None,
    }
}

fn capacity_of_line(l: &Vec<char>) -> (r: Option<u64>)
    ensures
        r matches Some(v) ==> capacity_in(l@) == Some(v as nat),
        r is None ==> capacity_in(l@) is None,
{
    proof {
        reveal_strlit("User Capacity");
    }
    if !has_str(l, "User Capacity") {
        return None;
    }
    let p = second_piece_exec(l, '[');
    match first_word_exec(&p) {
        Some(w) => {
            let digits = without_exec(&w, ',');
            parse_uint_exec(&digits, 10, u64::MAX)
        },
        None => None,
    }
}

fn rpm_of_line(l: &Vec<char>) -> (r: Option<u32>)
    ensures
        r matches Some(v) ==> rpm_in(l@) == Some(v as nat),
        r is None ==> rpm_in(l@) is None,
{
    if !has_str(l, "Rotation Rate") {
        return None;
    }
    let p = second_piece_exec(l, ':');
    match first_word_exec(&p) {
        Some(w) => match parse_uint_exec(&w, 10, u32::MAX as u64) {
            Some(v) => Some(v as u32),
            None => None,
        },
        None => None,
    }
}

fn cache_size_of_line(l: &Vec<char>) -> (r: Option<u64>)
    ensures
        r matches Some(v) ==> cache_size_in(l@) == Some(v as nat),
        r is None ==> cache_size_in(l@) is None,
{
    if has_str(l, "NAND") || has_str(l, "SSD") || has_str(l, "Cache") {
        if has_str(l, "8") {
            Some(8 * 1024 * 1024 * 1024)
        } else if has_str(l, "16") {
            Some(16 * 1024 * 1024 * 1024)
        } else if has_str(l, "32") {
            Some(32 * 1024 * 1024 * 1024)
        } else {
            None
        }
    } else {
        None
    }
}

impl HybridDrive {
    /// Whether `smartctl -a` shows a hybrid drive: it names a hybrid, an
    /// SSHD or an SSD cache, or both a rotation speed and NAND.
    pub fn detect(smartctl_all: &str) -> (b: bool)
        ensures
            b == hybrid_report(smartctl_all@),
    {
        let s = chars_of(smartctl_all);
        has_str(&s, "Hybrid") || has_str(&s, "SSHD") || has_str(&s, "SSD Cache") || (has_str(
            &s,
            "rpm",
        ) && has_str(&s, "NAND"))
    }

    /// The capacity in bytes from the first `User Capacity` line that gives
    /// one (`capacity_in`); 0 where none does.
    pub fn parse_capacity(output: &str) -> (n: u64)
        ensures
            n == match first_hit(lines(output@), |l: Seq<char>| capacity_in(l)) {
                Some(v) => v,
                None => 0,
            },
    {
        let ghost f = |l: Seq<char>| capacity_in(l);
        let s = chars_of(output);
        let ls = split_lines(&s);
        let mut i: usize = 0;
        assert(views(ls@).skip(0) =~= views(ls@));
        while i < ls.len()
            invariant
                f == (|l: Seq<char>| capacity_in(l)),
                i <= ls@.len(),
                views(ls@) == lines(output@),
                first_hit(views(ls@), f) == first_hit(views(ls@).skip(i as int), f),
            decreases ls@.len() - i,
        {
            assert(views(ls@).skip(i as int).drop_first() =~= views(ls@).skip(i + 1));
            assert(views(ls@).skip(i as int)[0] == ls@[i as int]@);
            if let Some(v) = capacity_of_line(&ls[i]) {
                return v;
            }
            i += 1;
        }
        0
    }

    /// The rotation speed from the first `Rotation Rate` line that gives one
    /// (`rpm_in`); 5400 where none does.
    pub fn parse_rpm(output: &str) -> (n: u32)
        ensures
            n == match first_hit(lines(output@), |l: Seq<char>| rpm_in(l)) {
                Some(v) => v,
                None => 5400,
            },
    {
        let ghost f = |l: Seq<char>| rpm_in(l);
        let s = chars_of(output);
        let ls = split_lines(&s);
        let mut i: usize = 0;
        assert(views(ls@).skip(0) =~= views(ls@));
        while i < ls.len()
            invariant
                f == (|l: Seq<char>| rpm_in(l)),
                i <= ls@.len(),
                views(ls@) == lines(output@),
                first_hit(views(ls@), f) == first_hit(views(ls@).skip(i as int), f),
            decreases ls@.len() - i,
        {
            assert(views(ls@).skip(i as int).drop_first() =~= views(ls@).skip(i + 1));
            assert(views(ls@).skip(i as int)[0] == ls@[i as int]@);
            if let Some(v) = rpm_of_line(&ls[i]) {
                return v;
            }
            i += 1;
        }
        5400
    }

    /// The cache size from the first line that gives one (`cache_size_in`);
    /// 8 GiB where none does.
    pub fn parse_cache_size(output: &str) -> (n: u64)
        ensures
            n == match first_hit(lines(output@), |l: Seq<char>| cache_size_in(l)) {
                Some(v) => v,
                None => 8 * 1024 * 1024 * 1024,
            },
    {
        let ghost f = |l: Seq<char>| cache_size_in(l);
        let s = chars_of(output);
        let ls = split_lines(&s);
        let mut i: usize = 0;
        assert(views(ls@).skip(0) =~= views(ls@));
        while i < ls.len()
            invariant
                f == (|l: Seq<char>| cache_size_in(l)),
                i <= ls@.len(),
                views(ls@) == lines(output@),
                first_hit(views(ls@), f) == first_hit(views(ls@).skip(i as int), f),
            decreases ls@.len() - i,
        {
            assert(views(ls@).skip(i as int).drop_first() =~= views(ls@).skip(i + 1));
            assert(views(ls@).skip(i as int)[0] == ls@[i as int]@);
            if let Some(v) = cache_size_of_line(&ls[i]) {
                return v;
            }
            i += 1;
        }
        8 * 1024 * 1024 * 1024
    }

    /// The vendor from the first line naming the vendor or model family
    /// that has a `:`, what follows it trimmed; `Unknown` where none does.
    pub fn parse_manufacturer(output: &str) -> (m: String)
        ensures
            m@ == match manufacturer_line(lines(output@)) {
                Some(v) => v,
                None => "Unknown"@,
            },
    {
        let s = chars_of(output);
        let ls = split_lines(&s);
        let mut i: usize = 0;
        assert(views(ls@).skip(0) =~= views(ls@));
        while i < ls.len()
            invariant
                i <= ls@.len(),
                views(ls@) == lines(output@),
                manufacturer_line(views(ls@)) == manufacturer_line(views(ls@).skip(i as int)),
            decreases ls@.len() - i,
        {
            assert(views(ls@).skip(i as int).drop_first() =~= views(ls@).skip(i + 1));
            assert(views(ls@).skip(i as int)[0] == ls@[i as int]@);
            if has_str(&ls[i], "Vendor") || has_str(&ls[i], "Model Family") {
                if let Some(p) = second_piece_exec(&ls[i], ':') {
                    let t = trim_exec(&p);
                    return string_from_chars(&t);
                }
            }
            i += 1;
        }
        "Unknown".to_string()
    }

    /// The drive at `device_path` as `smartctl -a` describes it: capacity,
    /// speed, cache size and vendor as parsed; not shingled; an adaptive
    /// cache, on, with nothing pinned.
    pub fn get_configuration(device_path: &str, smartctl_all: &str) -> (d: HybridDrive)
        ensures
            d.device_path@ == device_path@,
            d.hdd_portion.capacity == Self::parse_capacity_spec(smartctl_all@),
            d.hdd_portion.rpm == Self::parse_rpm_spec(smartctl_all@),
            !d.hdd_portion.is_smr,
            d.ssd_cache.cache_size == Self::parse_cache_size_spec(smartctl_all@),
            d.ssd_cache.cache_algorithm@ == "Adaptive"@,
            !d.ssd_cache.is_pinned_data_present,
            d.ssd_cache.cache_enabled,
            d.pinned_data@.len() == 0,
            d.manufacturer@ == match manufacturer_line(lines(smartctl_all@)) {
                Some(v) => v,
                None => "Unknown"@,
            },
    {
        HybridDrive {
            device_path: device_path.to_string(),
            hdd_portion: HDDInfo {
                capacity: Self::parse_capacity(smartctl_all),
                rpm: Self::parse_rpm(smartctl_all),
                is_smr: false,
            },
            ssd_cache: SSDCacheInfo {
                cache_size: Self::parse_cache_size(smartctl_all),
                cache_algorithm: "Adaptive".to_string(),
                is_pinned_data_present: false,
                cache_enabled: true,
            },
            pinned_data: Vec::new(),
            manufacturer: Self::parse_manufacturer(smartctl_all),
        }
    }

    /// What `parse_capacity` gives for `output`.
    pub open spec fn parse_capacity_spec(output: Seq<char>) -> nat {
        match first_hit(lines(output), |l: Seq<char>| capacity_in(l)) {
            Some(v) => v,
            None => 0,
        }
    }

    /// What `parse_rpm` gives for `output`.
    pub open spec fn parse_rpm_spec(output: Seq<char>) -> nat {
        match first_hit(lines(output), |l: Seq<char>| rpm_in(l)) {
            Some(v) => v,
            None => 5400,
        }
    }

    /// What `parse_cache_size` gives for `output`.
    pub open spec fn parse_cache_size_spec(output: Seq<char>) -> nat {
        match first_hit(lines(output), |l: Seq<char>| cache_size_in(l)) {
            Some(v) => v,
            None => 8 * 1024 * 1024 * 1024,
        }
    }

    /// Records the regions pinned in the cache: the first 63 sectors (boot
    /// area), pinned by the firmware; the cache then holds pinned data.
    pub fn detect_pinned_data(&mut self)
        ensures
            final(self).pinned_data@.len() == old(self).pinned_data@.len() + 1,
            final(self).pinned_data@.take(old(self).pinned_data@.len() as int) == old(
                self,
            ).pinned_data@,
            final(self).pinned_data@.last().start_lba == 0,
            final(self).pinned_data@.last().length == 63,
            final(self).pinned_data@.last().pinned_by@ == "Firmware"@,
            final(self).ssd_cache.is_pinned_data_present,
            final(self).device_path == old(self).device_path,
            final(self).hdd_portion == old(self).hdd_portion,
            final(self).ssd_cache.cache_size == old(self).ssd_cache.cache_size,
            final(self).ssd_cache.cache_algorithm == old(self).ssd_cache.cache_algorithm,
            final(self).ssd_cache.cache_enabled == old(self).ssd_cache.cache_enabled,
            final(self).manufacturer == old(self).manufacturer,
    {
        self.pinned_data.push(
            PinnedRegion { start_lba: 0, length: 63, pinned_by: "Firmware".to_string() },
        );
        assert(self.pinned_data@.take(old(self).pinned_data@.len() as int) =~= old(
            self,
        ).pinned_data@);
        self.ssd_cache.is_pinned_data_present = self.pinned_data.len() > 0;
    }

    /// Whether pinned data must be released (by a cache flush) before a wipe.
    pub fn needs_unpin(&self) -> (b: bool)
        ensures
            b == self.ssd_cache.is_pinned_data_present,
    {
        self.ssd_cache.is_pinned_data_present
    }

    /// The way to switch the cache off: Seagate's for `Seagate`, Western
    /// Digital's for `Western Digital` or `WDC`, else the generic one.
    pub fn cache_disable_route(&self) -> (r: CacheDisableRoute)
        ensures
            r == if self.manufacturer@ == "Seagate"@ {
                CacheDisableRoute::Seagate
            } else if self.manufacturer@ == "Western Digital"@ || self.manufacturer@ == "WDC"@ {
                CacheDisableRoute::WesternDigital
            } else {
                CacheDisableRoute::Generic
            },
    {
        let m = chars_of(self.manufacturer.as_str());
        let seagate = chars_of("Seagate");
        let wd = chars_of("Western Digital");
        let wdc = chars_of("WDC");
        if crate::text::chars_eq(&m, &seagate) {
            CacheDisableRoute::Seagate
        } else if crate::text::chars_eq(&m, &wd) || crate::text::chars_eq(&m, &wdc) {
            CacheDisableRoute::WesternDigital
        } else {
            CacheDisableRoute::Generic
        }
    }
}

} // verus!
