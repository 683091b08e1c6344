//! The RAID-controller side of vendor-specific unfreezing: which vendor's
//! controller holds a drive, and the identifiers under which each vendor's
//! tool knows the drive, read from what the tools print.
use vstd::prelude::*;

use crate::strategies::VendorSpecific;
use crate::text::{
    chars_of, contains, first_piece, first_piece_exec, has, has_str, lines, lowercase, push_str,
    second_piece, second_piece_exec, split_lines, split_words, string_from_chars, to_lowercase,
    trim, trim_exec, views, words,
};

verus! {

broadcast use vstd::string::group_string_axioms;

/// The controller vendors with their own tools.
#[derive(Debug, Clone, Copy, PartialEq, Eq, Structural)]
pub enum ControllerVendor {
    DellPerc,
    HpSmartArray,
    LsiMegaRaid,
    Adaptec,
    IntelRst,
    Unknown,
}

/// The name a vendor is reported under.
pub open spec fn vendor_name(v: ControllerVendor) -> Seq<char> {
    match v {
        ControllerVendor::DellPerc => "Dell PERC"@,
        ControllerVendor::HpSmartArray => "HP SmartArray"@,
        ControllerVendor::LsiMegaRaid => "LSI MegaRAID"@,
        ControllerVendor::Adaptec => "Adaptec"@,
        ControllerVendor::IntelRst => "Intel RST"@,
        ControllerVendor::Unknown => "Unknown"@,
    }
}

/// The vendor that a device's sysfs `vendor` file names, lower-cased and
/// trimmed, if it names one.
pub open spec fn vendor_in_sysfs(v: Seq<char>) -> Option<ControllerVendor> {
    let l = lowercase(trim(v));
    if contains(l, "dell"@) || contains(l, "perc"@) {
        Some(ControllerVendor::DellPerc)
    } else if contains(l, "hp"@) || contains(l, "smart"@) {
        Some(ControllerVendor::HpSmartArray)
    } else if contains(l, "lsi"@) || contains(l, "mega"@) {
        Some(ControllerVendor::LsiMegaRaid)
    } else if contains(l, "adaptec"@) {
        Some(ControllerVendor::Adaptec)
    } else if contains(l, "intel"@) {
        Some(ControllerVendor::IntelRst)
    } else {
        None
    }
}

/// The vendor that `lspci -v` shows.
pub open spec fn vendor_in_lspci(s: Seq<char>) -> ControllerVendor {
    if contains(s, "PERC"@) {
        ControllerVendor::DellPerc
    } else if contains(s, "SmartArray"@) {
        ControllerVendor::HpSmartArray
    } else if contains(s, "MegaRAID"@) || contains(s, "LSI"@) {
        ControllerVendor::LsiMegaRaid
    } else if contains(s, "Adaptec"@) {
        ControllerVendor::Adaptec
    } else if contains(s, "Intel"@) && contains(s, "SATA"@) {
        ControllerVendor::IntelRst
    } else {
        ControllerVendor::Unknown
    }
}

/// `s` with each `:` written `/s` (`str::replace(':', "/s")`).
pub open spec fn colons_as_slots(s: Seq<char>) -> Seq<char>
    decreases s.len(),
{
    if s.len() == 0 {
        s
    } else if s.last() == ':' {
        colons_as_slots(s.drop_last()) + "/s"@
    } else {
        colons_as_slots(s.drop_last()).push(s.last())
    }
}

/// A storcli-style disk id, `e` and the enclosure:slot with `/s` for `:`.
pub open spec fn storcli_id(w: Seq<char>) -> Seq<char> {
    "e"@ + colons_as_slots(w)
}

/// The serial number of the first `Serial Number:` line of `smartctl -i`.
pub open spec fn serial_in(ls: Seq<Seq<char>>) -> Option<Seq<char>>
    decreases ls.len(),
{
    if ls.len() == 0 {
        None
    } else if contains(ls[0], "Serial Number:"@) && second_piece(ls[0], ':') is Some {
        Some(trim(second_piece(ls[0], ':')->0))
    } else {
        serial_in(ls.drop_first())
    }
}

/// The first word of the first line that holds `serial` and has a word.
pub open spec fn perc_disk_in(ls: Seq<Seq<char>>, serial: Seq<char>) -> Option<Seq<char>>
    decreases ls.len(),
{
    if ls.len() == 0 {
        None
    } else if contains(ls[0], serial) && words(ls[0]).len() > 0 {
        Some(words(ls[0])[0])
    } else {
        perc_disk_in(ls.drop_first(), serial)
    }
}

/// The HP drive id current when a `Serial Number` line with `serial` comes:
/// the second word of the last `physicaldrive` line that has one.
pub open spec fn hp_scan(ls: Seq<Seq<char>>, serial: Seq<char>, current: Seq<char>) -> Option<Seq<char>>
    decreases ls.len(),
{
    if ls.len() == 0 {
        None
    } else {
        let l = ls[0];
        let cur = if contains(l, "physicaldrive"@) && words(l).len() > 1 {
            words(l)[1]
        } else {
            current
        };
        if contains(l, "Serial Number"@) && contains(l, serial) {
            Some(cur)
        } else {
            hp_scan(ls.drop_first(), serial, cur)
        }
    }
}

/// The LSI drive id current at the first line with `serial` once one is
/// set: the first word of the last line with a `:` and more than five words.
pub open spec fn lsi_scan(ls: Seq<Seq<char>>, serial: Seq<char>, current: Seq<char>) -> Option<Seq<char>>
    decreases ls.len(),
{
    if ls.len() == 0 {
        None
    } else {
        let l = ls[0];
        let cur = if contains(l, ":"@) && words(l).len() > 5 {
            words(l)[0]
        } else {
            current
        };
        if cur.len() > 0 && contains(l, serial) {
            Some(cur)
        } else {
            lsi_scan(ls.drop_first(), serial, cur)
        }
    }
}

/// `w` without leading commas.
pub open spec fn trim_commas_start(w: Seq<char>) -> Seq<char>
    decreases w.len(),
{
    if w.len() > 0 && w[0] == ',' {
        trim_commas_start(w.drop_first())
    } else {
        w
    }
}

/// `w` without trailing commas.
pub open spec fn trim_commas_end(w: Seq<char>) -> Seq<char>
    decreases w.len(),
{
    if w.len() > 0 && w.last() == ',' {
        trim_commas_end(w.drop_last())
    } else {
        w
    }
}

/// `w` without leading or trailing commas (`str::trim_matches(',')`).
pub open spec fn trim_commas(w: Seq<char>) -> Seq<char> {
    trim_commas_end(trim_commas_start(w))
}

/// The Adaptec channel and device current when a `Serial number` line with
/// `serial` comes, from the second words of the last `Channel` and `Device`
/// lines, commas trimmed.
pub open spec fn adaptec_scan(
    ls: Seq<Seq<char>>,
    serial: Seq<char>,
    channel: Seq<char>,
    device: Seq<char>,
) -> Option<Seq<char>>
    decreases ls.len(),
{
    if ls.len() == 0 {
        None
    } else {
        let l = ls[0];
        let ch = if contains(l, "Channel"@) && words(l).len() > 1 {
            trim_commas(words(l)[1])
        } else {
            channel
        };
        let dev = if contains(l, "Device"@) && words(l).len() > 1 {
            trim_commas(words(l)[1])
        } else {
            device
        };
        if contains(l, "Serial number"@) && contains(l, serial) {
            Some(ch + " "@ + dev)
        } else {
            adaptec_scan(ls.drop_first(), serial, ch, dev)
        }
    }
}

/// The PCI address of the first Intel SATA or RAID controller line of
/// `lspci -D -nn`: its first word.
pub open spec fn intel_sata_in(ls: Seq<Seq<char>>) -> Option<Seq<char>>
    decreases ls.len(),
{
    if ls.len() == 0 {
        None
    } else if (contains(ls[0], "Intel"@) || contains(ls[0], "8086"@)) && (contains(ls[0], "SATA"@)
        || contains(ls[0], "RAID"@)) && words(ls[0]).len() > 0 {
        Some(words(ls[0])[0])
    } else {
        intel_sata_in(ls.drop_first())
    }
}

fn colons_as_slots_exec(s: &Vec<char>) -> (r: Vec<char>)
    ensures
        r@ == colons_as_slots(s@),
{
    let mut r: Vec<char> = Vec::new();
    let mut i: usize = 0;
    assert(s@.take(0) =~= Seq::<char>::empty());
    while i < s.len()
        invariant
            i <= s@.len(),
            r@ == colons_as_slots(s@.take(i as int)),
        decreases s@.len() - i,
    {
        assert(s@.take(i + 1).drop_last() =~= s@.take(i as int));
        if s[i] == ':' {
            r.push('/');
            r.push('s');
            assert(r@ =~= colons_as_slots(s@.take(i as int)) + "/s"@) by {
                reveal_strlit("/s");
            }
        } else {
            r.push(s[i]);
        }
        i += 1;
    }
    assert(s@.take(s@.len() as int) =~= s@);
    r
}

fn storcli_id_exec(w: &Vec<char>) -> (r: String)
    ensures
        r@ == storcli_id(w@),
{
    let mut c: Vec<char> = Vec::new();
    push_str(&mut c, "e");
    let mut rest = colons_as_slots_exec(w);
    c.append(&mut rest);
    string_from_chars(&c)
}

fn trim_commas_exec(w: &Vec<char>) -> (r: Vec<char>)
    ensures
        r@ == trim_commas(w@),
{
    let mut a: usize = 0;
    assert(w@.skip(0) =~= w@);
    while a < w.len() && w[a] == ','
        invariant
            a <= w@.len(),
            trim_commas_start(w@) == trim_commas_start(w@.skip(a as int)),
        decreases w@.len() - a,
    {
        assert(w@.skip(a as int).drop_first() =~= w@.skip(a + 1));
        a += 1;
    }
    let mut b: usize = w.len();
    assert(w@.skip(a as int).take(b - a) =~= w@.skip(a as int));
    while b > a && w[b - 1] == ','
        invariant
            a <= b <= w@.len(),
            trim_commas_start(w@) == w@.skip(a as int),
            trim_commas_end(w@.skip(a as int)) == trim_commas_end(w@.subrange(a as int, b as int)),
        decreases b,
    {
        assert(w@.subrange(a as int, b as int).drop_last() =~= w@.subrange(a as int, b - 1));
        b -= 1;
    }
    let r = crate::text::subvec(w, a, b);
    r
}

fn first_word_of(l: &Vec<char>, k: usize) -> (r: Option<Vec<char>>)
    ensures
        r matches Some(w) ==> words(l@).len() > k && w@ == words(l@)[k as int],
        r is None ==> words(l@).len() <= k,
{
    let ws = split_words(l);
    if ws.len() > k {
        assert(views(ws@)[k as int] == ws@[k as int]@);
        Some(ws[k].clone())
    } else {
        None
    }
}

impl VendorSpecific {
    /// The vendor name reported for `v`.
    pub fn vendor_name(v: ControllerVendor) -> (s: &'static str)
        ensures
            s@ == vendor_name(v),
    {
        match v {
            ControllerVendor::DellPerc => "Dell PERC",
            ControllerVendor::HpSmartArray => "HP SmartArray",
            ControllerVendor::LsiMegaRaid => "LSI MegaRAID",
            ControllerVendor::Adaptec => "Adaptec",
            ControllerVendor::IntelRst => "Intel RST",
            ControllerVendor::Unknown => "Unknown",
        }
    }

    /// The controller vendor: the one the device's sysfs `vendor` file names
    /// (where it could be read and names one), else the one `lspci -v` shows.
    pub fn detect_vendor(sysfs_vendor: Option<&str>, lspci: &str) -> (v: ControllerVendor)
        ensures
            v == match sysfs_vendor {
                Some(s) => match vendor_in_sysfs(s@) {
                    Some(x) => x,
                    None => vendor_in_lspci(lspci@),
                },
                None => vendor_in_lspci(lspci@),
            },
    {
        if let Some(s) = sysfs_vendor {
            let cs = chars_of(s);
            let t = trim_exec(&cs);
            let ts = string_from_chars(&t);
            let low = to_lowercase(ts.as_str());
            let l = chars_of(low.as_str());
            if has_str(&l, "dell") || has_str(&l, "perc") {
                return ControllerVendor::DellPerc;
            } else if has_str(&l, "hp") || has_str(&l, "smart") {
                return ControllerVendor::HpSmartArray;
            } else if has_str(&l, "lsi") || has_str(&l, "mega") {
                return ControllerVendor::LsiMegaRaid;
            } else if has_str(&l, "adaptec") {
                return ControllerVendor::Adaptec;
            } else if has_str(&l, "intel") {
                return ControllerVendor::IntelRst;
            }
        }
        let c = chars_of(lspci);
        if has_str(&c, "PERC") {
            ControllerVendor::DellPerc
        } else if has_str(&c, "SmartArray") {
            ControllerVendor::HpSmartArray
        } else if has_str(&c, "MegaRAID") || has_str(&c, "LSI") {
            ControllerVendor::LsiMegaRaid
        } else if has_str(&c, "Adaptec") {
            ControllerVendor::Adaptec
        } else if has_str(&c, "Intel") && has_str(&c, "SATA") {
            ControllerVendor::IntelRst
        } else {
            ControllerVendor::Unknown
        }
    }

    /// The drive's serial number from `smartctl -i` (`serial_in`).
    pub fn get_device_serial(smartctl_info: &str) -> (r: Option<String>)
        ensures
            match serial_in(lines(smartctl_info@)) {
                Some(s) => r matches Some(x) && x@ == s,
                None => r is None,
            },
    {
        let s = chars_of(smartctl_info);
        let ls = split_lines(&s);
        let mut i: usize = 0;
        assert(views(ls@).skip(0) =~= views(ls@));
        while i < ls.len()
            invariant
                i <= ls@.len(),
                views(ls@) == lines(smartctl_info@),
                serial_in(views(ls@)) == serial_in(views(ls@).skip(i as int)),
            decreases ls@.len() - i,
        {
            assert(views(ls@).skip(i as int).drop_first() =~= views(ls@).skip(i + 1));
            assert(views(ls@).skip(i as int)[0] == ls@[i as int]@);
            if has_str(&ls[i], "Serial Number:") {
                if let Some(p) = second_piece_exec(&ls[i], ':') {
                    let t = trim_exec(&p);
                    return Some(string_from_chars(&t));
                }
            }
            i += 1;
        }
        None
    }

    /// The PERC disk id of the drive with serial `serial` in `percli
    /// /c0/eall/sall show`: `e` and the enclosure:slot of the first line
    /// that holds the serial, `:` written `/s`; `e252/s0` where none does.
    pub fn get_perc_physical_disk(listing: &str, serial: &str) -> (r: String)
        ensures
            r@ == match perc_disk_in(lines(listing@), serial@) {
                Some(w) => storcli_id(w),
                None => "e252/s0"@,
            },
    {
        let s = chars_of(listing);
        let ser = chars_of(serial);
        let ls = split_lines(&s);
        let mut i: usize = 0;
        assert(views(ls@).skip(0) =~= views(ls@));
        while i < ls.len()
            invariant
                i <= ls@.len(),
                ser@ == serial@,
                views(ls@) == lines(listing@),
                perc_disk_in(views(ls@), serial@) == perc_disk_in(views(ls@).skip(i as int), serial@),
            decreases ls@.len() - i,
        {
            assert(views(ls@).skip(i as int).drop_first() =~= views(ls@).skip(i + 1));
            assert(views(ls@).skip(i as int)[0] == ls@[i as int]@);
            if has(&ls[i], &ser) {
                if let Some(w) = first_word_of(&ls[i], 0) {
                    return storcli_id_exec(&w);
                }
            }
            i += 1;
        }
        "e252/s0".to_string()
    }

    /// The HP drive id of the drive with serial `serial` in `hpssacli ctrl
    /// slot=0 pd all show detail` (`hp_scan`); `1I:1:1` where the serial is
    /// not found.
    pub fn get_hp_array_id(detail: &str, serial: &str) -> (r: String)
        ensures
            r@ == match hp_scan(lines(detail@), serial@, seq![]) {
                Some(w) => w,
                None => "1I:1:1"@,
            },
    {
        let s = chars_of(detail);
        let ser = chars_of(serial);
        let ls = split_lines(&s);
        let mut current: Vec<char> = Vec::new();
        let mut i: usize = 0;
        assert(views(ls@).skip(0) =~= views(ls@));
        while i < ls.len()
            invariant
                i <= ls@.len(),
                ser@ == serial@,
                views(ls@) == lines(detail@),
                hp_scan(views(ls@), serial@, seq![]) == hp_scan(
                    views(ls@).skip(i as int),
                    serial@,
                    current@,
                ),
            decreases ls@.len() - i,
        {
            assert(views(ls@).skip(i as int).drop_first() =~= views(ls@).skip(i + 1));
            assert(views(ls@).skip(i as int)[0] == ls@[i as int]@);
            if has_str(&ls[i], "physicaldrive") {
                if let Some(w) = first_word_of(&ls[i], 1) {
                    current = w;
                }
            }
            if has_str(&ls[i], "Serial Number") && has(&ls[i], &ser) {
                return string_from_chars(&current);
            }
            i += 1;
        }
        "1I:1:1".to_string()
    }

    /// The LSI disk id of the drive with serial `serial` in `storcli64
    /// /c0/eall/sall show all` (`lsi_scan`), as `storcli_id`; `e252/s0`
    /// where the serial is not found.
    pub fn get_lsi_disk_id(listing: &str, serial: &str) -> (r: String)
        ensures
            r@ == match lsi_scan(lines(listing@), serial@, seq![]) {
                Some(w) => storcli_id(w),
                None => "e252/s0"@,
            },
    {
        let s = chars_of(listing);
        let ser = chars_of(serial);
        let ls = split_lines(&s);
        let mut current: Vec<char> = Vec::new();
        let mut i: usize = 0;
        assert(views(ls@).skip(0) =~= views(ls@));
        while i < ls.len()
            invariant
                i <= ls@.len(),
                ser@ == serial@,
                views(ls@) == lines(listing@),
                lsi_scan(views(ls@), serial@, seq![]) == lsi_scan(
                    views(ls@).skip(i as int),
                    serial@,
                    current@,
                ),
            decreases ls@.len() - i,
        {
            assert(views(ls@).skip(i as int).drop_first() =~= views(ls@).skip(i + 1));
            assert(views(ls@).skip(i as int)[0] == ls@[i as int]@);
            if has_str(&ls[i], ":") {
                let ws = split_words(&ls[i]);
                if ws.len() > 5 {
                    assert(views(ws@)[0] == ws@[0]@);
                    current = ws[0].clone();
                }
            }
            if current.len() > 0 && has(&ls[i], &ser) {
                return storcli_id_exec(&current);
            }
            i += 1;
        }
        "e252/s0".to_string()
    }

    /// The Adaptec channel and device of the drive with serial `serial` in
    /// `arcconf getconfig controller 1 pd` (`adaptec_scan`), space
    /// separated; `0 0` where the serial is not found.
    pub fn get_adaptec_disk_id(config: &str, serial: &str) -> (r: String)
        ensures
            r@ == match adaptec_scan(lines(config@), serial@, seq![], seq![]) {
                Some(w) => w,
                None => "0 0"@,
            },
    {
        let s = chars_of(config);
        let ser = chars_of(serial);
        let ls = split_lines(&s);
        let mut channel: Vec<char> = Vec::new();
        let mut device: Vec<char> = Vec::new();
        let mut i: usize = 0;
        assert(views(ls@).skip(0) =~= views(ls@));
        while i < ls.len()
            invariant
                i <= ls@.len(),
                ser@ == serial@,
                views(ls@) == lines(config@),
                adaptec_scan(views(ls@), serial@, seq![], seq![]) == adaptec_scan(
                    views(ls@).skip(i as int),
                    serial@,
                    channel@,
                    device@,
                ),
            decreases ls@.len() - i,
        {
            assert(views(ls@).skip(i as int).drop_first() =~= views(ls@).skip(i + 1));
            assert(views(ls@).skip(i as int)[0] == ls@[i as int]@);
            if has_str(&ls[i], "Channel") {
                if let Some(w) = first_word_of(&ls[i], 1) {
                    channel = trim_commas_exec(&w);
                }
            }
            if has_str(&ls[i], "Device") {
                if let Some(w) = first_word_of(&ls[i], 1) {
                    device = trim_commas_exec(&w);
                }
            }
            if has_str(&ls[i], "Serial number") && has(&ls[i], &ser) {
                let mut c: Vec<char> = Vec::new();
                let mut a = channel.clone();
                c.append(&mut a);
                push_str(&mut c, " ");
                let mut b = device.clone();
                c.append(&mut b);
                return string_from_chars(&c);
            }
            i += 1;
        }
        "0 0".to_string()
    }

    /// The PCI address of the Intel SATA controller from `lspci -D -nn`
    /// (`intel_sata_in`); `00:1f.2` where none is listed.
    pub fn find_intel_sata_controller(lspci: &str) -> (r: String)
        ensures
            r@ == match intel_sata_in(lines(lspci@)) {
                Some(w) => w,
                None => "00:1f.2"@,
            },
    {
        let s = chars_of(lspci);
        let ls = split_lines(&s);
        let mut i: usize = 0;
        assert(views(ls@).skip(0) =~= views(ls@));
        while i < ls.len()
            invariant
                i <= ls@.len(),
                views(ls@) == lines(lspci@),
                intel_sata_in(views(ls@)) == intel_sata_in(views(ls@).skip(i as int)),
            decreases ls@.len() - i,
        {
            assert(views(ls@).skip(i as int).drop_first() =~= views(ls@).skip(i + 1));
            assert(views(ls@).skip(i as int)[0] == ls@[i as int]@);
            if (has_str(&ls[i], "Intel") || has_str(&ls[i], "8086")) && (has_str(&ls[i], "SATA")
                || has_str(&ls[i], "RAID")) {
                if let Some(w) = first_word_of(&ls[i], 0) {
                    return string_from_chars(&w);
                }
            }
            i += 1;
        }
        "00:1f.2".to_string()
    }

    /// The SCSI host of a drive from the name of an entry of its sysfs
    /// `scsi_device` directory (`2:0:0:0`): `host` and the part before the
    /// first `:`.
    pub fn sata_host_from_entry(entry: &str) -> (r: String)
        ensures
            r@ == "host"@ + first_piece(entry@, ':'),
    {
        let e = chars_of(entry);
        let mut c: Vec<char> = Vec::new();
        push_str(&mut c, "host");
        let mut p = first_piece_exec(&e, ':');
        c.append(&mut p);
        string_from_chars(&c)
    }
}

} // verus!
