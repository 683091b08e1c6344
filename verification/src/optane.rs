//! Intel Optane / 3D XPoint: recognising a drive from what `smartctl` and
//! `nvme id-ctrl` report, its namespaces from `nvme list-ns`, its generation,
//! and how it is wiped: instant secure erase where it can, else each
//! namespace, with the five 3D XPoint overwrite patterns.
use vstd::prelude::*;

use crate::integrated::{tiles, write_chunks};
use crate::text::{
    chars_of, contains, decimal, decimal_exec, has_str, lines, parse_u64, parse_u64_exec,
    parse_uint, parse_uint_exec, push_str, split_lines, split_words, string_from_chars, trim,
    trim_exec, views, words,
};
use crate::{DriveError, DriveResult};

verus! {

broadcast use vstd::string::group_string_axioms;

/// How an Optane device is used.
#[derive(Debug, Clone, Copy, PartialEq, Eq, Structural)]
pub enum OptaneMode {
    /// Block storage, as an NVMe SSD.
    BlockMode,
    /// Persistent memory (`/dev/pmem`).
    PersistentMemory,
    /// Direct CPU access through DAX.
    AppDirect,
    /// System memory.
    MemoryMode,
}

/// A namespace of an Optane device.
#[derive(Debug, Clone)]
pub struct OptaneNamespace {
    pub nsid: u32,
    pub capacity: u64,
    pub mode: OptaneMode,
    pub device_path: String,
    pub is_healthy: bool,
}

/// An Optane device.
#[derive(Debug, Clone)]
pub struct OptaneDrive {
    pub device_path: String,
    pub is_pmem: bool,
    pub supports_ise: bool,
    pub namespaces: Vec<OptaneNamespace>,
    pub total_capacity: u64,
    pub generation: String,
}

/// How a namespace is wiped when instant secure erase is not used.
#[derive(Debug, Clone, Copy, PartialEq, Eq, Structural)]
pub enum NamespaceWipe {
    /// Zeroed with `dd`, as persistent memory.
    ZeroPmem,
    /// The five-pass 3D XPoint overwrite.
    Overwrite,
}

/// Whether `smartctl -a` names an Intel Optane device.
pub open spec fn smartctl_says_optane(s: Seq<char>) -> bool {
    contains(s, "Intel"@) && (contains(s, "Optane"@) || contains(s, "3D XPoint"@) || contains(
        s,
        "INTEL SSDPE"@,
    ) || contains(s, "INTEL SSDPF"@))
}

/// The text of an optional report.
pub open spec fn report(o: Option<&str>) -> Option<Seq<char>> {
    match o {
        Some(s) => Some(s@),
        None => None,
    }
}

/// Whether a report is there and `p` holds of it.
pub open spec fn report_shows(o: Option<Seq<char>>, p: spec_fn(Seq<char>) -> bool) -> bool {
    match o {
        Some(s) => p(s),
        None => false,
    }
}

/// Whether `nvme id-ctrl -H` reports crypto erase or Format NVM support.
pub open spec fn ise_reported(s: Seq<char>) -> bool {
    contains(s, "Crypto Erase Supported"@) || contains(s, "Format NVM Supported"@)
}

/// Whether `nvme id-ctrl` names an Optane model.
pub open spec fn id_ctrl_says_optane(s: Seq<char>) -> bool {
    contains(s, "Optane"@) || contains(s, "SSDPE"@) || contains(s, "SSDPF"@)
}

/// `w` with every leading `ns` taken off (`trim_start_matches("ns")`).
pub open spec fn strip_ns(w: Seq<char>) -> Seq<char>
    decreases w.len(),
{
    if w.len() >= 2 && w[0] == 'n' && w[1] == 's' {
        strip_ns(w.skip(2))
    } else {
        w
    }
}

/// The namespace id of a `nvme list-ns` line: a line naming `ns` whose first
/// word, without leading `ns`, is a decimal `u32`.
pub open spec fn listed_nsid(l: Seq<char>) -> Option<nat> {
    if contains(l, "ns"@) && words(l).len() > 0 {
        parse_uint(strip_ns(words(l)[0]), 10, u32::MAX as nat)
    } else {
        None
    }
}

/// The namespace ids of `nvme list-ns`, in order.
pub open spec fn listed_nsids(ls: Seq<Seq<char>>) -> Seq<nat>
    decreases ls.len(),
{
    if ls.len() == 0 {
        seq![]
    } else {
        let rest = listed_nsids(ls.drop_last());
        match listed_nsid(ls.last()) {
            Some(n) => rest.push(n),
            None => rest,
        }
    }
}

/// The generation that `smartctl -a` names.
pub open spec fn generation_in(s: Option<Seq<char>>) -> Seq<char> {
    match s {
        Some(t) => if contains(t, "P4800X"@) {
            "Optane DC P4800X (1st Gen)"@
        } else if contains(t, "P5800X"@) {
            "Optane DC P5800X (2nd Gen)"@
        } else if contains(t, "Optane"@) {
            "Intel Optane"@
        } else {
            "Unknown 3D XPoint"@
        },
        None => "Unknown 3D XPoint"@,
    }
}

/// The sum of the capacities of `s`.
pub open spec fn capacity_sum(s: Seq<OptaneNamespace>) -> nat
    decreases s.len(),
{
    if s.len() == 0 {
        0
    } else {
        capacity_sum(s.drop_last()) + (s.last().capacity as nat)
    }
}

/// The byte `i` of a chunk of `len` bytes that repeats `pattern` whole as
/// often as it fits and fills the rest with its first byte.
pub open spec fn chunk_byte(pattern: Seq<u8>, len: nat, i: int) -> u8 {
    if i < (len / pattern.len()) * pattern.len() {
        pattern[i % (pattern.len() as int)]
    } else {
        pattern[0]
    }
}

/// The five overwrite patterns of 4096 bytes: zeros, ones, `0xAA`, `0x55`,
/// and `random`.
pub open spec fn overwrite_patterns(random: Seq<u8>) -> Seq<Seq<u8>> {
    seq![
        Seq::new(4096, |i: int| 0x00u8),
        Seq::new(4096, |i: int| 0xFFu8),
        Seq::new(4096, |i: int| 0xAAu8),
        Seq::new(4096, |i: int| 0x55u8),
        random,
    ]
}

/// `size` bytes from the thread's random generator (`rand::thread_rng`,
/// `Rng::fill`). Which bytes come out is chance; the length is `size`.
#[verifier::external_body]
fn thread_random_bytes(size: usize) -> (v: Vec<u8>)
    ensures
        v@.len() == size,
{
    let mut v = vec![0u8; size];
    rand::Rng::fill(&mut rand::thread_rng(), &mut v[..]);
    v
}

fn strip_ns_exec(w: &Vec<char>) -> (r: Vec<char>)
    ensures
        r@ == strip_ns(w@),
{
    let mut i: usize = 0;
    assert(w@.skip(0) =~= w@);
    while i < w.len() && w.len() - i >= 2 && w[i] == 'n' && w[i + 1] == 's'
        invariant
            i <= w@.len(),
            strip_ns(w@) == strip_ns(w@.skip(i as int)),
        decreases w@.len() - i,
    {
        assert(w@.skip(i as int).skip(2) =~= w@.skip(i + 2));
        i += 2;
    }
    let r = crate::text::subvec(w, i, w.len());
    assert(r@ =~= w@.skip(i as int));
    r
}

fn listed_nsid_exec(l: &Vec<char>) -> (r: Option<u32>)
    ensures
        r matches Some(n) ==> listed_nsid(l@) == Some(n as nat),
        r is None ==> listed_nsid(l@) is None,
{
    if !has_str(l, "ns") {
        return None;
    }
    let ws = split_words(l);
    if ws.len() == 0 {
        return None;
    }
    assert(views(ws@)[0] == ws@[0]@);
    let w = strip_ns_exec(&ws[0]);
    match parse_uint_exec(&w, 10, u32::MAX as u64) {
        Some(n) => Some(n as u32),
        None => None,
    }
}

impl OptaneDrive {
    /// Whether a device is Optane: `smartctl -a` names an Intel Optane or
    /// 3D XPoint device; or, for an NVMe path, `nvme id-ctrl` names an
    /// Optane model; or the path is a persistent-memory device.
    pub fn detect(device_path: &str, smartctl_all: Option<&str>, id_ctrl: Option<&str>) -> (b: bool)
        ensures
            b == (report_shows(report(smartctl_all), |t: Seq<char>| smartctl_says_optane(t)) || (
            contains(device_path@, "nvme"@) && report_shows(
                report(id_ctrl),
                |t: Seq<char>| id_ctrl_says_optane(t),
            )) || contains(device_path@, "pmem"@)),
    {
        if let Some(s) = smartctl_all {
            let c = chars_of(s);
            if has_str(&c, "Intel") && (has_str(&c, "Optane") || has_str(&c, "3D XPoint") || has_str(
                &c,
                "INTEL SSDPE",
            ) || has_str(&c, "INTEL SSDPF")) {
                return true;
            }
        }
        let p = chars_of(device_path);
        if has_str(&p, "nvme") {
            if let Some(t) = id_ctrl {
                let c = chars_of(t);
                if has_str(&c, "Optane") || has_str(&c, "SSDPE") || has_str(&c, "SSDPF") {
                    return true;
                }
            }
        }
        has_str(&p, "pmem")
    }

    /// Instant secure erase is supported where the path is NVMe and `nvme
    /// id-ctrl -H` reports crypto erase or Format NVM support.
    pub fn check_ise_support(device_path: &str, id_ctrl_human: Option<&str>) -> (b: bool)
        ensures
            b == (contains(device_path@, "nvme"@) && report_shows(
                report(id_ctrl_human),
                |t: Seq<char>| ise_reported(t),
            )),
    {
        let p = chars_of(device_path);
        if !has_str(&p, "nvme") {
            return false;
        }
        match id_ctrl_human {
            Some(t) => {
                let c = chars_of(t);
                has_str(&c, "Crypto Erase Supported") || has_str(&c, "Format NVM Supported")
            },
            None => false,
        }
    }

    /// The size in bytes of a persistent-memory device from its sysfs `size`
    /// file (512-byte sectors), where it reads as a number.
    pub fn get_pmem_size(sysfs_size: Option<&str>) -> (r: Option<u64>)
        ensures
            r matches Some(n) ==> sysfs_size matches Some(c) && parse_u64(trim(c@)) == Some(
                (n / 512) as nat,
            ) && n % 512 == 0,
            r is None ==> sysfs_size is None || parse_u64(trim(sysfs_size->0@)) is None || parse_u64(
                trim(sysfs_size->0@),
            )->0 * 512 > u64::MAX,
    {
        match sysfs_size {
            Some(c) => {
                let cs = chars_of(c);
                let t = trim_exec(&cs);
                match parse_u64_exec(&t) {
                    Some(sectors) => sectors.checked_mul(512),
                    None => None,
                }
            },
            None => None,
        }
    }

    /// The namespaces of a device. For an NVMe path, one block namespace
    /// per id that `nvme list-ns` lists (`listed_nsids`), at the path with
    /// `n` and the id added; for a persistent-memory path, one namespace of
    /// `pmem_size` bytes (an error where that size is unknown); where none
    /// is found, namespace 1, block mode, at the device's path. Capacities
    /// are 0 but for persistent memory.
    pub fn enumerate_namespaces(device_path: &str, list_ns: Option<&str>, pmem_size: Option<u64>) -> (r:
        DriveResult<Vec<OptaneNamespace>>)
        ensures
            (!contains(device_path@, "nvme"@) && contains(device_path@, "pmem"@) && pmem_size is None)
                <==> r is Err,
            r matches Ok(v) ==> ({
                let ids = if contains(device_path@, "nvme"@) && list_ns is Some {
                    listed_nsids(lines(list_ns->0@))
                } else {
                    seq![]
                };
                &&& contains(device_path@, "nvme"@) && ids.len() > 0 ==> v@.len() == ids.len()
                    && forall|i: int|
                    0 <= i < ids.len() ==> (#[trigger] v@[i]).nsid == ids[i] && v@[i].capacity == 0
                        && v@[i].mode == OptaneMode::BlockMode && v@[i].device_path@ == device_path@
                        + "n"@ + decimal(ids[i]) && v@[i].is_healthy
                &&& !contains(device_path@, "nvme"@) && contains(device_path@, "pmem"@) ==> v@.len()
                    == 1 && v@[0].nsid == 0 && v@[0].capacity == pmem_size->0 && v@[0].mode
                    == OptaneMode::PersistentMemory && v@[0].device_path@ == device_path@
                    && v@[0].is_healthy
                &&& ((contains(device_path@, "nvme"@) && ids.len() == 0) || (!contains(
                    device_path@,
                    "nvme"@,
                ) && !contains(device_path@, "pmem"@))) ==> v@.len() == 1 && v@[0].nsid == 1
                    && v@[0].capacity == 0 && v@[0].mode == OptaneMode::BlockMode
                    && v@[0].device_path@ == device_path@ && v@[0].is_healthy
                &&& v@.len() == 1 || forall|i: int| 0 <= i < v@.len() ==> (#[trigger] v@[i]).capacity
                    == 0
            }),
    {
        let p = chars_of(device_path);
        let mut v: Vec<OptaneNamespace> = Vec::new();
        if has_str(&p, "nvme") {
            let ghost ids = if list_ns is Some {
                listed_nsids(lines(list_ns->0@))
            } else {
                seq![]
            };
            if let Some(out) = list_ns {
                let s = chars_of(out);
                let ls = split_lines(&s);
                let mut i: usize = 0;
                assert(views(ls@).take(0) =~= Seq::<Seq<char>>::empty());
                while i < ls.len()
                    invariant
                        i <= ls@.len(),
                        views(ls@) == lines(out@),
                        ids == listed_nsids(lines(out@)),
                        v@.len() == listed_nsids(views(ls@).take(i as int)).len(),
                        forall|j: int|
                            0 <= j < v@.len() ==> (#[trigger] v@[j]).nsid == listed_nsids(
                                views(ls@).take(i as int),
                            )[j] && v@[j].capacity == 0 && v@[j].mode == OptaneMode::BlockMode
                                && v@[j].device_path@ == device_path@ + "n"@ + decimal(
                                listed_nsids(views(ls@).take(i as int))[j],
                            ) && v@[j].is_healthy,
                    decreases ls@.len() - i,
                {
                    let ghost before = listed_nsids(views(ls@).take(i as int));
                    assert(views(ls@).take(i + 1).drop_last() =~= views(ls@).take(i as int));
                    assert(views(ls@).take(i + 1).last() == ls@[i as int]@);
                    if let Some(n) = listed_nsid_exec(&ls[i]) {
                        let mut path: Vec<char> = Vec::new();
                        push_str(&mut path, device_path);
                        push_str(&mut path, "n");
                        let mut d = decimal_exec(n as u64);
                        path.append(&mut d);
                        v.push(
                            OptaneNamespace {
                                nsid: n,
                                capacity: 0,
                                mode: OptaneMode::BlockMode,
                                device_path: string_from_chars(&path),
                                is_healthy: true,
                            },
                        );
                    }
                    i += 1;
                }
                assert(views(ls@).take(ls@.len() as int) =~= views(ls@));
            }
        } else if has_str(&p, "pmem") {
            match pmem_size {
                Some(n) => {
                    v.push(
                        OptaneNamespace {
                            nsid: 0,
                            capacity: n,
                            mode: OptaneMode::PersistentMemory,
                            device_path: device_path.to_string(),
                            is_healthy: true,
                        },
                    );
                },
                None => {
                    return Err(DriveError::IoError("Failed to get PMEM size".to_string()));
                },
            }
        }
        if v.len() == 0 {
            v.push(
                OptaneNamespace {
                    nsid: 1,
                    capacity: 0,
                    mode: OptaneMode::BlockMode,
                    device_path: device_path.to_string(),
                    is_healthy: true,
                },
            );
        }
        Ok(v)
    }

    /// The generation that `smartctl -a` names: P4800X, P5800X, another
    /// Optane, or an unknown 3D XPoint device.
    pub fn detect_generation(smartctl_all: Option<&str>) -> (g: String)
        ensures
            g@ == generation_in(
                match smartctl_all {
                    Some(s) => Some(s@),
                    None => None,
                },
            ),
    {
        if let Some(s) = smartctl_all {
            let c = chars_of(s);
            if has_str(&c, "P4800X") {
                return "Optane DC P4800X (1st Gen)".to_string();
            } else if has_str(&c, "P5800X") {
                return "Optane DC P5800X (2nd Gen)".to_string();
            } else if has_str(&c, "Optane") {
                return "Intel Optane".to_string();
            }
        }
        "Unknown 3D XPoint".to_string()
    }

    /// The sum of the namespaces' capacities, where one namespace holds all
    /// the capacity there is.
    fn total_of(v: &Vec<OptaneNamespace>) -> (t: u64)
        requires
            v@.len() == 1 || forall|i: int| 0 <= i < v@.len() ==> (#[trigger] v@[i]).capacity == 0,
        ensures
            t == capacity_sum(v@),
    {
        let mut t: u64 = 0;
        let mut i: usize = 0;
        assert(v@.take(0) =~= Seq::<OptaneNamespace>::empty());
        while i < v.len()
            invariant
                i <= v@.len(),
                v@.len() == 1 || forall|j: int| 0 <= j < v@.len() ==> (#[trigger] v@[j]).capacity == 0,
                t == capacity_sum(v@.take(i as int)),
                v@.len() != 1 ==> t == 0,
                i == 0 ==> t == 0,
            decreases v@.len() - i,
        {
            assert(v@.take(i + 1).drop_last() =~= v@.take(i as int));
            t = t + v[i].capacity;
            i += 1;
        }
        assert(v@.take(v@.len() as int) =~= v@);
        t
    }

    /// The device at `device_path` from what its tools report: whether it is
    /// persistent memory (by path), instant secure erase support, the
    /// namespaces, their total capacity and the generation. An error where
    /// the namespaces are (a persistent-memory device of unknown size).
    pub fn get_configuration(
        device_path: &str,
        smartctl_all: Option<&str>,
        id_ctrl_human: Option<&str>,
        list_ns: Option<&str>,
        pmem_size: Option<u64>,
    ) -> (r: DriveResult<OptaneDrive>)
        ensures
            r is Err <==> (!contains(device_path@, "nvme"@) && contains(device_path@, "pmem"@)
                && pmem_size is None),
            r matches Ok(d) ==> d.device_path@ == device_path@ && d.is_pmem == contains(
                device_path@,
                "pmem"@,
            ) && d.supports_ise == (contains(device_path@, "nvme"@) && report_shows(
                report(id_ctrl_human),
                |t: Seq<char>| ise_reported(t),
            ))
                && d.total_capacity == capacity_sum(d.namespaces@) && d.generation@ == generation_in(
                match smartctl_all {
                    Some(s) => Some(s@),
                    None => None,
                },
            ),
    {
        let p = chars_of(device_path);
        let is_pmem = has_str(&p, "pmem");
        let supports_ise = Self::check_ise_support(device_path, id_ctrl_human);
        let namespaces = match Self::enumerate_namespaces(device_path, list_ns, pmem_size) {
            Ok(v) => v,
            Err(e) => {
                return Err(e);
            },
        };
        let total_capacity = Self::total_of(&namespaces);
        let generation = Self::detect_generation(smartctl_all);
        Ok(
            OptaneDrive {
                device_path: device_path.to_string(),
                is_pmem,
                supports_ise,
                namespaces,
                total_capacity,
                generation,
            },
        )
    }

    /// Whether instant secure erase may be tried: the device must support
    /// it and be an NVMe device; else the reason it may not.
    pub fn ise_precheck(&self) -> (r: Result<(), String>)
        ensures
            !self.supports_ise ==> (r matches Err(m) && m@
                == "Device does not support Instant Secure Erase"@),
            (self.supports_ise && !contains(self.device_path@, "nvme"@)) ==> (r matches Err(m) && m@
                == "ISE only supported on NVMe Optane"@),
            (self.supports_ise && contains(self.device_path@, "nvme"@)) ==> r is Ok,
    {
        if !self.supports_ise {
            return Err("Device does not support Instant Secure Erase".to_string());
        }
        let p = chars_of(self.device_path.as_str());
        if !has_str(&p, "nvme") {
            return Err("ISE only supported on NVMe Optane".to_string());
        }
        Ok(())
    }

    /// The `nvme` arguments of instant secure erase, tried in order: a
    /// format with cryptographic erase, then a sanitize with it.
    pub fn ise_commands(&self) -> (v: Vec<Vec<String>>)
        ensures
            v@.len() == 2,
            v@[0]@.len() == 4 && v@[0]@[0]@ == "format"@ && v@[0]@[1]@ == self.device_path@
                && v@[0]@[2]@ == "-s"@ && v@[0]@[3]@ == "2"@,
            v@[1]@.len() == 4 && v@[1]@[0]@ == "sanitize"@ && v@[1]@[1]@ == self.device_path@
                && v@[1]@[2]@ == "-a"@ && v@[1]@[3]@ == "2"@,
    {
        let mut f: Vec<String> = Vec::new();
        f.push("format".to_string());
        f.push(self.device_path.clone());
        f.push("-s".to_string());
        f.push("2".to_string());
        let mut s: Vec<String> = Vec::new();
        s.push("sanitize".to_string());
        s.push(self.device_path.clone());
        s.push("-a".to_string());
        s.push("2".to_string());
        let mut v: Vec<Vec<String>> = Vec::new();
        v.push(f);
        v.push(s);
        v
    }

    /// How the drive is wiped: by instant secure erase where it supports it
    /// and is not persistent memory (`None`); else each namespace in turn,
    /// persistent memory zeroed, any other overwritten.
    pub fn wipe_plan(&self) -> (r: Option<Vec<NamespaceWipe>>)
        ensures
            (self.supports_ise && !self.is_pmem) <==> r is None,
            r matches Some(v) ==> v@.len() == self.namespaces@.len() && forall|i: int|
                0 <= i < v@.len() ==> (#[trigger] v@[i]) == if self.namespaces@[i].mode
                    == OptaneMode::PersistentMemory {
                    NamespaceWipe::ZeroPmem
                } else {
                    NamespaceWipe::Overwrite
                },
    {
        if self.supports_ise && !self.is_pmem {
            return None;
        }
        let mut v: Vec<NamespaceWipe> = Vec::new();
        let mut i: usize = 0;
        while i < self.namespaces.len()
            invariant
                i <= self.namespaces@.len(),
                v@.len() == i,
                forall|j: int|
                    0 <= j < i ==> (#[trigger] v@[j]) == if self.namespaces@[j].mode
                        == OptaneMode::PersistentMemory {
                        NamespaceWipe::ZeroPmem
                    } else {
                        NamespaceWipe::Overwrite
                    },
            decreases self.namespaces@.len() - i,
        {
            match self.namespaces[i].mode {
                OptaneMode::PersistentMemory => v.push(NamespaceWipe::ZeroPmem),
                _ => v.push(NamespaceWipe::Overwrite),
            }
            i += 1;
        }
        Some(v)
    }

    /// Whether a namespace may be zeroed as persistent memory; else why not.
    pub fn pmem_precheck(ns: &OptaneNamespace) -> (r: Result<(), String>)
        ensures
            ns.mode == OptaneMode::PersistentMemory <==> r is Ok,
            r matches Err(m) ==> m@ == "Namespace is not in persistent memory mode"@,
    {
        match ns.mode {
            OptaneMode::PersistentMemory => Ok(()),
            _ => Err("Namespace is not in persistent memory mode".to_string()),
        }
    }

    /// `size` random bytes, the last overwrite pattern.
    pub fn random_pattern(size: usize) -> (v: Vec<u8>)
        ensures
            v@.len() == size,
    {
        thread_random_bytes(size)
    }

    /// The five overwrite patterns, the last of them `random` (4096 bytes).
    pub fn overwrite_patterns_with(random: Vec<u8>) -> (v: Vec<Vec<u8>>)
        ensures
            v@.len() == 5,
            forall|i: int| 0 <= i < 5 ==> (#[trigger] v@[i])@ == overwrite_patterns(random@)[i],
    {
        let mut v: Vec<Vec<u8>> = Vec::new();
        let z = vec![0x00u8; 4096];
        assert(z@ =~= Seq::new(4096, |i: int| 0x00u8));
        v.push(z);
        let o = vec![0xFFu8; 4096];
        assert(o@ =~= Seq::new(4096, |i: int| 0xFFu8));
        v.push(o);
        let a = vec![0xAAu8; 4096];
        assert(a@ =~= Seq::new(4096, |i: int| 0xAAu8));
        v.push(a);
        let f = vec![0x55u8; 4096];
        assert(f@ =~= Seq::new(4096, |i: int| 0x55u8));
        v.push(f);
        v.push(random);
        v
    }

    /// A chunk of `len` bytes of `pattern`: the pattern whole as often as it
    /// fits, the rest its first byte (`chunk_byte`).
    pub fn overwrite_chunk(pattern: &Vec<u8>, len: usize) -> (d: Vec<u8>)
        requires
            pattern@.len() > 0,
        ensures
            d@.len() == len,
            forall|i: int| 0 <= i < len ==> #[trigger] d@[i] == chunk_byte(pattern@, len as nat, i),
    {
        let plen = pattern.len();
        let rem = len % plen;
        assert(rem <= len) by (nonlinear_arith)
            requires
                plen > 0,
                rem == len % plen,
        ;
        let whole = len - rem;
        assert(whole == (len / plen) * plen) by (nonlinear_arith)
            requires
                plen > 0,
                rem == len % plen,
                whole == len - rem,
        ;
        let mut d: Vec<u8> = Vec::new();
        let mut i: usize = 0;
        while i < len
            invariant
                plen == pattern@.len(),
                plen > 0,
                whole == (len / plen) * plen,
                i <= len,
                d@.len() == i,
                forall|j: int| 0 <= j < i ==> #[trigger] d@[j] == chunk_byte(pattern@, len as nat, j),
            decreases len - i,
        {
            if i < whole {
                d.push(pattern[i % plen]);
            } else {
                d.push(pattern[0]);
            }
            i += 1;
        }
        d
    }

    /// The writes of one overwrite pass over the whole capacity: 1 MiB at a
    /// time from offset 0 (`tiles`).
    pub fn overwrite_chunks(&self) -> (c: Vec<(u64, u64)>)
        ensures
            tiles(c@, 0, self.total_capacity as nat, 1024 * 1024),
    {
        write_chunks(0, self.total_capacity, 1024 * 1024)
    }
}

} // verus!
