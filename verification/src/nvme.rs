//! NVMe controllers with several namespaces, zoned namespaces, key-value
//! and computational storage, read from what `nvme-cli` prints.
use vstd::prelude::*;

use crate::text::{
    chars_of, contains, decimal, decimal_exec, has_str, lemma_rfind_char, lines, parse_u64,
    parse_u64_exec, rfind_char, rfind_char_exec, second_piece, second_piece_exec, split_lines,
    string_from_chars, subvec, trim, trim_exec, views, parse_uint, parse_uint_exec, opt64,
};
use crate::{DriveError, DriveResult};

verus! {

broadcast use vstd::string::group_string_axioms;

/// The command set of a namespace.
#[derive(Debug, Clone, Copy, PartialEq, Eq, Structural)]
pub enum NamespaceType {
    Block,
    ZonedNamespace,
    KeyValue,
    Computational,
}

/// The state of a zone of a zoned namespace.
#[derive(Debug, Clone, Copy, PartialEq, Eq, Structural)]
pub enum ZNSZoneState {
    Empty,
    ImplicitlyOpen,
    ExplicitlyOpen,
    Closed,
    ReadOnly,
    Full,
    Offline,
}

/// A zone of a zoned namespace.
#[derive(Debug, Clone, Copy)]
pub struct ZNSZone {
    pub zone_id: u32,
    pub zone_start_lba: u64,
    pub zone_capacity: u64,
    pub write_pointer: u64,
    pub zone_state: ZNSZoneState,
    pub is_sequential: bool,
}

/// A namespace of a controller.
#[derive(Debug, Clone)]
pub struct NVMeNamespace {
    pub nsid: u32,
    pub size: u64,
    pub namespace_type: NamespaceType,
    pub device_path: String,
    pub is_active: bool,
    pub is_attached: bool,
    pub zones: Option<Vec<ZNSZone>>,
}

/// A controller and its namespaces.
#[derive(Debug, Clone)]
pub struct NVMeAdvanced {
    pub device_path: String,
    pub controller_path: String,
    pub namespaces: Vec<NVMeNamespace>,
    pub zns_support: bool,
    pub kv_support: bool,
    pub is_computational_storage: bool,
    pub model: String,
    pub firmware: String,
}

impl ZNSZone {
    /// A full or closed zone must be reset before it is written.
    pub fn needs_reset(&self) -> (b: bool)
        ensures
            b == (self.zone_state == ZNSZoneState::Full || self.zone_state == ZNSZoneState::Closed),
    {
        match self.zone_state {
            ZNSZoneState::Full | ZNSZoneState::Closed => true,
            _ => false,
        }
    }

    /// An empty or open zone can be written.
    pub fn is_writable(&self) -> (b: bool)
        ensures
            b == (self.zone_state == ZNSZoneState::Empty || self.zone_state
                == ZNSZoneState::ImplicitlyOpen || self.zone_state == ZNSZoneState::ExplicitlyOpen),
    {
        match self.zone_state {
            ZNSZoneState::Empty | ZNSZoneState::ImplicitlyOpen | ZNSZoneState::ExplicitlyOpen => true,
            _ => false,
        }
    }
}

/// What `nvme id-ctrl` says of zoned, key-value or computational storage.
pub open spec fn advanced_markers(s: Seq<char>) -> bool {
    contains(s, "ZNS"@) || contains(s, "Zoned"@) || contains(s, "Key-Value"@) || contains(s, "KV"@)
        || contains(s, "Computational"@)
}

/// The namespaces that `nvme list-ns` lists: its lines with both brackets,
/// at least one; one where the command failed.
pub open spec fn namespace_count(list_ns: Option<Seq<char>>) -> nat {
    match list_ns {
        None => 1,
        Some(s) => {
            let n = lines(s).filter(|l: Seq<char>| contains(l, "["@) && contains(l, "]"@)).len();
            if n > 1 { n } else { 1 }
        },
    }
}

/// The controller of a namespace path: the path before its last `n`.
pub open spec fn controller_of(path: Seq<char>) -> Seq<char> {
    let p = rfind_char(path, 'n');
    if p >= 0 {
        path.take(p)
    } else {
        path
    }
}

/// The value of the first line of `ls` that holds `key` and a `:`: the
/// trimmed text after the `:`; `Unknown` where there is none.
pub open spec fn keyed_value(ls: Seq<Seq<char>>, key: Seq<char>) -> Seq<char>
    decreases ls.len(),
{
    if ls.len() == 0 {
        "Unknown"@
    } else if contains(ls[0], key) && contains(ls[0], ":"@) && second_piece(ls[0], ':') is Some {
        trim(second_piece(ls[0], ':')->0)
    } else {
        keyed_value(ls.drop_first(), key)
    }
}

/// The namespace size in bytes in `nvme id-ns`: the first `nsze` line whose
/// value reads as a number, times 512; 0 where none does.
pub open spec fn nsze_blocks(ls: Seq<Seq<char>>) -> Option<nat>
    decreases ls.len(),
{
    if ls.len() == 0 {
        None
    } else if contains(ls[0], "nsze"@) && contains(ls[0], ":"@) && second_piece(ls[0], ':') is Some
        && parse_u64(trim(second_piece(ls[0], ':')->0)) is Some {
        parse_u64(trim(second_piece(ls[0], ':')->0))
    } else {
        nsze_blocks(ls.drop_first())
    }
}

fn count_bracket_lines(s: &str) -> (n: usize)
    ensures
        n == lines(s@).filter(|l: Seq<char>| contains(l, "["@) && contains(l, "]"@)).len(),
{
    let cs = chars_of(s);
    let ls = split_lines(&cs);
    let ghost all = views(ls@);
    let ghost f = |l: Seq<char>| contains(l, "["@) && contains(l, "]"@);
    let mut n: usize = 0;
    let mut i: usize = 0;
    assert(all.take(0).filter(f) =~= Seq::<Seq<char>>::empty());
    while i < ls.len()
        invariant
            all == views(ls@),
            all == lines(s@),
            f == (|l: Seq<char>| contains(l, "["@) && contains(l, "]"@)),
            i <= all.len(),
            n == all.take(i as int).filter(f).len(),
            n <= i,
        decreases all.len() - i,
    {
        proof {
            reveal(Seq::filter);
            assert(all.take(i + 1).drop_last() =~= all.take(i as int));
            assert(all.take(i + 1).last() == ls@[i as int]@);
        }
        if has_str(&ls[i], "[") && has_str(&ls[i], "]") {
            n += 1;
        }
        i += 1;
    }
    assert(all.take(i as int) =~= all);
    n
}

fn keyed_value_exec(s: &str, key: &str) -> (r: String)
    ensures
        r@ == keyed_value(lines(s@), key@),
{
    let cs = chars_of(s);
    let ls = split_lines(&cs);
    let ghost all = views(ls@);
    let mut i: usize = 0;
    assert(all.skip(0) =~= all);
    while i < ls.len()
        invariant
            all == views(ls@),
            all == lines(s@),
            i <= all.len(),
            keyed_value(all, key@) == keyed_value(all.skip(i as int), key@),
        decreases all.len() - i,
    {
        assert(all.skip(i as int).drop_first() =~= all.skip(i + 1));
        assert(all.skip(i as int)[0] == ls@[i as int]@);
        if has_str(&ls[i], key) && has_str(&ls[i], ":") {
            if let Some(p) = second_piece_exec(&ls[i], ':') {
                let t = trim_exec(&p);
                return string_from_chars(&t);
            }
        }
        i += 1;
    }
    proof {
        reveal_strlit("Unknown");
    }
    "Unknown".to_string()
}

/// `w` with every leading `0x` taken off (`trim_start_matches("0x")`).
pub open spec fn strip_hex_prefix(w: Seq<char>) -> Seq<char>
    decreases w.len(),
{
    if w.len() >= 2 && w[0] == '0' && w[1] == 'x' {
        strip_hex_prefix(w.skip(2))
    } else {
        w
    }
}

/// The namespace id of a line of `nvme list-ns -a`: a line that starts with
/// `[` and whose text after the first `]` (up to any next one), trimmed and
/// without leading `0x`, is a decimal `u32` above 0.
pub open spec fn all_ns_id(l: Seq<char>) -> Option<nat> {
    if l.len() > 0 && l[0] == '[' {
        match second_piece(l, ']') {
            Some(p) => match parse_uint(strip_hex_prefix(trim(p)), 10, u32::MAX as nat) {
                Some(n) => if n > 0 {
                    Some(n)
                } else {
                    None
                },
                None => None,
            },
            None => None,
        }
    } else {
        None
    }
}

/// The namespace ids of `nvme list-ns -a`, in order.
pub open spec fn all_ns_ids(ls: Seq<Seq<char>>) -> Seq<nat>
    decreases ls.len(),
{
    if ls.len() == 0 {
        seq![]
    } else {
        let rest = all_ns_ids(ls.drop_last());
        match all_ns_id(ls.last()) {
            Some(n) => rest.push(n),
            None => rest,
        }
    }
}

fn strip_hex_prefix_exec(w: &Vec<char>) -> (r: Vec<char>)
    ensures
        r@ == strip_hex_prefix(w@),
{
    let mut i: usize = 0;
    assert(w@.skip(0) =~= w@);
    while i < w.len() && w.len() - i >= 2 && w[i] == '0' && w[i + 1] == 'x'
        invariant
            i <= w@.len(),
            strip_hex_prefix(w@) == strip_hex_prefix(w@.skip(i as int)),
        decreases w@.len() - i,
    {
        assert(w@.skip(i as int).skip(2) =~= w@.skip(i + 2));
        i += 2;
    }
    let r = subvec(w, i, w.len());
    assert(r@ =~= w@.skip(i as int));
    r
}

fn all_ns_id_exec(l: &Vec<char>) -> (r: Option<u32>)
    ensures
        r matches Some(n) ==> all_ns_id(l@) == Some(n as nat),
        r is None ==> all_ns_id(l@) is None,
{
    if l.len() == 0 || l[0] != '[' {
        return None;
    }
    match second_piece_exec(l, ']') {
        None => None,
        Some(p) => {
            let t = trim_exec(&p);
            let h = strip_hex_prefix_exec(&t);
            match parse_uint_exec(&h, 10, u32::MAX as u64) {
                Some(n) => if n > 0 {
                    Some(n as u32)
                } else {
                    None
                },
                None => None,
            }
        },
    }
}

impl NVMeAdvanced {
    /// The ids of the namespaces that `nvme list-ns -a` lists (`all_ns_ids`).
    pub fn listed_namespace_ids(list_ns_all: &str) -> (v: Vec<u32>)
        ensures
            v@.map_values(|x: u32| x as nat) == all_ns_ids(lines(list_ns_all@)),
    {
        let s = chars_of(list_ns_all);
        let ls = split_lines(&s);
        let mut v: Vec<u32> = Vec::new();
        let mut i: usize = 0;
        assert(views(ls@).take(0) =~= Seq::<Seq<char>>::empty());
        while i < ls.len()
            invariant
                i <= ls@.len(),
                views(ls@) == lines(list_ns_all@),
                v@.map_values(|x: u32| x as nat) == all_ns_ids(views(ls@).take(i as int)),
            decreases ls@.len() - i,
        {
            assert(views(ls@).take(i + 1).drop_last() =~= views(ls@).take(i as int));
            assert(views(ls@).take(i + 1).last() == ls@[i as int]@);
            if let Some(n) = all_ns_id_exec(&ls[i]) {
                let ghost before = v@;
                v.push(n);
                assert(v@.map_values(|x: u32| x as nat) =~= before.map_values(|x: u32| x as nat).push(
                    n as nat,
                ));
            }
            i += 1;
        }
        assert(views(ls@).take(ls@.len() as int) =~= views(ls@));
        v
    }
}

impl NVMeAdvanced {
    /// Whether a controller has advanced features: its `id-ctrl` report
    /// names zoned, key-value or computational storage, or it has more than
    /// one namespace (`namespace_count`).
    pub fn detect_advanced_features(controller_info: &str, list_ns: Option<&str>) -> (r: DriveResult<bool>)
        ensures
            r == Ok::<bool, DriveError>(
                advanced_markers(controller_info@) || namespace_count(
                    match list_ns {
                        Some(s) => Some(s@),
                        None => None,
                    },
                ) > 1,
            ),
    {
        let info = chars_of(controller_info);
        if has_str(&info, "ZNS") || has_str(&info, "Zoned") || has_str(&info, "Key-Value") || has_str(
            &info,
            "KV",
        ) || has_str(&info, "Computational") {
            return Ok(true);
        }
        let n = Self::count_namespaces(list_ns);
        Ok(n > 1)
    }

    /// The number of namespaces (`namespace_count`).
    pub fn count_namespaces(list_ns: Option<&str>) -> (n: usize)
        ensures
            n == namespace_count(
                match list_ns {
                    Some(s) => Some(s@),
                    None => None,
                },
            ),
    {
        match list_ns {
            None => 1,
            Some(s) => {
                let n = count_bracket_lines(s);
                if n > 1 {
                    n
                } else {
                    1
                }
            },
        }
    }

    /// The controller path of a namespace path (`controller_of`).
    pub fn extract_controller_path(device_path: &str) -> (r: String)
        ensures
            r@ == controller_of(device_path@),
    {
        let p = chars_of(device_path);
        proof {
            lemma_rfind_char(p@, 'n');
        }
        match rfind_char_exec(&p, 'n') {
            Some(pos) => {
                let head = subvec(&p, 0, pos);
                assert(head@ =~= p@.take(pos as int));
                string_from_chars(&head)
            },
            None => string_from_chars(&p),
        }
    }

    /// Whether `id-ctrl` reports key-value command sets.
    pub fn detect_kv_support(info: &str) -> (b: bool)
        ensures
            b == (contains(info@, "Key-Value"@) || contains(info@, "KV Command Set"@)),
    {
        let c = chars_of(info);
        has_str(&c, "Key-Value") || has_str(&c, "KV Command Set")
    }

    /// Whether `id-ctrl` reports computational storage.
    pub fn detect_computational_storage(info: &str) -> (b: bool)
        ensures
            b == (contains(info@, "Computational"@) || contains(info@, "In-Storage Compute"@)
                || contains(info@, "SmartNIC"@)),
    {
        let c = chars_of(info);
        has_str(&c, "Computational") || has_str(&c, "In-Storage Compute") || has_str(&c, "SmartNIC")
    }

    /// The model that `id-ctrl` gives (`mn`).
    pub fn parse_model(info: &str) -> (r: String)
        ensures
            r@ == keyed_value(lines(info@), "mn"@),
    {
        keyed_value_exec(info, "mn")
    }

    /// The firmware revision that `id-ctrl` gives (`fr`).
    pub fn parse_firmware(info: &str) -> (r: String)
        ensures
            r@ == keyed_value(lines(info@), "fr"@),
    {
        keyed_value_exec(info, "fr")
    }

    /// The size in bytes that `id-ns` gives: `nsze` blocks of 512 bytes.
    pub fn parse_namespace_size(output: &str) -> (size: u64)
        requires
            nsze_blocks(lines(output@)) matches Some(b) ==> b * 512 <= u64::MAX,
        ensures
            size == match nsze_blocks(lines(output@)) {
                Some(b) => b * 512,
                None => 0,
            },
    {
        match Self::namespace_blocks(output) {
            Some(blocks) => blocks * 512,
            None => 0,
        }
    }

    /// The block count of the first `nsze` line of `nvme id-ns` that gives
    /// one (`nsze_blocks`).
    pub fn namespace_blocks(output: &str) -> (r: Option<u64>)
        ensures
            opt64(r) == nsze_blocks(lines(output@)),
    {
        let cs = chars_of(output);
        let ls = split_lines(&cs);
        let ghost all = views(ls@);
        let mut i: usize = 0;
        assert(all.skip(0) =~= all);
        while i < ls.len()
            invariant
                all == views(ls@),
                all == lines(output@),
                i <= all.len(),
                nsze_blocks(all) == nsze_blocks(all.skip(i as int)),
            decreases all.len() - i,
        {
            assert(all.skip(i as int).drop_first() =~= all.skip(i + 1));
            assert(all.skip(i as int)[0] == ls@[i as int]@);
            if has_str(&ls[i], "nsze") && has_str(&ls[i], ":") {
                if let Some(p) = second_piece_exec(&ls[i], ':') {
                    let t = trim_exec(&p);
                    if let Some(blocks) = parse_u64_exec(&t) {
                        return Some(blocks);
                    }
                }
            }
            i += 1;
        }
        None
    }

    /// A namespace with only its id known: a block namespace at the
    /// controller path followed by `n` and the id.
    pub fn create_default_namespace(controller_path: &str, nsid: u32) -> (r: DriveResult<NVMeNamespace>)
        ensures
            r matches Ok(ns) && ns.nsid == nsid && ns.size == 0 && ns.namespace_type
                == NamespaceType::Block && ns.device_path@ == controller_path@ + "n"@ + decimal(
                nsid as nat,
            ) && ns.is_active && ns.is_attached && ns.zones is None,
    {
        let mut p = chars_of(controller_path);
        p.push('n');
        let mut digits = decimal_exec(nsid as u64);
        p.append(&mut digits);
        proof {
            reveal_strlit("n");
        }
        Ok(
            NVMeNamespace {
                nsid,
                size: 0,
                namespace_type: NamespaceType::Block,
                device_path: string_from_chars(&p),
                is_active: true,
                is_attached: true,
                zones: None,
            },
        )
    }

    /// The zones of `nvme zns report-zones`: one for each `SLBA:` line,
    /// numbered from 0, sequential where the line says `SEQWRITE`.
    pub fn parse_zns_zones(output: &str) -> (r: DriveResult<Vec<ZNSZone>>)
        requires
            lines(output@).len() <= u32::MAX,
        ensures
            r matches Ok(z) && zns_zones_reported(z@, lines(output@)),
    {
        let cs = chars_of(output);
        let ls = split_lines(&cs);
        let ghost all = views(ls@);
        let ghost f = |l: Seq<char>| contains(l, "SLBA:"@);
        let mut zones: Vec<ZNSZone> = Vec::new();
        let mut i: usize = 0;
        assert(all.take(0).filter(f) =~= Seq::<Seq<char>>::empty());
        while i < ls.len()
            invariant
                all == views(ls@),
                all == lines(output@),
                all.len() <= u32::MAX,
                f == (|l: Seq<char>| contains(l, "SLBA:"@)),
                i <= all.len(),
                zones@.len() <= i,
                zns_zones_reported(zones@, all.take(i as int)),
            decreases all.len() - i,
        {
            proof {
                reveal(Seq::filter);
                assert(all.take(i + 1).drop_last() =~= all.take(i as int));
                assert(all.take(i + 1).last() == ls@[i as int]@);
            }
            if has_str(&ls[i], "SLBA:") {
                let n = zones.len() as u32;
                zones.push(
                    ZNSZone {
                        zone_id: n,
                        zone_start_lba: 0,
                        zone_capacity: 0,
                        write_pointer: 0,
                        zone_state: ZNSZoneState::Empty,
                        is_sequential: has_str(&ls[i], "SEQWRITE"),
                    },
                );
            }
            i += 1;
        }
        assert(all.take(i as int) =~= all);
        Ok(zones)
    }

    /// Resetting every zone of a namespace, decided before any command: the
    /// ids of its sequential zones, in order; refused with "Not a ZNS
    /// namespace" where a namespace that is not zoned has a sequential zone
    /// (one without such zones resets nothing and is not refused).
    pub fn zns_reset_plan(ns: &NVMeNamespace) -> (r: DriveResult<Vec<u32>>)
        ensures
            r is Err <==> (ns.namespace_type != NamespaceType::ZonedNamespace
                && sequential_zone_ids(ns).len() > 0),
            r matches Err(e) ==> (e matches DriveError::HardwareCommandFailed(m) && m@
                == "Not a ZNS namespace"@),
            r matches Ok(ids) ==> ids@ == sequential_zone_ids(ns),
    {
        let ids = Self::zones_to_reset(ns);
        if ids.len() > 0 && ns.namespace_type != NamespaceType::ZonedNamespace {
            return Err(DriveError::HardwareCommandFailed("Not a ZNS namespace".to_string()));
        }
        Ok(ids)
    }

    /// The ids of the zones that resetting every zone of a namespace resets:
    /// its sequential zones, in order; none for a namespace without zones.
    pub fn zones_to_reset(ns: &NVMeNamespace) -> (ids: Vec<u32>)
        ensures
            ns.zones is None ==> ids@.len() == 0,
            ns.zones matches Some(z) ==> ids@ == z@.filter(|x: ZNSZone| x.is_sequential).map_values(
                |x: ZNSZone| x.zone_id,
            ),
            ids@ == sequential_zone_ids(ns),
    {
        let mut ids: Vec<u32> = Vec::new();
        if let Some(zones) = &ns.zones {
            let ghost f = |x: ZNSZone| x.is_sequential;
            let ghost g = |x: ZNSZone| x.zone_id;
            let mut i: usize = 0;
            assert(zones@.take(0).filter(f).map_values(g) =~= Seq::<u32>::empty());
            while i < zones.len()
                invariant
                    f == (|x: ZNSZone| x.is_sequential),
                    g == (|x: ZNSZone| x.zone_id),
                    i <= zones@.len(),
                    ids@ == zones@.take(i as int).filter(f).map_values(g),
                decreases zones@.len() - i,
            {
                proof {
                    reveal(Seq::filter);
                    assert(zones@.take(i + 1).drop_last() =~= zones@.take(i as int));
                }
                if zones[i].is_sequential {
                    ids.push(zones[i].zone_id);
                    proof {
                        assert(ids@ =~= zones@.take(i + 1).filter(f).map_values(g));
                    }
                }
                i += 1;
            }
            assert(zones@.take(i as int) =~= zones@);
        }
        ids
    }

    /// A controller from its reports: the controller path of `device_path`;
    /// zoned namespaces where `nvme zns id-ctrl` succeeded or `id-ctrl` names
    /// them; key-value and computational storage, model and firmware from
    /// `id-ctrl`.
    pub fn get_configuration(
        device_path: &str,
        controller_info: &str,
        zns_id_ctrl_ok: bool,
        namespaces: Vec<NVMeNamespace>,
    ) -> (r: DriveResult<NVMeAdvanced>)
        ensures
            r matches Ok(a) && a.device_path@ == device_path@ && a.controller_path@ == controller_of(
                device_path@,
            ) && a.namespaces@ == namespaces@ && a.zns_support == (zns_id_ctrl_ok || contains(
                controller_info@,
                "Zoned Namespace"@,
            ) || contains(controller_info@, "ZNS"@)) && a.kv_support == (contains(
                controller_info@,
                "Key-Value"@,
            ) || contains(controller_info@, "KV Command Set"@)) && a.is_computational_storage == (
            contains(controller_info@, "Computational"@) || contains(
                controller_info@,
                "In-Storage Compute"@,
            ) || contains(controller_info@, "SmartNIC"@)) && a.model@ == keyed_value(
                lines(controller_info@),
                "mn"@,
            ) && a.firmware@ == keyed_value(lines(controller_info@), "fr"@),
    {
        let controller_path = Self::extract_controller_path(device_path);
        let info = chars_of(controller_info);
        let zns_support = zns_id_ctrl_ok || has_str(&info, "Zoned Namespace") || has_str(&info, "ZNS");
        Ok(
            NVMeAdvanced {
                device_path: device_path.to_string(),
                controller_path,
                namespaces,
                zns_support,
                kv_support: Self::detect_kv_support(controller_info),
                is_computational_storage: Self::detect_computational_storage(controller_info),
                model: Self::parse_model(controller_info),
                firmware: Self::parse_firmware(controller_info),
            },
        )
    }
}

/// The zones of a zone report: one for each `SLBA:` line, numbered from 0,
/// empty, sequential where the line says `SEQWRITE`.
/// The ids of the sequential zones of a namespace, in order.
pub open spec fn sequential_zone_ids(ns: &NVMeNamespace) -> Seq<u32> {
    match ns.zones {
        Some(z) => z@.filter(|x: ZNSZone| x.is_sequential).map_values(|x: ZNSZone| x.zone_id),
        None => Seq::empty(),
    }
}

pub open spec fn zns_zones_reported(z: Seq<ZNSZone>, ls: Seq<Seq<char>>) -> bool {
    let ms = ls.filter(|l: Seq<char>| contains(l, "SLBA:"@));
    &&& z.len() == ms.len()
    &&& forall|i: int|
        0 <= i < z.len() ==> (#[trigger] z[i]).zone_id == i && z[i].zone_start_lba == 0
            && z[i].zone_capacity == 0 && z[i].write_pointer == 0 && z[i].zone_state
            == ZNSZoneState::Empty && z[i].is_sequential == contains(ms[i], "SEQWRITE"@)
}

} // verus!
