//! The overwrite passes of the drive-type wipes: what a pass writes, how a
//! region is cut into buffer-sized writes, and where the zones of a zoned
//! namespace lie.
use vstd::prelude::*;

use crate::nvme::{NVMeAdvanced, NVMeNamespace, NamespaceType, ZNSZone};
use crate::text::{chars_of, decimal, decimal_exec, parse_u64, parse_u64_exec, push_str, starts_with,
    starts_with_str, string_from_chars, subvec, trim, trim_exec};

verus! {

broadcast use vstd::string::group_string_axioms;

/// What an overwrite pass writes.
#[derive(Debug, Clone, Copy, PartialEq, Eq, Structural)]
pub enum WipeAlgorithm {
    Zeros,
    Ones,
    Random,
    Pattern(u8),
}

impl WipeAlgorithm {
    /// The byte the pass repeats; random passes have none.
    pub fn fill_byte(&self) -> (b: Option<u8>)
        ensures
            b == match *self {
                WipeAlgorithm::Zeros => Some(0x00u8),
                WipeAlgorithm::Ones => Some(0xFFu8),
                WipeAlgorithm::Pattern(x) => Some(x),
                WipeAlgorithm::Random => None,
            },
    {
        match self {
            WipeAlgorithm::Zeros => Some(0x00),
            WipeAlgorithm::Ones => Some(0xFF),
            WipeAlgorithm::Pattern(x) => Some(*x),
            WipeAlgorithm::Random => None,
        }
    }
}

/// `c` cuts the `size` bytes from `offset` into writes of at most `buf`
/// bytes, in order, each but the last full.
pub open spec fn tiles(c: Seq<(u64, u64)>, offset: nat, size: nat, buf: nat) -> bool {
    &&& (size == 0 <==> c.len() == 0)
    &&& c.len() > 0 ==> c[0].0 == offset
    &&& forall|i: int| 0 <= i < c.len() ==> 0 < (#[trigger] c[i]).1 <= buf
    &&& forall|i: int| 0 <= i < c.len() - 1 ==> (#[trigger] c[i]).1 == buf
    &&& forall|i: int| 0 <= i < c.len() - 1 ==> #[trigger] c[i + 1].0 == c[i].0 + c[i].1
    &&& c.len() > 0 ==> c.last().0 + c.last().1 == offset + size
}

/// The writes that cover the `size` bytes from `offset` with a buffer of
/// `buffer_size` bytes (`tiles`).
pub fn write_chunks(offset: u64, size: u64, buffer_size: u64) -> (c: Vec<(u64, u64)>)
    requires
        buffer_size > 0,
        offset + size <= u64::MAX,
    ensures
        tiles(c@, offset as nat, size as nat, buffer_size as nat),
{
    let mut c: Vec<(u64, u64)> = Vec::new();
    let mut written: u64 = 0;
    while written < size
        invariant
            buffer_size > 0,
            offset + size <= u64::MAX,
            written <= size,
            written == 0 <==> c@.len() == 0,
            c@.len() > 0 ==> c@[0].0 == offset,
            forall|i: int| 0 <= i < c@.len() ==> 0 < (#[trigger] c@[i]).1 <= buffer_size,
            forall|i: int| 0 <= i < c@.len() - 1 ==> (#[trigger] c@[i]).1 == buffer_size,
            forall|i: int| 0 <= i < c@.len() - 1 ==> #[trigger] c@[i + 1].0 == c@[i].0 + c@[i].1,
            c@.len() > 0 ==> c@.last().0 + c@.last().1 == offset + written,
            c@.len() > 0 && written < size ==> c@.last().1 == buffer_size,
        decreases size - written,
    {
        let remaining = size - written;
        let len = if remaining < buffer_size {
            remaining
        } else {
            buffer_size
        };
        let ghost before = c@;
        c.push((offset + written, len));
        proof {
            assert forall|i: int| 0 <= i < c@.len() - 1 implies #[trigger] c@[i + 1].0 == c@[i].0 + c@[i].1 by {
                if i < before.len() - 1 {
                    assert(c@[i] == before[i] && c@[i + 1] == before[i + 1]);
                } else {
                    assert(c@[i] == before.last());
                }
            }
        }
        written = written + len;
    }
    c
}

/// The byte extents of the zones of a zoned namespace: start LBA and
/// capacity, in 512-byte blocks.
pub open spec fn zone_extents(z: Seq<ZNSZone>) -> Seq<(u64, u64)> {
    z.map_values(|x: ZNSZone| ((x.zone_start_lba * 512) as u64, (x.zone_capacity * 512) as u64))
}

/// Where each zone of a zoned namespace lies, in bytes.
pub fn zns_zone_extents(zones: &Vec<ZNSZone>) -> (e: Vec<(u64, u64)>)
    requires
        forall|i: int|
            0 <= i < zones@.len() ==> (#[trigger] zones@[i]).zone_start_lba * 512 <= u64::MAX
                && zones@[i].zone_capacity * 512 <= u64::MAX,
    ensures
        e@ == zone_extents(zones@),
{
    let mut e: Vec<(u64, u64)> = Vec::new();
    let mut i: usize = 0;
    while i < zones.len()
        invariant
            i <= zones@.len(),
            forall|k: int|
                0 <= k < zones@.len() ==> (#[trigger] zones@[k]).zone_start_lba * 512 <= u64::MAX
                    && zones@[k].zone_capacity * 512 <= u64::MAX,
            e@ == zone_extents(zones@.take(i as int)),
        decreases zones@.len() - i,
    {
        let z = zones[i];
        e.push((z.zone_start_lba * 512, z.zone_capacity * 512));
        proof {
            assert(zone_extents(zones@.take(i + 1)) =~= zone_extents(zones@.take(i as int)).push(
                ((z.zone_start_lba * 512) as u64, (z.zone_capacity * 512) as u64),
            ));
        }
        i += 1;
    }
    assert(zones@.take(i as int) =~= zones@);
    e
}

/// The sysfs file with the size of a device under `/dev/`.
pub fn sysfs_size_path(device_path: &str) -> (p: Option<String>)
    ensures
        match p {
            Some(s) => starts_with(device_path@, "/dev/"@) && s@ == "/sys/block/"@ + device_path@.skip(
                5,
            ) + "/size"@,
            None => !starts_with(device_path@, "/dev/"@),
        },
{
    let d = chars_of(device_path);
    if !starts_with_str(&d, "/dev/") {
        return None;
    }
    proof {
        reveal_strlit("/dev/");
    }
    let name = subvec(&d, 5, d.len());
    assert(name@ =~= device_path@.skip(5));
    let mut v = chars_of("/sys/block/");
    let mut n = name;
    v.append(&mut n);
    push_str(&mut v, "/size");
    Some(string_from_chars(&v))
}

/// The block count in a sysfs size file.
pub fn sysfs_blocks(content: &str) -> (r: Option<u64>)
    ensures
        match parse_u64(trim(content@)) {
            Some(b) => r == Some(b as u64),
            None => r is None,
        },
{
    let c = chars_of(content);
    let t = trim_exec(&c);
    parse_u64_exec(&t)
}

/// The size in bytes in a sysfs size file: 512-byte blocks.
pub fn device_size_from_sysfs(content: &str) -> (r: Option<u64>)
    requires
        parse_u64(trim(content@)) matches Some(b) ==> b * 512 <= u64::MAX,
    ensures
        match parse_u64(trim(content@)) {
            Some(b) => r == Some((b * 512) as u64),
            None => r is None,
        },
{
    let c = chars_of(content);
    let t = trim_exec(&c);
    match parse_u64_exec(&t) {
        Some(blocks) => Some(blocks * 512),
        None => None,
    }
}

/// What is done to one namespace of an NVMe controller.
#[derive(Debug, Clone, Copy, PartialEq, Eq, Structural)]
pub enum NamespaceStep {
    /// `nvme format` of the namespace.
    Format,
    /// Zeros, ones, then random data over the whole namespace.
    ThreePass,
    /// One random pass over each zone, in order.
    ZoneSweep,
}

/// The step for a namespace, if it is active: a format where formatting
/// was chosen; else a zone sweep for a zoned namespace whose zones are
/// known, three passes for any other.
pub open spec fn namespace_step(ns: NVMeNamespace, use_format: bool) -> Option<NamespaceStep> {
    if !ns.is_active {
        None
    } else if use_format {
        Some(NamespaceStep::Format)
    } else if ns.namespace_type == NamespaceType::ZonedNamespace && ns.zones is Some {
        Some(NamespaceStep::ZoneSweep)
    } else {
        Some(NamespaceStep::ThreePass)
    }
}

/// The steps of an NVMe wipe: for each active namespace in order, its index
/// and its step.
pub open spec fn nvme_plan(ns: Seq<NVMeNamespace>, use_format: bool) -> Seq<(usize, NamespaceStep)>
    decreases ns.len(),
{
    if ns.len() == 0 {
        seq![]
    } else {
        let rest = nvme_plan(ns.drop_last(), use_format);
        match namespace_step(ns.last(), use_format) {
            Some(st) => rest.push(((ns.len() - 1) as usize, st)),
            None => rest,
        }
    }
}

/// The passes of a three-pass namespace wipe.
pub fn three_pass_algorithms() -> (v: Vec<WipeAlgorithm>)
    ensures
        v@ == seq![WipeAlgorithm::Zeros, WipeAlgorithm::Ones, WipeAlgorithm::Random],
{
    let mut v: Vec<WipeAlgorithm> = Vec::new();
    v.push(WipeAlgorithm::Zeros);
    v.push(WipeAlgorithm::Ones);
    v.push(WipeAlgorithm::Random);
    assert(v@ =~= seq![WipeAlgorithm::Zeros, WipeAlgorithm::Ones, WipeAlgorithm::Random]);
    v
}

/// The steps of the wipe of an NVMe controller's namespaces (`nvme_plan`).
pub fn nvme_wipe_plan(drive: &NVMeAdvanced, use_format: bool) -> (v: Vec<(usize, NamespaceStep)>)
    ensures
        v@ == nvme_plan(drive.namespaces@, use_format),
{
    let mut v: Vec<(usize, NamespaceStep)> = Vec::new();
    let mut i: usize = 0;
    assert(drive.namespaces@.take(0) =~= Seq::<NVMeNamespace>::empty());
    while i < drive.namespaces.len()
        invariant
            i <= drive.namespaces@.len(),
            v@ == nvme_plan(drive.namespaces@.take(i as int), use_format),
        decreases drive.namespaces@.len() - i,
    {
        let ns = &drive.namespaces[i];
        assert(drive.namespaces@.take(i + 1).drop_last() =~= drive.namespaces@.take(i as int));
        assert(drive.namespaces@.take(i + 1).last() == *ns);
        if ns.is_active {
            if use_format {
                v.push((i, NamespaceStep::Format));
            } else {
                let zoned = match ns.namespace_type {
                    NamespaceType::ZonedNamespace => ns.zones.is_some(),
                    _ => false,
                };
                if zoned {
                    v.push((i, NamespaceStep::ZoneSweep));
                } else {
                    v.push((i, NamespaceStep::ThreePass));
                }
            }
        }
        i += 1;
    }
    assert(drive.namespaces@.take(i as int) =~= drive.namespaces@);
    v
}

/// The `nvme` arguments that format namespace `nsid` of a controller.
pub fn format_namespace_args(controller_path: &str, nsid: u32) -> (v: Vec<String>)
    ensures
        v@.map_values(|a: String| a@) == seq!["format"@, controller_path@, "-n"@, decimal(nsid as nat)],
{
    let mut v: Vec<String> = Vec::new();
    v.push("format".to_string());
    v.push(controller_path.to_string());
    v.push("-n".to_string());
    let d = decimal_exec(nsid as u64);
    v.push(string_from_chars(&d));
    assert(v@.map_values(|a: String| a@) =~= seq![
        "format"@,
        controller_path@,
        "-n"@,
        decimal(nsid as nat),
    ]);
    v
}

/// The bytes that the writes `c` cover between them.
pub open spec fn chunk_total(c: Seq<(u64, u64)>) -> nat
    decreases c.len(),
{
    if c.len() == 0 {
        0
    } else {
        chunk_total(c.drop_last()) + (c.last().1 as nat)
    }
}

proof fn lemma_tiles_prefix(c: Seq<(u64, u64)>, offset: nat, size: nat, buf: nat, i: int)
    requires
        tiles(c, offset, size, buf),
        0 <= i < c.len(),
    ensures
        c[i].0 == offset + chunk_total(c.take(i)),
    decreases i,
{
    if i == 0 {
        assert(c.take(0) =~= Seq::<(u64, u64)>::empty());
    } else {
        lemma_tiles_prefix(c, offset, size, buf, i - 1);
        assert(c.take(i).drop_last() =~= c.take(i - 1));
        assert(c[(i - 1) + 1].0 == c[i - 1].0 + c[i - 1].1);
    }
}

/// Law: the writes that `write_chunks` plans cover the region exactly: each
/// starts where the ones before it end, lies inside the region, and their
/// lengths add up to its size.
pub proof fn lemma_tiles_cover(c: Seq<(u64, u64)>, offset: nat, size: nat, buf: nat)
    requires
        tiles(c, offset, size, buf),
    ensures
        chunk_total(c) == size,
        forall|i: int| 0 <= i < c.len() ==> (#[trigger] c[i]).0 == offset + chunk_total(c.take(i)),
        forall|i: int| 0 <= i < c.len() ==> offset <= (#[trigger] c[i]).0 && c[i].0 + c[i].1 <= offset
            + size,
{
    assert forall|i: int| 0 <= i < c.len() implies (#[trigger] c[i]).0 == offset + chunk_total(
        c.take(i),
    ) by {
        lemma_tiles_prefix(c, offset, size, buf, i);
    }
    if c.len() > 0 {
        let n = c.len() - 1;
        lemma_tiles_prefix(c, offset, size, buf, n);
        assert(c.take(n) =~= c.drop_last());
        assert(chunk_total(c) == chunk_total(c.drop_last()) + c.last().1);
        assert forall|i: int| 0 <= i < c.len() implies offset <= (#[trigger] c[i]).0 && c[i].0 + c[i].1
            <= offset + size by {
            lemma_tiles_prefix(c, offset, size, buf, i);
            lemma_total_grows(c, i);
        }
    }
}

proof fn lemma_total_grows(c: Seq<(u64, u64)>, i: int)
    requires
        0 <= i < c.len(),
    ensures
        chunk_total(c.take(i)) + c[i].1 <= chunk_total(c),
    decreases c.len(),
{
    if i == c.len() - 1 {
        assert(c.take(i) =~= c.drop_last());
    } else {
        lemma_total_grows(c.drop_last(), i);
        assert(c.drop_last().take(i) =~= c.take(i));
    }
}

} // verus!
