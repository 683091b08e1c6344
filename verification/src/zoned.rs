//! Zoned and multi-device drives: SMR zones, NVMe namespaces and zoned
//! namespaces, and RAID membership.
use vstd::prelude::*;

use crate::text::{
    chars_of, contains, decimal, decimal_exec, has_str, lines, push_str, split_lines,
    string_from_chars, trim, trim_exec, views,
};
use crate::{DriveError, DriveResult};

verus! {

broadcast use vstd::string::group_string_axioms;

// ---------------------------------------------------------------------------
// SMR
// ---------------------------------------------------------------------------

/// How an SMR drive exposes its zones.
#[derive(Debug, Clone, Copy, PartialEq, Eq, Structural)]
pub enum ZoneModel {
    /// The host must manage the zones.
    HostManaged,
    /// Random writes work; sequential ones work better.
    HostAware,
    /// The drive manages its zones and looks like a plain disk.
    DriveManaged,
}

/// The write discipline of a zone.
#[derive(Debug, Clone, Copy, PartialEq, Eq, Structural)]
pub enum ZoneType {
    Conventional,
    SequentialWriteRequired,
    SequentialWritePreferred,
}

/// The condition of a zone.
#[derive(Debug, Clone, Copy, PartialEq, Eq, Structural)]
pub enum ZoneCondition {
    Empty,
    ImplicitlyOpen,
    ExplicitlyOpen,
    Closed,
    ReadOnly,
    Full,
    Offline,
}

/// A zone of an SMR drive.
#[derive(Debug, Clone, Copy)]
pub struct Zone {
    pub zone_number: u32,
    pub zone_type: ZoneType,
    pub write_pointer: u64,
    pub zone_start_lba: u64,
    pub zone_size: u64,
    pub zone_condition: ZoneCondition,
    pub zone_length: u64,
}

/// An SMR drive and its zones.
#[derive(Debug, Clone)]
pub struct SMRDrive {
    pub device_path: String,
    pub zone_model: ZoneModel,
    pub zones: Vec<Zone>,
    pub total_capacity: u64,
    pub conventional_zone_count: u32,
    pub sequential_zone_count: u32,
    pub typical_zone_size: u64,
}

/// The zone size that the zone reports carry no size for: 256 MiB.
pub const DEFAULT_ZONE_SIZE: u64 = 268435456;

impl Zone {
    /// A full or closed zone must be reset before it is written.
    pub fn needs_reset(&self) -> (b: bool)
        ensures
            b == (self.zone_condition == ZoneCondition::Full || self.zone_condition
                == ZoneCondition::Closed),
    {
        match self.zone_condition {
            ZoneCondition::Full | ZoneCondition::Closed => true,
            _ => false,
        }
    }

    /// An empty or open zone can be written.
    pub fn is_writable(&self) -> (b: bool)
        ensures
            b == (self.zone_condition == ZoneCondition::Empty || self.zone_condition
                == ZoneCondition::ImplicitlyOpen || self.zone_condition == ZoneCondition::ExplicitlyOpen),
    {
        match self.zone_condition {
            ZoneCondition::Empty | ZoneCondition::ImplicitlyOpen | ZoneCondition::ExplicitlyOpen => true,
            _ => false,
        }
    }
}

/// What `sg_inq -p 0xb1` says of zoning.
pub open spec fn sg_inq_zoned(s: Seq<char>) -> bool {
    contains(s, "host managed"@) || contains(s, "host aware"@) || contains(s, "Zoned"@)
}

/// What `smartctl -a` says of shingling.
pub open spec fn smartctl_shingled(s: Seq<char>) -> bool {
    contains(s, "Shingled"@) || contains(s, "SMR"@) || contains(s, "Host Managed"@) || contains(
        s,
        "Host Aware"@,
    )
}

/// What `/sys/block/*/queue/zoned` says of zoning.
pub open spec fn sysfs_zoned(s: Seq<char>) -> bool {
    trim(s) == "host-managed"@ || trim(s) == "host-aware"@
}

/// The type of a zone line.
pub open spec fn zone_type_in(l: Seq<char>, required: Seq<char>) -> ZoneType {
    if contains(l, "CONVENTIONAL"@) {
        ZoneType::Conventional
    } else if contains(l, required) {
        ZoneType::SequentialWriteRequired
    } else {
        ZoneType::SequentialWritePreferred
    }
}

/// The zones of a zone report: one for each line that holds `marker`,
/// numbered from 0, typed by `zone_type_in`, empty, 256 MiB each.
pub open spec fn zones_reported(z: Seq<Zone>, ls: Seq<Seq<char>>, marker: Seq<char>, required: Seq<char>) -> bool {
    let ms = ls.filter(|l: Seq<char>| contains(l, marker));
    &&& z.len() == ms.len()
    &&& forall|i: int|
        0 <= i < z.len() ==> (#[trigger] z[i]).zone_number == i && z[i].zone_type == zone_type_in(
            ms[i],
            required,
        ) && z[i].write_pointer == 0 && z[i].zone_start_lba == 0 && z[i].zone_size
            == DEFAULT_ZONE_SIZE && z[i].zone_condition == ZoneCondition::Empty && z[i].zone_length
            == 0
}

/// The total size of zones.
pub open spec fn zones_size(z: Seq<Zone>) -> nat
    decreases z.len(),
{
    if z.len() == 0 {
        0
    } else {
        zones_size(z.drop_last()) + z.last().zone_size as nat
    }
}

/// The number of conventional zones.
pub open spec fn conventional_count(z: Seq<Zone>) -> nat
    decreases z.len(),
{
    if z.len() == 0 {
        0
    } else {
        conventional_count(z.drop_last()) + if z.last().zone_type == ZoneType::Conventional {
            1nat
        } else {
            0nat
        }
    }
}

proof fn lemma_conventional_count_bound(z: Seq<Zone>)
    ensures
        conventional_count(z) <= z.len(),
    decreases z.len(),
{
    if z.len() > 0 {
        lemma_conventional_count_bound(z.drop_last());
    }
}

proof fn lemma_filter_push(ls: Seq<Seq<char>>, marker: Seq<char>, i: int)
    requires
        0 <= i < ls.len(),
    ensures
        ls.take(i + 1).filter(|l: Seq<char>| contains(l, marker)) == (if contains(ls[i], marker) {
            ls.take(i).filter(|l: Seq<char>| contains(l, marker)).push(ls[i])
        } else {
            ls.take(i).filter(|l: Seq<char>| contains(l, marker))
        }),
{
    reveal(Seq::filter);
    assert(ls.take(i + 1).drop_last() =~= ls.take(i));
    assert(ls.take(i + 1).last() == ls[i]);
}

/// The zones of a zone report (`zones_reported`).
fn parse_zone_report(output: &str, marker: &str, required: &str) -> (z: Vec<Zone>)
    requires
        lines(output@).len() <= u32::MAX,
    ensures
        zones_reported(z@, lines(output@), marker@, required@),
{
    let cs = chars_of(output);
    let ls = split_lines(&cs);
    let ghost all = views(ls@);
    let mut zones: Vec<Zone> = Vec::new();
    let mut i: usize = 0;
    assert(all.take(0).filter(|l: Seq<char>| contains(l, marker@)) =~= Seq::<Seq<char>>::empty());
    while i < ls.len()
        invariant
            all == views(ls@),
            all == lines(output@),
            all.len() <= u32::MAX,
            i <= all.len(),
            zones@.len() <= i,
            zones_reported(zones@, all.take(i as int), marker@, required@),
        decreases all.len() - i,
    {
        proof {
            lemma_filter_push(all, marker@, i as int);
            assert(all.take(i + 1).drop_last() =~= all.take(i as int));
            assert(all[i as int] == ls@[i as int]@);
        }
        if crate::text::has(&ls[i], &chars_of(marker)) {
            let zone_type = if has_str(&ls[i], "CONVENTIONAL") {
                ZoneType::Conventional
            } else if has_str(&ls[i], required) {
                ZoneType::SequentialWriteRequired
            } else {
                ZoneType::SequentialWritePreferred
            };
            let n = zones.len() as u32;
            zones.push(
                Zone {
                    zone_number: n,
                    zone_type,
                    write_pointer: 0,
                    zone_start_lba: 0,
                    zone_size: DEFAULT_ZONE_SIZE,
                    zone_condition: ZoneCondition::Empty,
                    zone_length: 0,
                },
            );
        }
        i += 1;
    }
    assert(all.take(i as int) =~= all);
    zones
}

impl SMRDrive {
    /// Whether a drive is SMR: `sg_inq` reports zoning, or smartctl reports
    /// shingling, or else sysfs says host-managed or host-aware.
    pub fn detect(sg_inq: Option<&str>, smartctl: Option<&str>, sysfs_zoned_text: Option<&str>) -> (r:
        DriveResult<bool>)
        ensures
            r == Ok::<bool, DriveError>(
                (sg_inq matches Some(s) && sg_inq_zoned(s@)) || (smartctl matches Some(s)
                    && smartctl_shingled(s@)) || (sysfs_zoned_text matches Some(s) && sysfs_zoned(
                    s@,
                )),
            ),
    {
        if let Some(s) = sg_inq {
            let c = chars_of(s);
            if has_str(&c, "host managed") || has_str(&c, "host aware") || has_str(&c, "Zoned") {
                return Ok(true);
            }
        }
        if let Some(s) = smartctl {
            let c = chars_of(s);
            if has_str(&c, "Shingled") || has_str(&c, "SMR") || has_str(&c, "Host Managed") || has_str(
                &c,
                "Host Aware",
            ) {
                return Ok(true);
            }
        }
        if let Some(s) = sysfs_zoned_text {
            let c = chars_of(s);
            let t = trim_exec(&c);
            let hm = chars_of("host-managed");
            let ha = chars_of("host-aware");
            return Ok(crate::text::chars_eq(&t, &hm) || crate::text::chars_eq(&t, &ha));
        }
        Ok(false)
    }

    /// The zone model that sysfs gives; drive-managed where it gives none.
    pub fn detect_zone_model(sysfs_zoned_text: Option<&str>) -> (m: ZoneModel)
        ensures
            m == match sysfs_zoned_text {
                Some(s) => if trim(s@) == "host-managed"@ {
                    ZoneModel::HostManaged
                } else if trim(s@) == "host-aware"@ {
                    ZoneModel::HostAware
                } else {
                    ZoneModel::DriveManaged
                },
                None => ZoneModel::DriveManaged,
            },
    {
        match sysfs_zoned_text {
            None => ZoneModel::DriveManaged,
            Some(s) => {
                let c = chars_of(s);
                let t = trim_exec(&c);
                let hm = chars_of("host-managed");
                let ha = chars_of("host-aware");
                if crate::text::chars_eq(&t, &hm) {
                    ZoneModel::HostManaged
                } else if crate::text::chars_eq(&t, &ha) {
                    ZoneModel::HostAware
                } else {
                    ZoneModel::DriveManaged
                }
            },
        }
    }

    /// The zones that `sg_rep_zones` reports: one for each `Zone type:` line.
    pub fn parse_sg_rep_zones_output(output: &str) -> (z: Vec<Zone>)
        requires
            lines(output@).len() <= u32::MAX,
        ensures
            zones_reported(z@, lines(output@), "Zone type:"@, "SEQUENTIAL_WRITE_REQUIRED"@),
    {
        parse_zone_report(output, "Zone type:", "SEQUENTIAL_WRITE_REQUIRED")
    }

    /// The zones that `blkzone report` reports: one for each `start:` line.
    pub fn parse_blkzone_output(output: &str) -> (z: Vec<Zone>)
        requires
            lines(output@).len() <= u32::MAX,
        ensures
            zones_reported(z@, lines(output@), "start:"@, "SEQ_WRITE_REQUIRED"@),
    {
        parse_zone_report(output, "start:", "SEQ_WRITE_REQUIRED")
    }

    /// An SMR drive from its zones: refused without zones; the counts of
    /// conventional and other zones, the first zone's size, the total size.
    pub fn get_zone_configuration(device_path: &str, zone_model: ZoneModel, zones: Vec<Zone>) -> (r:
        DriveResult<SMRDrive>)
        requires
            zones_size(zones@) <= u64::MAX,
            zones@.len() <= u32::MAX,
        ensures
            zones@.len() == 0 ==> (r matches Err(DriveError::HardwareCommandFailed(m)) && m@
                == "No zones found on device"@),
            zones@.len() > 0 ==> (r matches Ok(d) && d.device_path@ == device_path@ && d.zone_model
                == zone_model && d.zones@ == zones@ && d.total_capacity == zones_size(zones@)
                && d.conventional_zone_count == conventional_count(zones@)
                && d.sequential_zone_count == zones@.len() - conventional_count(zones@)
                && d.typical_zone_size == zones@[0].zone_size),
    {
        if zones.len() == 0 {
            return Err(DriveError::HardwareCommandFailed("No zones found on device".to_string()));
        }
        let mut conventional: u32 = 0;
        let mut total: u64 = 0;
        let mut i: usize = 0;
        assert(zones@.take(0) =~= Seq::<Zone>::empty());
        while i < zones.len()
            invariant
                i <= zones@.len(),
                zones@.len() <= u32::MAX,
                zones_size(zones@) <= u64::MAX,
                conventional as nat == conventional_count(zones@.take(i as int)),
                total as nat == zones_size(zones@.take(i as int)),
            decreases zones@.len() - i,
        {
            proof {
                assert(zones@.take(i + 1).drop_last() =~= zones@.take(i as int));
                lemma_conventional_count_bound(zones@.take(i + 1));
                lemma_zones_size_prefix(zones@, i + 1);
            }
            if zones[i].zone_type == ZoneType::Conventional {
                conventional += 1;
            }
            total = total + zones[i].zone_size;
            i += 1;
        }
        assert(zones@.take(i as int) =~= zones@);
        proof {
            lemma_conventional_count_bound(zones@);
        }
        let sequential: u32 = (zones.len() as u32) - conventional;
        let typical = zones[0].zone_size;
        Ok(
            SMRDrive {
                device_path: device_path.to_string(),
                zone_model,
                zones,
                total_capacity: total,
                conventional_zone_count: conventional,
                sequential_zone_count: sequential,
                typical_zone_size: typical,
            },
        )
    }

    /// What resetting zone `zone_number` takes: refused, naming the number,
    /// for a number past the zones; nothing for a conventional zone; else the
    /// reset of the zone that starts at the returned LBA.
    pub fn reset_zone(&self, zone_number: u32) -> (r: DriveResult<Option<u64>>)
        ensures
            zone_number >= self.zones@.len() ==> (r matches Err(
                DriveError::HardwareCommandFailed(m),
            ) && m@ == "Invalid zone number: "@ + decimal(zone_number as nat)),
            zone_number < self.zones@.len() ==> r == Ok::<Option<u64>, DriveError>(
                if self.zones@[zone_number as int].zone_type == ZoneType::Conventional {
                    None
                } else {
                    Some(self.zones@[zone_number as int].zone_start_lba)
                },
            ),
    {
        if zone_number as usize >= self.zones.len() {
            let mut m: Vec<char> = Vec::new();
            push_str(&mut m, "Invalid zone number: ");
            let mut d = decimal_exec(zone_number as u64);
            m.append(&mut d);
            return Err(DriveError::HardwareCommandFailed(string_from_chars(&m)));
        }
        let zone = &self.zones[zone_number as usize];
        if zone.zone_type == ZoneType::Conventional {
            return Ok(None);
        }
        Ok(Some(zone.zone_start_lba))
    }
}

proof fn lemma_zones_size_prefix(z: Seq<Zone>, k: int)
    requires
        0 <= k <= z.len(),
    ensures
        zones_size(z.take(k)) <= zones_size(z),
    decreases z.len(),
{
    if k < z.len() {
        assert(z.drop_last().take(k) =~= z.take(k));
        lemma_zones_size_prefix(z.drop_last(), k);
    } else {
        assert(z.take(k) =~= z);
    }
}

// ---------------------------------------------------------------------------
// RAID
// ---------------------------------------------------------------------------

/// How an array is built.
#[derive(Debug, Clone, Copy, PartialEq, Eq, Structural)]
pub enum RAIDType {
    /// Linux mdadm.
    SoftwareRAID,
    /// A RAID controller.
    HardwareRAID,
    /// BIOS or firmware RAID.
    FakeRAID,
}

/// RAID controllers.
#[derive(Debug, Clone, Copy, PartialEq, Eq, Structural)]
pub enum RAIDController {
    DellPERC,
    HPSmartArray,
    IntelRST,
    LSIMegaRAID,
    Adaptec,
    Generic,
}

/// Where array metadata lies on a member.
#[derive(Debug, Clone, Copy, PartialEq, Eq, Structural)]
pub enum MetadataLocation {
    Start,
    End,
    Both,
}

/// A region of array metadata.
#[derive(Debug, Clone, Copy)]
pub struct MetadataRegion {
    pub location: MetadataLocation,
    pub offset: u64,
    pub size: u64,
}

/// A RAID member and its array.
#[derive(Debug, Clone)]
pub struct RAIDArray {
    pub device_path: String,
    pub raid_type: RAIDType,
    pub member_drives: Vec<String>,
    pub metadata_locations: Vec<MetadataRegion>,
    pub controller: Option<RAIDController>,
    pub is_active: bool,
}

/// What `sg_inq` says of a RAID controller.
pub open spec fn sg_inq_raid(s: Seq<char>) -> bool {
    contains(s, "RAID"@) || contains(s, "PERC"@) || contains(s, "SmartArray"@)
}

fn sg_inq_raid_exec(s: &str) -> (b: bool)
    ensures
        b == sg_inq_raid(s@),
{
    let c = chars_of(s);
    has_str(&c, "RAID") || has_str(&c, "PERC") || has_str(&c, "SmartArray")
}

impl RAIDArray {
    /// Whether a drive belongs to an array: `mdadm --examine` succeeded on
    /// it, or `sg_inq` names a RAID controller.
    pub fn detect_raid_membership(mdadm_examine_ok: bool, sg_inq: Option<&str>) -> (r: DriveResult<bool>)
        ensures
            r == Ok::<bool, DriveError>(mdadm_examine_ok || (sg_inq matches Some(s) && sg_inq_raid(s@))),
    {
        if mdadm_examine_ok {
            return Ok(true);
        }
        if let Some(s) = sg_inq {
            if sg_inq_raid_exec(s) {
                return Ok(true);
            }
        }
        Ok(false)
    }

    /// The array a member belongs to: software RAID where mdadm knows it,
    /// hardware RAID where `sg_inq` names a controller, else firmware RAID;
    /// software RAID keeps 4 KiB of metadata at the end. Members, controller
    /// and activity are not read.
    pub fn get_configuration(device_path: &str, mdadm_examine_ok: bool, sg_inq: Option<&str>) -> (r:
        DriveResult<RAIDArray>)
        ensures
            r matches Ok(a) && a.device_path@ == device_path@ && a.raid_type == (if mdadm_examine_ok {
                RAIDType::SoftwareRAID
            } else if sg_inq matches Some(s) && sg_inq_raid(s@) {
                RAIDType::HardwareRAID
            } else {
                RAIDType::FakeRAID
            }) && a.member_drives@.len() == 0 && a.controller is None && !a.is_active && (if a.raid_type
                == RAIDType::SoftwareRAID {
                a.metadata_locations@.len() == 1 && a.metadata_locations@[0].location
                    == MetadataLocation::End && a.metadata_locations@[0].offset == 0
                    && a.metadata_locations@[0].size == 4096
            } else {
                a.metadata_locations@.len() == 0
            }),
    {
        let raid_type = if mdadm_examine_ok {
            RAIDType::SoftwareRAID
        } else if match sg_inq {
            Some(s) => sg_inq_raid_exec(s),
            None => false,
        } {
            RAIDType::HardwareRAID
        } else {
            RAIDType::FakeRAID
        };
        let mut metadata_locations: Vec<MetadataRegion> = Vec::new();
        if raid_type == RAIDType::SoftwareRAID {
            metadata_locations.push(MetadataRegion { location: MetadataLocation::End, offset: 0, size: 4096 });
        }
        Ok(
            RAIDArray {
                device_path: device_path.to_string(),
                raid_type,
                member_drives: Vec::new(),
                metadata_locations,
                controller: None,
                is_active: false,
            },
        )
    }

    /// An array member may be wiped when its array is not active.
    pub fn safe_to_wipe(&self) -> (r: DriveResult<bool>)
        ensures
            r == Ok::<bool, DriveError>(!self.is_active),
    {
        if self.is_active {
            return Ok(false);
        }
        Ok(true)
    }
}

} // verus!
