//! SMART health: the attribute table that `smartctl` prints for ATA drives,
//! the health logs of NVMe drives, and what the readings say about a drive.
use vstd::prelude::*;

use crate::text::{
    char_numeric, chars_of, chars_eq, contains, digit_value, find_char, find_char_exec,
    find_sub, has_str, is_numeric, parse_u64, parse_u64_exec, parse_uint, parse_uint_exec,
    starts_with, starts_with_str, subvec, trim, trim_exec, without, without_exec, words,
    split_words, views, lowercase, to_lowercase, string_from_chars, decimal, decimal_exec,
    push_str, find_exec, opt64, opt32, lemma_find_sub_bounds, lemma_find_char, matches_at,
    lemma_words_nonempty, is_ws, split_lines, lines,
};
use crate::{DriveError, DriveResult, HealthStatus};

verus! {

broadcast use vstd::string::group_string_axioms;

// ---------------------------------------------------------------------------
// Types
// ---------------------------------------------------------------------------

/// One row of the ATA attribute table.
#[derive(Debug, Clone)]
pub struct SMARTAttribute {
    pub id: u8,
    pub name: String,
    pub current: u8,
    pub worst: u8,
    pub threshold: u8,
    pub raw_value: u64,
    pub flags: String,
    pub failing_now: bool,
    pub failed_before: bool,
}

/// Attributes keyed by name; a name occurs once, and inserting under a name
/// that is present replaces its attribute.
#[derive(Debug, Clone)]
pub struct AttributeTable {
    entries: Vec<(String, SMARTAttribute)>,
}

/// The names of the entries, in order.
pub open spec fn entry_keys(s: Seq<(String, SMARTAttribute)>) -> Seq<Seq<char>> {
    s.map_values(|e: (String, SMARTAttribute)| e.0@)
}

/// The attribute of the last entry named `k`.
pub open spec fn entry_lookup(s: Seq<(String, SMARTAttribute)>, k: Seq<char>) -> SMARTAttribute
    decreases s.len(),
{
    if s.len() == 0 {
        arbitrary()
    } else if s.last().0@ == k {
        s.last().1
    } else {
        entry_lookup(s.drop_last(), k)
    }
}

proof fn lemma_lookup_update(s: Seq<(String, SMARTAttribute)>, i: int, e: (String, SMARTAttribute), x: Seq<char>)
    requires
        0 <= i < s.len(),
        e.0@ == s[i].0@,
        entry_keys(s).no_duplicates(),
    ensures
        x != e.0@ ==> entry_lookup(s.update(i, e), x) == entry_lookup(s, x),
        x == e.0@ ==> entry_lookup(s.update(i, e), x) == e.1,
    decreases s.len(),
{
    let t = s.update(i, e);
    if i == s.len() - 1 {
        assert(t.drop_last() =~= s.drop_last());
    } else {
        assert(t.drop_last() =~= s.drop_last().update(i, e));
        assert(entry_keys(s.drop_last()) =~= entry_keys(s).drop_last());
        assert(entry_keys(s)[i] == s[i].0@);
        assert(entry_keys(s)[s.len() - 1] == s.last().0@);
        lemma_lookup_update(s.drop_last(), i, e, x);
    }
}

impl View for AttributeTable {
    type V = Map<Seq<char>, SMARTAttribute>;

    closed spec fn view(&self) -> Map<Seq<char>, SMARTAttribute> {
        Map::new(
            |k: Seq<char>| entry_keys(self.entries@).contains(k),
            |k: Seq<char>| entry_lookup(self.entries@, k),
        )
    }
}

impl AttributeTable {
    /// No name occurs twice.
    pub closed spec fn wf(&self) -> bool {
        entry_keys(self.entries@).no_duplicates()
    }

    /// An empty table.
    pub fn new() -> (t: AttributeTable)
        ensures
            t.wf(),
            t@ == Map::<Seq<char>, SMARTAttribute>::empty(),
    {
        let t = AttributeTable { entries: Vec::new() };
        assert(t@ =~= Map::<Seq<char>, SMARTAttribute>::empty());
        t
    }

    /// The number of names in the table.
    pub fn len(&self) -> (n: usize)
        requires
            self.wf(),
        ensures
            n == self@.len(),
    {
        proof {
            let ks = entry_keys(self.entries@);
            ks.unique_seq_to_set();
            assert(self@.dom() =~= ks.to_set());
        }
        self.entries.len()
    }

    fn position(&self, key: &String) -> (r: Option<usize>)
        ensures
            r matches Some(i) ==> i < self.entries@.len() && self.entries@[i as int].0@ == key@,
            r is Some <==> entry_keys(self.entries@).contains(key@),
    {
        let mut i: usize = 0;
        while i < self.entries.len()
            invariant
                i <= self.entries@.len(),
                forall|j: int| 0 <= j < i ==> self.entries@[j].0@ != key@,
            decreases self.entries@.len() - i,
        {
            if self.entries[i].0 == *key {
                assert(entry_keys(self.entries@)[i as int] == key@);
                return Some(i);
            }
            i += 1;
        }
        proof {
            if entry_keys(self.entries@).contains(key@) {
                let j = choose|j: int|
                    0 <= j < entry_keys(self.entries@).len() && entry_keys(self.entries@)[j] == key@;
                assert(self.entries@[j].0@ == key@);
            }
        }
        None
    }

    /// Whether an attribute is stored under `key`.
    pub fn contains_key(&self, key: &str) -> (b: bool)
        ensures
            b == self@.dom().contains(key@),
    {
        let k = key.to_owned();
        self.position(&k).is_some()
    }

    /// The attribute stored under `key`.
    pub fn get(&self, key: &str) -> (r: Option<&SMARTAttribute>)
        requires
            self.wf(),
        ensures
            r matches Some(a) ==> self@.dom().contains(key@) && *a == self@[key@],
            r is None ==> !self@.dom().contains(key@),
    {
        let k = key.to_owned();
        match self.position(&k) {
            Some(i) => {
                proof {
                    lemma_lookup_update(self.entries@, i as int, self.entries@[i as int], key@);
                    assert(self.entries@.update(i as int, self.entries@[i as int]) =~= self.entries@);
                }
                Some(&self.entries[i].1)
            },
            None => None,
        }
    }

    /// Stores `value` under `key`, replacing what was stored there; gives back
    /// the replaced attribute.
    pub fn insert(&mut self, key: String, value: SMARTAttribute) -> (r: Option<SMARTAttribute>)
        requires
            old(self).wf(),
        ensures
            final(self).wf(),
            final(self)@ == old(self)@.insert(key@, value),
            old(self)@.dom().contains(key@) ==> r == Some(old(self)@[key@]),
            !old(self)@.dom().contains(key@) ==> r is None,
    {
        let ghost old_entries = self.entries@;
        match self.position(&key) {
            Some(i) => {
                let ghost e = (key, value);
                let removed = self.entries.remove(i);
                self.entries.insert(i, (key, value));
                proof {
                    assert(self.entries@ =~= old_entries.update(i as int, e));
                    lemma_lookup_update(old_entries, i as int, old_entries[i as int], key@);
                    assert(old_entries.update(i as int, old_entries[i as int]) =~= old_entries);
                    assert(entry_keys(self.entries@) =~= entry_keys(old_entries).update(i as int, e.0@));
                    assert(entry_keys(old_entries)[i as int] == e.0@);
                    assert(entry_keys(self.entries@) =~= entry_keys(old_entries));
                    assert forall|x: Seq<char>| #![trigger entry_lookup(self.entries@, x)]
                        entry_lookup(self.entries@, x) == (if x == e.0@ {
                            e.1
                        } else {
                            entry_lookup(old_entries, x)
                        }) by {
                        lemma_lookup_update(old_entries, i as int, e, x);
                    }
                    assert(self@ =~= old(self)@.insert(e.0@, e.1));
                }
                Some(removed.1)
            },
            None => {
                let ghost e = (key, value);
                self.entries.push((key, value));
                proof {
                    assert(entry_keys(self.entries@) =~= entry_keys(old_entries).push(e.0@));
                    assert(self.entries@.drop_last() =~= old_entries);
                    assert(self.entries@.last() == e);
                    assert forall|x: Seq<char>|
                        #![trigger entry_keys(self.entries@).contains(x)]
                        entry_keys(self.entries@).contains(x) == (entry_keys(old_entries).contains(x)
                            || x == e.0@) by {
                        if x == e.0@ {
                            assert(entry_keys(self.entries@)[old_entries.len() as int] == x);
                        }
                        if entry_keys(old_entries).contains(x) {
                            let j = choose|j: int| 0 <= j < entry_keys(old_entries).len() && entry_keys(old_entries)[j] == x;
                            assert(entry_keys(self.entries@)[j] == x);
                        }
                    }
                    assert(self@ =~= old(self)@.insert(e.0@, e.1));
                }
                None
            },
        }
    }
}

/// The health report of a drive.
#[derive(Debug, Clone)]
pub struct SMARTHealth {
    pub overall_health: HealthStatus,
    pub temperature_celsius: Option<u32>,
    pub power_on_hours: Option<u64>,
    pub power_cycle_count: Option<u64>,
    pub reallocated_sectors: Option<u64>,
    pub pending_sectors: Option<u64>,
    pub uncorrectable_errors: Option<u64>,
    pub wear_level: Option<u8>,
    pub bad_block_count: Option<u64>,
    pub erase_fail_count: Option<u64>,
    pub program_fail_count: Option<u64>,
    pub critical_warning: Option<u8>,
    pub available_spare: Option<u8>,
    pub media_errors: Option<u64>,
    pub attributes: AttributeTable,
}

/// The readings of a health report, without its verdict and attribute table.
pub struct HealthReadings {
    pub temperature_celsius: Option<u32>,
    pub power_on_hours: Option<u64>,
    pub power_cycle_count: Option<u64>,
    pub reallocated_sectors: Option<u64>,
    pub pending_sectors: Option<u64>,
    pub uncorrectable_errors: Option<u64>,
    pub wear_level: Option<u8>,
    pub bad_block_count: Option<u64>,
    pub erase_fail_count: Option<u64>,
    pub program_fail_count: Option<u64>,
    pub critical_warning: Option<u8>,
    pub available_spare: Option<u8>,
    pub media_errors: Option<u64>,
}

/// No reading at all.
pub open spec fn no_readings() -> HealthReadings {
    HealthReadings {
        temperature_celsius: None,
        power_on_hours: None,
        power_cycle_count: None,
        reallocated_sectors: None,
        pending_sectors: None,
        uncorrectable_errors: None,
        wear_level: None,
        bad_block_count: None,
        erase_fail_count: None,
        program_fail_count: None,
        critical_warning: None,
        available_spare: None,
        media_errors: None,
    }
}

impl SMARTHealth {
    /// The readings of this report.
    pub open spec fn readings(&self) -> HealthReadings {
        HealthReadings {
            temperature_celsius: self.temperature_celsius,
            power_on_hours: self.power_on_hours,
            power_cycle_count: self.power_cycle_count,
            reallocated_sectors: self.reallocated_sectors,
            pending_sectors: self.pending_sectors,
            uncorrectable_errors: self.uncorrectable_errors,
            wear_level: self.wear_level,
            bad_block_count: self.bad_block_count,
            erase_fail_count: self.erase_fail_count,
            program_fail_count: self.program_fail_count,
            critical_warning: self.critical_warning,
            available_spare: self.available_spare,
            media_errors: self.media_errors,
        }
    }
}

/// `o` holds a value above `t`.
pub open spec fn above(o: Option<u64>, t: nat) -> bool {
    o is Some && o->0 > t
}

/// A finding that makes a drive critical: more than 100 reallocated sectors,
/// any uncorrectable error, wear above 90, spare capacity below 10, or a
/// temperature above 70 degrees.
pub open spec fn critical_finding(r: HealthReadings) -> bool {
    ||| above(r.reallocated_sectors, 100)
    ||| above(r.uncorrectable_errors, 0)
    ||| (r.wear_level is Some && r.wear_level->0 > 90)
    ||| (r.available_spare is Some && r.available_spare->0 < 10)
    ||| (r.temperature_celsius is Some && r.temperature_celsius->0 > 70)
}

/// A finding that calls for a warning: more than 10 reallocated sectors, any
/// pending sector, wear above 80, spare capacity below 20, a set NVMe
/// critical-warning byte, or a temperature above 60 degrees.
pub open spec fn warning_finding(r: HealthReadings) -> bool {
    ||| above(r.reallocated_sectors, 10)
    ||| above(r.pending_sectors, 0)
    ||| (r.wear_level is Some && r.wear_level->0 > 80)
    ||| (r.available_spare is Some && r.available_spare->0 < 20)
    ||| (r.critical_warning is Some && r.critical_warning->0 > 0)
    ||| (r.temperature_celsius is Some && r.temperature_celsius->0 > 60)
}

/// The verdict on a set of readings: critical where any critical finding
/// applies, whatever the warnings; else a warning where any warning finding
/// applies; else good.
pub open spec fn status_for(r: HealthReadings) -> HealthStatus {
    if critical_finding(r) {
        HealthStatus::Critical
    } else if warning_finding(r) {
        HealthStatus::Warning
    } else {
        HealthStatus::Good
    }
}

/// Temperature thresholds for a drive.
#[derive(Debug, Clone)]
pub struct TemperatureMonitor {
    pub current_celsius: u32,
    pub max_operating: u32,
    pub critical_threshold: u32,
    pub warning_threshold: u32,
}

/// The kinds of SMART self-test.
#[derive(Debug, Clone, Copy, PartialEq, Eq, Structural)]
pub enum SelfTestType {
    Short,
    Extended,
    Conveyance,
}

/// The outcome of the latest SMART self-test.
#[derive(Debug, Clone)]
pub enum SelfTestResult {
    Passed,
    Failed(String),
    InProgress(u8),
    NotRun,
}

/// How likely a drive is to fail soon.
#[derive(Debug, Clone, Copy, PartialEq, Eq, Structural)]
pub enum RiskLevel {
    NoRisk,
    Low,
    Medium,
    High,
    Critical,
}

/// A failure prediction drawn from a health report.
#[derive(Debug, Clone)]
pub struct FailurePrediction {
    pub risk_level: RiskLevel,
    pub risk_score: u8,
    pub estimated_days_remaining: Option<u32>,
    pub failure_indicators: Vec<String>,
    pub recommendation: String,
}

/// The SMART operations.
pub struct SMARTMonitor;

// ---------------------------------------------------------------------------
// Spec of the small parsers
// ---------------------------------------------------------------------------

/// The temperature in degrees Celsius that a raw reading stands for: 273..=373
/// is read as Kelvin, 101..=212 as Fahrenheit, 0..=100 as Celsius; anything
/// else, or a result above 100, is no temperature.
pub open spec fn robust_temperature(v: nat) -> Option<nat> {
    let c: int = if 273 <= v <= 373 {
        v - 273
    } else if 32 <= v <= 212 && v > 100 {
        ((v - 32) * 5) / 9
    } else if v <= 100 {
        v as int
    } else {
        -1
    };
    if c < 0 || c > 100 {
        None
    } else {
        Some(c as nat)
    }
}

/// A raw attribute value: a decimal number; else `0x` and hex digits; else a
/// decimal number before the first space; else 0.
pub open spec fn raw_value_of(s: Seq<char>) -> nat {
    if parse_u64(s) is Some {
        parse_u64(s)->0
    } else if starts_with(s, "0x"@) && parse_uint(s.skip(2), 16, u64::MAX as nat) is Some {
        parse_uint(s.skip(2), 16, u64::MAX as nat)->0
    } else if find_char(s, ' ') >= 0 && parse_u64(s.take(find_char(s, ' '))) is Some {
        parse_u64(s.take(find_char(s, ' ')))->0
    } else {
        0
    }
}

/// The number in the last word that reads as a `u64` once its commas are
/// dropped.
pub open spec fn last_number(ws: Seq<Seq<char>>) -> Option<nat>
    decreases ws.len(),
{
    if ws.len() == 0 {
        None
    } else if parse_u64(without(ws.last(), ',')) is Some {
        parse_u64(without(ws.last(), ','))
    } else {
        last_number(ws.drop_last())
    }
}

/// An ASCII hexadecimal digit.
pub open spec fn is_hex(c: char) -> bool {
    digit_value(c) < 16
}

/// The length of the run of hex digits at the start of `s`.
pub open spec fn hex_run(s: Seq<char>) -> nat
    decreases s.len(),
{
    if s.len() > 0 && is_hex(s[0]) {
        1 + hex_run(s.drop_first())
    } else {
        0
    }
}

/// The hex number after the first `0x` of `s`.
pub open spec fn hex_after_prefix(s: Seq<char>) -> Option<nat> {
    let i = find_sub(s, "0x"@);
    if i < 0 {
        None
    } else {
        let t = s.skip(i + 2);
        parse_uint(t.take(hex_run(t) as int), 16, u64::MAX as nat)
    }
}

/// The index of the last character of `s` that is not numeric, or -1.
pub open spec fn last_non_numeric(s: Seq<char>) -> int
    decreases s.len(),
{
    if s.len() == 0 {
        -1
    } else if !char_numeric(s.last()) {
        s.len() - 1
    } else {
        last_non_numeric(s.drop_last())
    }
}

/// The numeric run that ends at the first `%` of `s`, read as a `u64`.
pub open spec fn percentage_in(s: Seq<char>) -> Option<nat> {
    let p = find_char(s, '%');
    if p < 0 {
        None
    } else {
        let b = s.take(p);
        parse_u64(b.skip(last_non_numeric(b) + 1))
    }
}

/// The cut before the numeric run that ends at the first `%` falls on a
/// character boundary: the character before the run is ASCII, or there is none.
pub open spec fn percentage_cut_ok(s: Seq<char>) -> bool {
    let p = find_char(s, '%');
    p < 0 || {
        let b = s.take(p);
        let j = last_non_numeric(b);
        j < 0 || (b[j] as u32) < 128
    }
}

/// A word that names the Celsius unit.
pub open spec fn celsius_word(w: Seq<char>) -> bool {
    contains(lowercase(w), "celsius"@) || lowercase(w) == "c"@
}

/// The first word `i` that reads as a `u32` and is followed by a Celsius word.
pub open spec fn temperature_from(ws: Seq<Seq<char>>, i: int) -> Option<nat>
    decreases ws.len() - i,
{
    if i < 0 || i + 1 >= ws.len() {
        None
    } else if parse_uint(ws[i], 10, u32::MAX as nat) is Some && celsius_word(ws[i + 1]) {
        parse_uint(ws[i], 10, u32::MAX as nat)
    } else {
        temperature_from(ws, i + 1)
    }
}

/// The length of the run of numeric characters and commas at the start of `s`.
pub open spec fn number_run(s: Seq<char>) -> nat
    decreases s.len(),
{
    if s.len() > 0 && (char_numeric(s[0]) || s[0] == ',') {
        1 + number_run(s.drop_first())
    } else {
        0
    }
}

/// The number after the first `:` of `s`.
pub open spec fn number_after_colon(s: Seq<char>) -> Option<nat> {
    let c = find_char(s, ':');
    if c < 0 {
        None
    } else {
        let a = trim(s.skip(c + 1));
        parse_u64(without(a.take(number_run(a) as int), ','))
    }
}

/// The percentage after the first `:` of `s`.
pub open spec fn percentage_after_colon(s: Seq<char>) -> Option<nat> {
    let c = find_char(s, ':');
    if c < 0 {
        None
    } else {
        let a = trim(s.skip(c + 1));
        let p = find_char(a, '%');
        if p < 0 {
            None
        } else {
            parse_u64(trim(a.take(p)))
        }
    }
}


// ---------------------------------------------------------------------------
// The small parsers
// ---------------------------------------------------------------------------

fn hex_run_exec(t: &Vec<char>) -> (n: usize)
    ensures
        n == hex_run(t@),
        n <= t@.len(),
{
    let mut i: usize = 0;
    while i < t.len() && crate::text::char_digit_value(t[i]) < 16
        invariant
            i <= t@.len(),
            forall|k: int| 0 <= k < i ==> is_hex(t@[k]),
        decreases t@.len() - i,
    {
        i += 1;
    }
    proof {
        lemma_hex_run(t@, i as int);
    }
    i
}

proof fn lemma_hex_run(s: Seq<char>, k: int)
    requires
        0 <= k <= s.len(),
        forall|j: int| 0 <= j < k ==> is_hex(s[j]),
        k < s.len() ==> !is_hex(s[k]),
    ensures
        hex_run(s) == k,
    decreases s.len(),
{
    if k > 0 {
        assert forall|j: int| 0 <= j < k - 1 implies is_hex(s.drop_first()[j]) by {
            assert(s.drop_first()[j] == s[j + 1]);
        }
        lemma_hex_run(s.drop_first(), k - 1);
    }
}

proof fn lemma_last_non_numeric(s: Seq<char>)
    ensures
        -1 <= last_non_numeric(s) < s.len(),
    decreases s.len(),
{
    if s.len() > 0 && char_numeric(s.last()) {
        lemma_last_non_numeric(s.drop_last());
    }
}

fn last_non_numeric_exec(b: &Vec<char>) -> (r: Option<usize>)
    ensures
        r matches Some(j) ==> last_non_numeric(b@) == j && j < b@.len(),
        r is None ==> last_non_numeric(b@) == -1,
{
    let mut i: usize = b.len();
    assert(b@.take(i as int) =~= b@);
    while i > 0
        invariant
            i <= b@.len(),
            last_non_numeric(b@) == last_non_numeric(b@.take(i as int)),
        decreases i,
    {
        assert(b@.take(i as int).drop_last() =~= b@.take(i - 1));
        if !is_numeric(b[i - 1]) {
            assert(b@.take(i as int).last() == b@[i - 1]);
            return Some(i - 1);
        }
        i -= 1;
    }
    None
}

fn number_run_exec(a: &Vec<char>) -> (n: usize)
    ensures
        n == number_run(a@),
        n <= a@.len(),
{
    let mut i: usize = 0;
    assert(a@.skip(0) =~= a@);
    while i < a.len() && (is_numeric(a[i]) || a[i] == ',')
        invariant
            i <= a@.len(),
            number_run(a@) == i + number_run(a@.skip(i as int)),
        decreases a@.len() - i,
    {
        assert(a@.skip(i as int).drop_first() =~= a@.skip(i + 1));
        i += 1;
    }
    proof {
        assert(a@.skip(0) =~= a@);
    }
    i
}

impl SMARTMonitor {
    /// Reads a temperature whose unit is not stated: see `robust_temperature`.
    pub fn parse_temperature_robust(value: u64, context: &str) -> (r: Option<u32>)
        ensures
            opt32(r) == robust_temperature(value as nat),
    {
        let temp_celsius: u64 = if value >= 273 && value <= 373 {
            value - 273
        } else if value >= 32 && value <= 212 && value > 100 {
            ((value - 32) * 5) / 9
        } else if value <= 100 {
            value
        } else {
            return None;
        };
        if temp_celsius > 100 {
            return None;
        }
        Some(temp_celsius as u32)
    }

    /// The verdict on the readings of a report (`status_for`).
    pub fn determine_health_status(health: &SMARTHealth) -> (s: HealthStatus)
        ensures
            s == status_for(health.readings()),
    {
        let critical = match health.reallocated_sectors {
            Some(n) => n > 100,
            None => false,
        } || match health.uncorrectable_errors {
            Some(n) => n > 0,
            None => false,
        } || match health.wear_level {
            Some(w) => w > 90,
            None => false,
        } || match health.available_spare {
            Some(sp) => sp < 10,
            None => false,
        } || match health.temperature_celsius {
            Some(t) => t > 70,
            None => false,
        };
        if critical {
            return HealthStatus::Critical;
        }
        let warning = match health.reallocated_sectors {
            Some(n) => n > 10,
            None => false,
        } || match health.pending_sectors {
            Some(n) => n > 0,
            None => false,
        } || match health.wear_level {
            Some(w) => w > 80,
            None => false,
        } || match health.available_spare {
            Some(sp) => sp < 20,
            None => false,
        } || match health.critical_warning {
            Some(c) => c > 0,
            None => false,
        } || match health.temperature_celsius {
            Some(t) => t > 60,
            None => false,
        };
        if warning {
            HealthStatus::Warning
        } else {
            HealthStatus::Good
        }
    }

    fn raw_value_chars(s: &Vec<char>) -> (v: u64)
        ensures
            v == raw_value_of(s@),
    {
        if let Some(val) = parse_u64_exec(s) {
            return val;
        }
        proof {
            reveal_strlit("0x");
        }
        if starts_with_str(s, "0x") {
            let rest = subvec(s, 2, s.len());
            assert(rest@ =~= s@.skip(2));
            if let Some(val) = parse_uint_exec(&rest, 16, u64::MAX) {
                return val;
            }
        }
        proof {
            lemma_find_char(s@, ' ');
        }
        if let Some(space_pos) = find_char_exec(s, ' ') {
            let head = subvec(s, 0, space_pos);
            assert(head@ =~= s@.take(space_pos as int));
            if let Some(val) = parse_u64_exec(&head) {
                return val;
            }
        }
        0
    }

    /// A raw attribute value (`raw_value_of`).
    pub fn parse_raw_value(raw_str: &str) -> (v: u64)
        ensures
            v == raw_value_of(raw_str@),
    {
        let s = chars_of(raw_str);
        Self::raw_value_chars(&s)
    }

    /// The number in the last word of `line` that reads as a number once its
    /// commas are dropped.
    pub fn extract_number(line: &str) -> (r: Option<u64>)
        ensures
            opt64(r) == last_number(words(line@)),
    {
        let cs = chars_of(line);
        let ws = split_words(&cs);
        let mut i: usize = ws.len();
        assert(views(ws@).take(i as int) =~= views(ws@));
        while i > 0
            invariant
                i <= ws@.len(),
                views(ws@) == words(line@),
                last_number(views(ws@)) == last_number(views(ws@).take(i as int)),
            decreases i,
        {
            assert(views(ws@).take(i as int).drop_last() =~= views(ws@).take(i - 1));
            assert(views(ws@).take(i as int).last() == ws@[i - 1]@);
            let w = without_exec(&ws[i - 1], ',');
            if let Some(n) = parse_u64_exec(&w) {
                return Some(n);
            }
            i -= 1;
        }
        None
    }

    /// The hex number after the first `0x` of `line`.
    pub fn extract_hex_value(line: &str) -> (r: Option<u64>)
        ensures
            opt64(r) == hex_after_prefix(line@),
    {
        let cs = chars_of(line);
        let prefix = chars_of("0x");
        proof {
            reveal_strlit("0x");
            lemma_find_sub_bounds(cs@, prefix@);
        }
        match find_exec(&cs, &prefix) {
            None => None,
            Some(i) => {
                let len = cs.len();
                assert(matches_at(cs@, prefix@, i as int));
                assert(prefix@.len() == 2);
                assert(i + 2 <= len);
                let start = i + 2;
                let t = subvec(&cs, start, len);
                assert(t@ =~= cs@.skip(i + 2));
                let n = hex_run_exec(&t);
                let digits = subvec(&t, 0, n);
                assert(digits@ =~= t@.take(n as int));
                parse_uint_exec(&digits, 16, u64::MAX)
            },
        }
    }

    /// The number that ends at the first `%` of `line`.
    pub fn extract_percentage(line: &str) -> (r: Option<u64>)
        requires
            percentage_cut_ok(line@),
        ensures
            opt64(r) == percentage_in(line@),
    {
        let cs = chars_of(line);
        match find_char_exec(&cs, '%') {
            None => None,
            Some(p) => {
                proof {
                    lemma_find_char(cs@, '%');
                }
                let before = subvec(&cs, 0, p);
                assert(before@ =~= cs@.take(p as int));
                let start: usize = match last_non_numeric_exec(&before) {
                    Some(j) => j + 1,
                    None => 0,
                };
                let digits = subvec(&before, start, before.len());
                assert(digits@ =~= before@.skip(start as int));
                parse_u64_exec(&digits)
            },
        }
    }

    /// The first number of `line` followed by a word naming degrees Celsius.
    pub fn extract_temperature(line: &str) -> (r: Option<u32>)
        requires
            words(line@).len() > 0,
        ensures
            opt32(r) == temperature_from(words(line@), 0),
    {
        let cs = chars_of(line);
        let parts = split_words(&cs);
        let ghost ws = views(parts@);
        let mut i: usize = 0;
        while i < parts.len() - 1
            invariant
                ws == views(parts@),
                ws == words(line@),
                ws.len() > 0,
                i <= ws.len() - 1,
                temperature_from(ws, 0) == temperature_from(ws, i as int),
            decreases ws.len() - i,
        {
            assert(ws[i as int] == parts@[i as int]@);
            assert(ws[i + 1] == parts@[i + 1]@);
            if let Some(temp) = parse_uint_exec(&parts[i], 10, u32::MAX as u64) {
                let word = string_from_chars(&parts[i + 1]);
                let next = to_lowercase(word.as_str());
                let next_chars = chars_of(next.as_str());
                let c = chars_of("c");
                if has_str(&next_chars, "celsius") || chars_eq(&next_chars, &c) {
                    return Some(temp as u32);
                }
            }
            i += 1;
        }
        None
    }

    /// The number after the first `:` of `line`, commas allowed.
    pub fn extract_number_from_line(line: &str) -> (r: Option<u64>)
        ensures
            opt64(r) == number_after_colon(line@),
    {
        let cs = chars_of(line);
        match find_char_exec(&cs, ':') {
            None => None,
            Some(c) => {
                proof {
                    lemma_find_char(cs@, ':');
                }
                let rest = subvec(&cs, c + 1, cs.len());
                assert(rest@ =~= cs@.skip(c + 1));
                let a = trim_exec(&rest);
                let n = number_run_exec(&a);
                let head = subvec(&a, 0, n);
                assert(head@ =~= a@.take(n as int));
                let digits = without_exec(&head, ',');
                parse_u64_exec(&digits)
            },
        }
    }

    /// The percentage after the first `:` of `line`.
    pub fn extract_percentage_from_line(line: &str) -> (r: Option<u64>)
        ensures
            opt64(r) == percentage_after_colon(line@),
    {
        let cs = chars_of(line);
        match find_char_exec(&cs, ':') {
            None => None,
            Some(c) => {
                proof {
                    lemma_find_char(cs@, ':');
                }
                let rest = subvec(&cs, c + 1, cs.len());
                assert(rest@ =~= cs@.skip(c + 1));
                let a = trim_exec(&rest);
                match find_char_exec(&a, '%') {
                    None => None,
                    Some(p) => {
                        proof {
                            lemma_find_char(a@, '%');
                        }
                        let head = subvec(&a, 0, p);
                        assert(head@ =~= a@.take(p as int));
                        let num = trim_exec(&head);
                        parse_u64_exec(&num)
                    },
                }
            },
        }
    }
}

// ---------------------------------------------------------------------------
// ATA reports
// ---------------------------------------------------------------------------

/// A decimal `u8`, or 0 where the word is not one.
pub open spec fn u8_or_zero(w: Seq<char>) -> nat {
    match parse_uint(w, 10, 255) {
        Some(v) => v,
        None => 0,
    }
}

/// A line of the attribute table that describes an attribute: ten words or
/// more, the first a decimal `u8`.
pub open spec fn attribute_row(w: Seq<Seq<char>>) -> bool {
    w.len() >= 10 && parse_uint(w[0], 10, 255) is Some
}

/// The names under which a drive reports its wear.
pub open spec fn is_wear_name(n: Seq<char>) -> bool {
    n == "Wear_Leveling_Count"@ || n == "SSD_Life_Left"@
}

/// The readings after an attribute row: the reading that the row's name
/// stands for takes the row's raw value (the wear reading: 100 less the
/// current value).
pub open spec fn with_row(r: HealthReadings, w: Seq<Seq<char>>) -> HealthReadings {
    let name = w[1];
    let raw = raw_value_of(w[9]);
    if name == "Temperature_Celsius"@ || name == "Airflow_Temperature_Cel"@ {
        HealthReadings { temperature_celsius: Some(raw as u32), ..r }
    } else if name == "Power_On_Hours"@ {
        HealthReadings { power_on_hours: Some(raw as u64), ..r }
    } else if name == "Power_Cycle_Count"@ {
        HealthReadings { power_cycle_count: Some(raw as u64), ..r }
    } else if name == "Reallocated_Sector_Ct"@ {
        HealthReadings { reallocated_sectors: Some(raw as u64), ..r }
    } else if name == "Current_Pending_Sector"@ {
        HealthReadings { pending_sectors: Some(raw as u64), ..r }
    } else if name == "Offline_Uncorrectable"@ || name == "Uncorrectable_Error_Cnt"@ {
        HealthReadings { uncorrectable_errors: Some(raw as u64), ..r }
    } else if is_wear_name(name) {
        HealthReadings { wear_level: Some((100 - u8_or_zero(w[3])) as u8), ..r }
    } else if name == "Bad_Block_Count"@ || name == "Runtime_Bad_Block"@ {
        HealthReadings { bad_block_count: Some(raw as u64), ..r }
    } else if name == "Erase_Fail_Count"@ {
        HealthReadings { erase_fail_count: Some(raw as u64), ..r }
    } else if name == "Program_Fail_Count"@ || name == "Program_Fail_Cnt_Total"@ {
        HealthReadings { program_fail_count: Some(raw as u64), ..r }
    } else {
        r
    }
}

/// What the scan of an ATA report holds after a line: whether the attribute
/// table has begun, the readings, the words of the last row of each name,
/// and whether every wear row so far had a current value of at most 100.
pub open spec fn ata_step(
    st: (bool, HealthReadings, Map<Seq<char>, Seq<Seq<char>>>, bool),
    l: Seq<char>,
) -> (bool, HealthReadings, Map<Seq<char>, Seq<Seq<char>>>, bool) {
    let w = words(l);
    if contains(l, "ID# ATTRIBUTE_NAME"@) {
        (true, st.1, st.2, st.3)
    } else if !st.0 || !attribute_row(w) {
        st
    } else {
        (
            true,
            with_row(st.1, w),
            st.2.insert(w[1], w),
            st.3 && (is_wear_name(w[1]) ==> u8_or_zero(w[3]) <= 100),
        )
    }
}

/// The scan of the lines of an ATA report.
pub open spec fn ata_scan(ls: Seq<Seq<char>>) -> (
    bool,
    HealthReadings,
    Map<Seq<char>, Seq<Seq<char>>>,
    bool,
)
    decreases ls.len(),
{
    if ls.len() == 0 {
        (false, no_readings(), Map::empty(), true)
    } else {
        ata_step(ata_scan(ls.drop_last()), ls.last())
    }
}

/// An ATA report in which no wear row has a current value above 100 (the
/// wear reading is 100 less that value).
pub open spec fn ata_report_ok(s: Seq<char>) -> bool {
    ata_scan(lines(s)).3
}

proof fn lemma_ata_ok_prefix(ls: Seq<Seq<char>>, i: int)
    requires
        0 <= i <= ls.len(),
        ata_scan(ls).3,
    ensures
        ata_scan(ls.take(i)).3,
    decreases ls.len(),
{
    if i < ls.len() {
        assert(ls.drop_last().take(i) =~= ls.take(i));
        lemma_ata_ok_prefix(ls.drop_last(), i);
    } else {
        assert(ls.take(i) =~= ls);
    }
}

/// An attribute that holds what the row `w` says.
pub open spec fn attr_matches(a: SMARTAttribute, w: Seq<Seq<char>>) -> bool {
    &&& Some(a.id as nat) == parse_uint(w[0], 10, 255)
    &&& a.name@ == w[1]
    &&& a.flags@ == w[2]
    &&& a.current as nat == u8_or_zero(w[3])
    &&& a.worst as nat == u8_or_zero(w[4])
    &&& a.threshold as nat == u8_or_zero(w[5])
    &&& a.failing_now == (w[8] == "FAILING_NOW"@)
    &&& a.failed_before == (w[8] == "In_the_past"@)
    &&& a.raw_value as nat == raw_value_of(w[9])
}

fn word_is(w: &Vec<char>, lit: &str) -> (b: bool)
    ensures
        b == (w@ == lit@),
{
    let l = chars_of(lit);
    chars_eq(w, &l)
}

fn u8_or_zero_exec(w: &Vec<char>) -> (v: u8)
    ensures
        v as nat == u8_or_zero(w@),
{
    match parse_uint_exec(w, 10, 255) {
        Some(v) => v as u8,
        None => 0,
    }
}

/// The attribute that an attribute row describes.
fn attribute_of_row(parts: &Vec<Vec<char>>, id: u8) -> (a: SMARTAttribute)
    requires
        attribute_row(views(parts@)),
        Some(id as nat) == parse_uint(parts@[0]@, 10, 255),
    ensures
        attr_matches(a, views(parts@)),
{
    let ghost w = views(parts@);
    assert(w[1] == parts@[1]@ && w[2] == parts@[2]@ && w[3] == parts@[3]@ && w[4] == parts@[4]@);
    assert(w[5] == parts@[5]@ && w[8] == parts@[8]@ && w[9] == parts@[9]@ && w[0] == parts@[0]@);
    SMARTAttribute {
        id,
        name: string_from_chars(&parts[1]),
        current: u8_or_zero_exec(&parts[3]),
        worst: u8_or_zero_exec(&parts[4]),
        threshold: u8_or_zero_exec(&parts[5]),
        raw_value: SMARTMonitor::raw_value_chars(&parts[9]),
        flags: string_from_chars(&parts[2]),
        failing_now: word_is(&parts[8], "FAILING_NOW"),
        failed_before: word_is(&parts[8], "In_the_past"),
    }
}

/// Takes the reading of an attribute row into `health`.
fn apply_row(health: &mut SMARTHealth, parts: &Vec<Vec<char>>)
    requires
        attribute_row(views(parts@)),
        is_wear_name(parts@[1]@) ==> u8_or_zero(parts@[3]@) <= 100,
    ensures
        final(health).readings() == with_row(old(health).readings(), views(parts@)),
        final(health).overall_health == old(health).overall_health,
        final(health).attributes == old(health).attributes,
{
    let ghost w = views(parts@);
    assert(w[1] == parts@[1]@ && w[3] == parts@[3]@ && w[9] == parts@[9]@);
    let name = &parts[1];
    let raw_value = SMARTMonitor::raw_value_chars(&parts[9]);
    if word_is(name, "Temperature_Celsius") || word_is(name, "Airflow_Temperature_Cel") {
        health.temperature_celsius = Some(raw_value as u32);
    } else if word_is(name, "Power_On_Hours") {
        health.power_on_hours = Some(raw_value);
    } else if word_is(name, "Power_Cycle_Count") {
        health.power_cycle_count = Some(raw_value);
    } else if word_is(name, "Reallocated_Sector_Ct") {
        health.reallocated_sectors = Some(raw_value);
    } else if word_is(name, "Current_Pending_Sector") {
        health.pending_sectors = Some(raw_value);
    } else if word_is(name, "Offline_Uncorrectable") || word_is(name, "Uncorrectable_Error_Cnt") {
        health.uncorrectable_errors = Some(raw_value);
    } else if word_is(name, "Wear_Leveling_Count") || word_is(name, "SSD_Life_Left") {
        let current = u8_or_zero_exec(&parts[3]);
        health.wear_level = Some(100 - current);
    } else if word_is(name, "Bad_Block_Count") || word_is(name, "Runtime_Bad_Block") {
        health.bad_block_count = Some(raw_value);
    } else if word_is(name, "Erase_Fail_Count") {
        health.erase_fail_count = Some(raw_value);
    } else if word_is(name, "Program_Fail_Count") || word_is(name, "Program_Fail_Cnt_Total") {
        health.program_fail_count = Some(raw_value);
    }
}

/// A report with no reading, an empty table and an unknown verdict.
fn empty_health() -> (h: SMARTHealth)
    ensures
        h.readings() == no_readings(),
        h.overall_health == HealthStatus::Unknown,
        h.attributes.wf(),
        h.attributes@ == Map::<Seq<char>, SMARTAttribute>::empty(),
{
    SMARTHealth {
        overall_health: HealthStatus::Unknown,
        temperature_celsius: None,
        power_on_hours: None,
        power_cycle_count: None,
        reallocated_sectors: None,
        pending_sectors: None,
        uncorrectable_errors: None,
        wear_level: None,
        bad_block_count: None,
        erase_fail_count: None,
        program_fail_count: None,
        critical_warning: None,
        available_spare: None,
        media_errors: None,
        attributes: AttributeTable::new(),
    }
}

/// The report that the scan of an ATA report's lines describes.
pub open spec fn ata_result(h: SMARTHealth, s: Seq<char>) -> bool {
    let st = ata_scan(lines(s));
    &&& h.readings() == st.1
    &&& h.overall_health == status_for(st.1)
    &&& h.attributes.wf()
    &&& h.attributes@.dom() == st.2.dom()
    &&& forall|k: Seq<char>| #[trigger] st.2.dom().contains(k) ==> attr_matches(h.attributes@[k], st.2[k])
}

/// Whether `parse_ata_smart` can read the report (`ata_report_ok`).
pub fn ata_report_readable(output: &str) -> (b: bool)
    ensures
        b == ata_report_ok(output@),
{
    let cs = chars_of(output);
    let ls = split_lines(&cs);
    let ghost all = views(ls@);
    let mut in_attributes = false;
    let mut ok = true;
    let mut i: usize = 0;
    proof {
        assert(all.take(0) =~= Seq::<Seq<char>>::empty());
    }
    while i < ls.len()
        invariant
            all == views(ls@),
            all == lines(output@),
            i <= all.len(),
            in_attributes == ata_scan(all.take(i as int)).0,
            ok == ata_scan(all.take(i as int)).3,
        decreases all.len() - i,
    {
        proof {
            assert(all.take(i + 1).drop_last() =~= all.take(i as int));
            assert(all.take(i + 1).last() == ls@[i as int]@);
        }
        let line = &ls[i];
        if has_str(line, "ID# ATTRIBUTE_NAME") {
            in_attributes = true;
        } else if in_attributes {
            let parts = split_words(line);
            if parts.len() >= 10 {
                if parse_uint_exec(&parts[0], 10, 255).is_some() {
                    let ghost w = views(parts@);
                    assert(w[1] == parts@[1]@ && w[3] == parts@[3]@);
                    if (word_is(&parts[1], "Wear_Leveling_Count") || word_is(&parts[1], "SSD_Life_Left"))
                        && u8_or_zero_exec(&parts[3]) > 100 {
                        ok = false;
                    }
                }
            }
        }
        i += 1;
    }
    proof {
        assert(all.take(i as int) =~= all);
    }
    ok
}

impl SMARTMonitor {
    /// Parses the attribute table of `smartctl -A -H -i` for an ATA drive.
    /// Rows after the `ID# ATTRIBUTE_NAME` header with ten words or more and a
    /// numeric id enter the table by name, a later row replacing an earlier
    /// one; the verdict is `status_for` of the readings.
    pub fn parse_ata_smart(output: &str) -> (r: DriveResult<SMARTHealth>)
        requires
            ata_report_ok(output@),
        ensures
            r matches Ok(h) && ata_result(h, output@),
    {
        let cs = chars_of(output);
        let ls = split_lines(&cs);
        let ghost all = views(ls@);
        let mut health = empty_health();
        let mut in_attributes = false;
        let mut i: usize = 0;
        proof {
            assert(all.take(0) =~= Seq::<Seq<char>>::empty());
        }
        while i < ls.len()
            invariant
                all == views(ls@),
                all == lines(output@),
                ata_scan(all).3,
                i <= all.len(),
                in_attributes == ata_scan(all.take(i as int)).0,
                health.readings() == ata_scan(all.take(i as int)).1,
                health.attributes.wf(),
                health.attributes@.dom() == ata_scan(all.take(i as int)).2.dom(),
                forall|k: Seq<char>| #[trigger] ata_scan(all.take(i as int)).2.dom().contains(k)
                    ==> attr_matches(health.attributes@[k], ata_scan(all.take(i as int)).2[k]),
            decreases all.len() - i,
        {
            let ghost prev = ata_scan(all.take(i as int));
            proof {
                assert(all.take(i + 1).drop_last() =~= all.take(i as int));
                assert(all.take(i + 1).last() == ls@[i as int]@);
                lemma_ata_ok_prefix(all, i + 1);
            }
            let line = &ls[i];
            if has_str(line, "ID# ATTRIBUTE_NAME") {
                in_attributes = true;
            } else if in_attributes {
                let parts = split_words(line);
                if parts.len() >= 10 {
                    if let Some(id) = parse_uint_exec(&parts[0], 10, 255) {
                        let ghost w = views(parts@);
                        assert(w[0] == parts@[0]@ && w[1] == parts@[1]@ && w[3] == parts@[3]@);
                        let attribute = attribute_of_row(&parts, id as u8);
                        apply_row(&mut health, &parts);
                        let name = string_from_chars(&parts[1]);
                        let ghost before = health.attributes@;
                        health.attributes.insert(name, attribute);
                        proof {
                            let next = ata_scan(all.take(i + 1));
                            assert(next.2 == prev.2.insert(w[1], w));
                            assert(health.attributes@ == before.insert(w[1], attribute));
                            assert(health.attributes@.dom() =~= next.2.dom());
                            assert forall|k: Seq<char>| #[trigger] next.2.dom().contains(k) implies
                                attr_matches(health.attributes@[k], next.2[k]) by {
                                if k != w[1] {
                                    assert(prev.2.dom().contains(k));
                                }
                            }
                        }
                    }
                }
            }
            i += 1;
        }
        proof {
            assert(all.take(i as int) =~= all);
        }
        health.overall_health = Self::determine_health_status(&health);
        Ok(health)
    }
}

// ---------------------------------------------------------------------------
// NVMe reports of smartctl
// ---------------------------------------------------------------------------

/// The readings after a line of `smartctl -A -H` for an NVMe drive: the first
/// label that the line holds decides which reading it may set, and the
/// reading is set where its value parses.
pub open spec fn smartctl_nvme_step(r: HealthReadings, l: Seq<char>) -> HealthReadings {
    if contains(l, "SMART overall-health"@) {
        r
    } else if contains(l, "Temperature:"@) {
        match temperature_from(words(l), 0) {
            Some(t) => HealthReadings { temperature_celsius: Some(t as u32), ..r },
            None => r,
        }
    } else if contains(l, "Power On Hours:"@) {
        match number_after_colon(l) {
            Some(v) => HealthReadings { power_on_hours: Some(v as u64), ..r },
            None => r,
        }
    } else if contains(l, "Power Cycles:"@) {
        match number_after_colon(l) {
            Some(v) => HealthReadings { power_cycle_count: Some(v as u64), ..r },
            None => r,
        }
    } else if contains(l, "Media and Data Integrity Errors:"@) {
        match number_after_colon(l) {
            Some(v) => HealthReadings { media_errors: Some(v as u64), ..r },
            None => r,
        }
    } else if contains(l, "Percentage Used:"@) {
        match percentage_after_colon(l) {
            Some(v) => HealthReadings { wear_level: Some(v as u8), ..r },
            None => r,
        }
    } else if contains(l, "Available Spare:"@) {
        match percentage_after_colon(l) {
            Some(v) => HealthReadings { available_spare: Some(v as u8), ..r },
            None => r,
        }
    } else {
        r
    }
}

/// The readings gathered from the lines of an NVMe report of smartctl.
pub open spec fn smartctl_nvme_scan(ls: Seq<Seq<char>>) -> HealthReadings
    decreases ls.len(),
{
    if ls.len() == 0 {
        no_readings()
    } else {
        smartctl_nvme_step(smartctl_nvme_scan(ls.drop_last()), ls.last())
    }
}

/// A line that holds the literal `p` has a word, where `p` begins with a
/// character that is not whitespace.
proof fn lemma_label_has_word(l: Seq<char>, p: Seq<char>)
    requires
        contains(l, p),
        p.len() > 0,
        !is_ws(p[0]),
    ensures
        words(l).len() > 0,
{
    lemma_find_sub_bounds(l, p);
    let i = find_sub(l, p);
    assert(l.subrange(i, i + p.len())[0] == p[0]);
    lemma_words_nonempty(l, i);
}

fn smartctl_nvme_line(health: &mut SMARTHealth, line: &Vec<char>)
    ensures
        final(health).readings() == smartctl_nvme_step(old(health).readings(), line@),
        final(health).overall_health == old(health).overall_health,
        final(health).attributes == old(health).attributes,
{
    let text = string_from_chars(line);
    let l = text.as_str();
    if has_str(line, "SMART overall-health") {
    } else if has_str(line, "Temperature:") {
        proof {
            reveal_strlit("Temperature:");
            lemma_label_has_word(line@, "Temperature:"@);
        }
        if let Some(temp) = SMARTMonitor::extract_temperature(l) {
            health.temperature_celsius = Some(temp);
        }
    } else if has_str(line, "Power On Hours:") {
        if let Some(hours) = SMARTMonitor::extract_number_from_line(l) {
            health.power_on_hours = Some(hours);
        }
    } else if has_str(line, "Power Cycles:") {
        if let Some(cycles) = SMARTMonitor::extract_number_from_line(l) {
            health.power_cycle_count = Some(cycles);
        }
    } else if has_str(line, "Media and Data Integrity Errors:") {
        if let Some(errors) = SMARTMonitor::extract_number_from_line(l) {
            health.media_errors = Some(errors);
        }
    } else if has_str(line, "Percentage Used:") {
        if let Some(used) = SMARTMonitor::extract_percentage_from_line(l) {
            health.wear_level = Some(used as u8);
        }
    } else if has_str(line, "Available Spare:") {
        if let Some(spare) = SMARTMonitor::extract_percentage_from_line(l) {
            health.available_spare = Some(spare as u8);
        }
    }
}

impl SMARTMonitor {
    /// Parses what `smartctl -A -H` prints for an NVMe drive: the readings are
    /// `smartctl_nvme_scan` of its lines, the verdict `status_for` of them, and
    /// the attribute table stays empty.
    pub fn parse_nvme_smart_smartctl(output: &str) -> (r: DriveResult<SMARTHealth>)
        ensures
            r matches Ok(h) && h.readings() == smartctl_nvme_scan(lines(output@))
                && h.overall_health == status_for(smartctl_nvme_scan(lines(output@)))
                && h.attributes.wf() && h.attributes@ == Map::<Seq<char>, SMARTAttribute>::empty(),
    {
        let cs = chars_of(output);
        let ls = split_lines(&cs);
        let ghost all = views(ls@);
        let mut health = empty_health();
        let mut i: usize = 0;
        proof {
            assert(all.take(0) =~= Seq::<Seq<char>>::empty());
        }
        while i < ls.len()
            invariant
                all == views(ls@),
                all == lines(output@),
                i <= all.len(),
                health.readings() == smartctl_nvme_scan(all.take(i as int)),
                health.attributes.wf(),
                health.attributes@ == Map::<Seq<char>, SMARTAttribute>::empty(),
            decreases all.len() - i,
        {
            proof {
                assert(all.take(i + 1).drop_last() =~= all.take(i as int));
                assert(all.take(i + 1).last() == ls@[i as int]@);
            }
            smartctl_nvme_line(&mut health, &ls[i]);
            i += 1;
        }
        proof {
            assert(all.take(i as int) =~= all);
        }
        health.overall_health = Self::determine_health_status(&health);
        Ok(health)
    }
}

// ---------------------------------------------------------------------------
// NVMe reports of nvme-cli
// ---------------------------------------------------------------------------

/// The line of `nvme smart-log` would be read for the available spare.
pub open spec fn nvme_cli_spare_line(ll: Seq<char>) -> bool {
    &&& !contains(ll, "critical_warning"@)
    &&& !(contains(ll, "temperature"@) && !contains(ll, "sensor"@))
    &&& !(contains(ll, "power_on_hours"@) || contains(ll, "power on hours"@))
    &&& !(contains(ll, "power_cycles"@) || contains(ll, "power cycles"@))
    &&& !(contains(ll, "media_errors"@) || contains(ll, "media and data integrity"@))
    &&& !(contains(ll, "percentage_used"@) || contains(ll, "percentage used"@))
    &&& contains(ll, "available_spare"@) && !contains(ll, "threshold"@)
}

/// The readings after a line of `nvme smart-log`, matched in lower case.
pub open spec fn nvme_cli_step(r: HealthReadings, l: Seq<char>) -> HealthReadings {
    let ll = lowercase(l);
    if contains(ll, "critical_warning"@) {
        match hex_after_prefix(ll) {
            Some(v) => HealthReadings { critical_warning: Some(v as u8), ..r },
            None => r,
        }
    } else if contains(ll, "temperature"@) && !contains(ll, "sensor"@) {
        match last_number(words(ll)) {
            Some(v) => HealthReadings {
                temperature_celsius: match robust_temperature(v) {
                    Some(t) => Some(t as u32),
                    None => None,
                },
                ..r
            },
            None => r,
        }
    } else if contains(ll, "power_on_hours"@) || contains(ll, "power on hours"@) {
        match last_number(words(ll)) {
            Some(v) => HealthReadings { power_on_hours: Some(v as u64), ..r },
            None => r,
        }
    } else if contains(ll, "power_cycles"@) || contains(ll, "power cycles"@) {
        match last_number(words(ll)) {
            Some(v) => HealthReadings { power_cycle_count: Some(v as u64), ..r },
            None => r,
        }
    } else if contains(ll, "media_errors"@) || contains(ll, "media and data integrity"@) {
        match last_number(words(ll)) {
            Some(v) => HealthReadings { media_errors: Some(v as u64), ..r },
            None => r,
        }
    } else if contains(ll, "percentage_used"@) || contains(ll, "percentage used"@) {
        match last_number(words(ll)) {
            Some(v) => HealthReadings { wear_level: Some(v as u8), ..r },
            None => r,
        }
    } else if contains(ll, "available_spare"@) && !contains(ll, "threshold"@) {
        match percentage_in(ll) {
            Some(v) => HealthReadings { available_spare: Some(v as u8), ..r },
            None => r,
        }
    } else {
        r
    }
}

/// The readings gathered from the lines of `nvme smart-log`.
pub open spec fn nvme_cli_scan(ls: Seq<Seq<char>>) -> HealthReadings
    decreases ls.len(),
{
    if ls.len() == 0 {
        no_readings()
    } else {
        nvme_cli_step(nvme_cli_scan(ls.drop_last()), ls.last())
    }
}

/// Every spare line of the report can be cut before its percentage.
pub open spec fn nvme_cli_report_ok(s: Seq<char>) -> bool {
    forall|i: int|
        0 <= i < lines(s).len() && nvme_cli_spare_line(lowercase(#[trigger] lines(s)[i]))
            ==> percentage_cut_ok(lowercase(lines(s)[i]))
}

fn percentage_cut_ok_exec(s: &Vec<char>) -> (b: bool)
    ensures
        b == percentage_cut_ok(s@),
{
    match find_char_exec(s, '%') {
        None => true,
        Some(p) => {
            proof {
                lemma_find_char(s@, '%');
            }
            let before = subvec(s, 0, p);
            assert(before@ =~= s@.take(p as int));
            match last_non_numeric_exec(&before) {
                None => true,
                Some(j) => (before[j] as u32) < 128,
            }
        },
    }
}

fn nvme_cli_spare_line_exec(ll: &Vec<char>) -> (b: bool)
    ensures
        b == nvme_cli_spare_line(ll@),
{
    !has_str(ll, "critical_warning") && !(has_str(ll, "temperature") && !has_str(ll, "sensor"))
        && !(has_str(ll, "power_on_hours") || has_str(ll, "power on hours")) && !(has_str(
        ll,
        "power_cycles",
    ) || has_str(ll, "power cycles")) && !(has_str(ll, "media_errors") || has_str(
        ll,
        "media and data integrity",
    )) && !(has_str(ll, "percentage_used") || has_str(ll, "percentage used")) && has_str(
        ll,
        "available_spare",
    ) && !has_str(ll, "threshold")
}

/// Whether `parse_nvme_smart` can read the report (`nvme_cli_report_ok`).
pub fn nvme_cli_report_readable(output: &str) -> (b: bool)
    ensures
        b == nvme_cli_report_ok(output@),
{
    let cs = chars_of(output);
    let ls = split_lines(&cs);
    let ghost all = views(ls@);
    let mut i: usize = 0;
    while i < ls.len()
        invariant
            all == views(ls@),
            all == lines(output@),
            i <= all.len(),
            forall|j: int|
                0 <= j < i && nvme_cli_spare_line(lowercase(#[trigger] all[j]))
                    ==> percentage_cut_ok(lowercase(all[j])),
        decreases all.len() - i,
    {
        let text = string_from_chars(&ls[i]);
        let lower = to_lowercase(text.as_str());
        let ll = chars_of(lower.as_str());
        assert(all[i as int] == ls@[i as int]@);
        if nvme_cli_spare_line_exec(&ll) && !percentage_cut_ok_exec(&ll) {
            return false;
        }
        i += 1;
    }
    true
}

fn nvme_cli_line(health: &mut SMARTHealth, line: &Vec<char>)
    requires
        nvme_cli_spare_line(lowercase(line@)) ==> percentage_cut_ok(lowercase(line@)),
    ensures
        final(health).readings() == nvme_cli_step(old(health).readings(), line@),
        final(health).overall_health == old(health).overall_health,
        final(health).attributes == old(health).attributes,
{
    let text = string_from_chars(line);
    let lower = to_lowercase(text.as_str());
    let ll = chars_of(lower.as_str());
    let l = lower.as_str();
    if has_str(&ll, "critical_warning") {
        if let Some(value) = SMARTMonitor::extract_hex_value(l) {
            health.critical_warning = Some(value as u8);
        }
    } else if has_str(&ll, "temperature") && !has_str(&ll, "sensor") {
        if let Some(value) = SMARTMonitor::extract_number(l) {
            health.temperature_celsius = SMARTMonitor::parse_temperature_robust(value, text.as_str());
        }
    } else if has_str(&ll, "power_on_hours") || has_str(&ll, "power on hours") {
        if let Some(value) = SMARTMonitor::extract_number(l) {
            health.power_on_hours = Some(value);
        }
    } else if has_str(&ll, "power_cycles") || has_str(&ll, "power cycles") {
        if let Some(value) = SMARTMonitor::extract_number(l) {
            health.power_cycle_count = Some(value);
        }
    } else if has_str(&ll, "media_errors") || has_str(&ll, "media and data integrity") {
        if let Some(value) = SMARTMonitor::extract_number(l) {
            health.media_errors = Some(value);
        }
    } else if has_str(&ll, "percentage_used") || has_str(&ll, "percentage used") {
        if let Some(value) = SMARTMonitor::extract_number(l) {
            health.wear_level = Some(value as u8);
        }
    } else if has_str(&ll, "available_spare") && !has_str(&ll, "threshold") {
        if let Some(value) = SMARTMonitor::extract_percentage(l) {
            health.available_spare = Some(value as u8);
        }
    }
}

impl SMARTMonitor {
    /// Parses what `nvme smart-log` prints: the readings are `nvme_cli_scan` of
    /// its lines, the verdict `status_for` of them.
    pub fn parse_nvme_smart(output: &str, device_path: &str) -> (r: DriveResult<SMARTHealth>)
        requires
            nvme_cli_report_ok(output@),
        ensures
            r matches Ok(h) && h.readings() == nvme_cli_scan(lines(output@))
                && h.overall_health == status_for(nvme_cli_scan(lines(output@)))
                && h.attributes.wf() && h.attributes@ == Map::<Seq<char>, SMARTAttribute>::empty(),
    {
        let cs = chars_of(output);
        let ls = split_lines(&cs);
        let ghost all = views(ls@);
        let mut health = empty_health();
        let mut i: usize = 0;
        proof {
            assert(all.take(0) =~= Seq::<Seq<char>>::empty());
        }
        while i < ls.len()
            invariant
                all == views(ls@),
                all == lines(output@),
                nvme_cli_report_ok(output@),
                i <= all.len(),
                health.readings() == nvme_cli_scan(all.take(i as int)),
                health.attributes.wf(),
                health.attributes@ == Map::<Seq<char>, SMARTAttribute>::empty(),
            decreases all.len() - i,
        {
            proof {
                assert(all.take(i + 1).drop_last() =~= all.take(i as int));
                assert(all.take(i + 1).last() == ls@[i as int]@);
                assert(all[i as int] == ls@[i as int]@);
            }
            nvme_cli_line(&mut health, &ls[i]);
            i += 1;
        }
        proof {
            assert(all.take(i as int) =~= all);
        }
        health.overall_health = Self::determine_health_status(&health);
        Ok(health)
    }

    /// The health report of a drive from the tools' output: for a path that
    /// names an NVMe device, the `nvme smart-log` report where that command
    /// succeeded, else the smartctl report read as NVMe; for any other path the
    /// smartctl report read as ATA. A report that cannot be read (an NVMe spare
    /// line that cannot be cut, a wear row above 100) gives `SMARTReadFailed`.
    pub fn get_health(device_path: &str, nvme_cli_output: Option<&str>, smartctl_output: &str) -> (r:
        DriveResult<SMARTHealth>)
        ensures
            contains(device_path@, "nvme"@) && nvme_cli_output is Some ==> (if nvme_cli_report_ok(
                nvme_cli_output->0@,
            ) {
                r matches Ok(h) && h.readings() == nvme_cli_scan(lines(nvme_cli_output->0@))
                    && h.overall_health == status_for(nvme_cli_scan(lines(nvme_cli_output->0@)))
            } else {
                r is Err
            }),
            contains(device_path@, "nvme"@) && nvme_cli_output is None ==> (r matches Ok(h)
                && h.readings() == smartctl_nvme_scan(lines(smartctl_output@))
                && h.overall_health == status_for(smartctl_nvme_scan(lines(smartctl_output@)))),
            !contains(device_path@, "nvme"@) ==> (if ata_report_ok(smartctl_output@) {
                r matches Ok(h) && ata_result(h, smartctl_output@)
            } else {
                r is Err
            }),
    {
        let path = chars_of(device_path);
        if has_str(&path, "nvme") {
            match nvme_cli_output {
                Some(o) => {
                    if nvme_cli_report_readable(o) {
                        Self::parse_nvme_smart(o, device_path)
                    } else {
                        Err(DriveError::SMARTReadFailed("unreadable nvme smart-log report".to_string()))
                    }
                },
                None => Self::parse_nvme_smart_smartctl(smartctl_output),
            }
        } else if ata_report_readable(smartctl_output) {
            Self::parse_ata_smart(smartctl_output)
        } else {
            Err(DriveError::SMARTReadFailed("wear value above 100 in smartctl report".to_string()))
        }
    }
}

// ---------------------------------------------------------------------------
// Failure prediction and operating limits
// ---------------------------------------------------------------------------

/// The points each finding adds to the risk score: reallocated sectors above
/// 100 (40) or above 10 (20), pending sectors (30), uncorrectable errors (50),
/// wear above 90 (60) or above 80 (30), spare below 10 (50) or below 20 (25).
pub open spec fn risk_score_of(r: HealthReadings) -> nat {
    (if above(r.reallocated_sectors, 100) {
        40nat
    } else if above(r.reallocated_sectors, 10) {
        20nat
    } else {
        0nat
    }) + (if above(r.pending_sectors, 0) {
        30nat
    } else {
        0nat
    }) + (if above(r.uncorrectable_errors, 0) {
        50nat
    } else {
        0nat
    }) + (if r.wear_level is Some && r.wear_level->0 > 90 {
        60nat
    } else if r.wear_level is Some && r.wear_level->0 > 80 {
        30nat
    } else {
        0nat
    }) + (if r.available_spare is Some && r.available_spare->0 < 10 {
        50nat
    } else if r.available_spare is Some && r.available_spare->0 < 20 {
        25nat
    } else {
        0nat
    })
}

/// The risk level of a score.
pub open spec fn risk_level_for(score: nat) -> RiskLevel {
    if score >= 80 {
        RiskLevel::Critical
    } else if score >= 50 {
        RiskLevel::High
    } else if score >= 30 {
        RiskLevel::Medium
    } else if score > 0 {
        RiskLevel::Low
    } else {
        RiskLevel::NoRisk
    }
}

/// Days a drive is expected to last at a score; none below 21 or above 100.
pub open spec fn remaining_days_for(score: nat) -> Option<u32> {
    if score <= 20 {
        None
    } else if score <= 40 {
        Some(365)
    } else if score <= 60 {
        Some(90)
    } else if score <= 80 {
        Some(30)
    } else if score <= 100 {
        Some(7)
    } else {
        None
    }
}

/// The advice for a risk level.
pub open spec fn recommendation_for(level: RiskLevel) -> Seq<char> {
    match level {
        RiskLevel::NoRisk => "Drive is healthy. Continue normal operations."@,
        RiskLevel::Low => "Monitor drive health regularly. Consider backup planning."@,
        RiskLevel::Medium => "Backup important data. Plan for replacement within 6 months."@,
        RiskLevel::High => "Backup immediately. Replace drive as soon as possible."@,
        RiskLevel::Critical => "URGENT: Drive failure imminent. Do not use for critical data."@,
    }
}

/// The findings behind a score, one message each, in the order of the score.
pub open spec fn indicators_of(r: HealthReadings) -> Seq<Seq<char>> {
    (if above(r.reallocated_sectors, 100) {
        seq!["High reallocated sector count: "@ + decimal(r.reallocated_sectors->0 as nat)]
    } else if above(r.reallocated_sectors, 10) {
        seq!["Increasing reallocated sectors: "@ + decimal(r.reallocated_sectors->0 as nat)]
    } else {
        seq![]
    }) + (if above(r.pending_sectors, 0) {
        seq!["Pending sectors detected: "@ + decimal(r.pending_sectors->0 as nat)]
    } else {
        seq![]
    }) + (if above(r.uncorrectable_errors, 0) {
        seq!["Uncorrectable errors: "@ + decimal(r.uncorrectable_errors->0 as nat)]
    } else {
        seq![]
    }) + (if r.wear_level is Some && r.wear_level->0 > 90 {
        seq!["SSD wear level critical: "@ + decimal(r.wear_level->0 as nat) + "%"@]
    } else if r.wear_level is Some && r.wear_level->0 > 80 {
        seq!["SSD wear level high: "@ + decimal(r.wear_level->0 as nat) + "%"@]
    } else {
        seq![]
    }) + (if r.available_spare is Some && r.available_spare->0 < 10 {
        seq!["Available spare critical: "@ + decimal(r.available_spare->0 as nat) + "%"@]
    } else if r.available_spare is Some && r.available_spare->0 < 20 {
        seq!["Available spare low: "@ + decimal(r.available_spare->0 as nat) + "%"@]
    } else {
        seq![]
    })
}

/// The text of each string of a vector.
pub open spec fn texts(v: Seq<String>) -> Seq<Seq<char>> {
    v.map_values(|s: String| s@)
}

/// `prefix`, the decimal digits of `n`, then `suffix`.
fn message(prefix: &str, n: u64, suffix: &str) -> (s: String)
    ensures
        s@ == prefix@ + decimal(n as nat) + suffix@,
{
    let mut v = chars_of(prefix);
    let mut digits = decimal_exec(n);
    v.append(&mut digits);
    push_str(&mut v, suffix);
    string_from_chars(&v)
}

fn push_message(reasons: &mut Vec<String>, prefix: &str, n: u64, suffix: &str)
    ensures
        texts(final(reasons)@) == texts(old(reasons)@) + seq![prefix@ + decimal(n as nat) + suffix@],
{
    let m = message(prefix, n, suffix);
    reasons.push(m);
    proof {
        assert(texts(final(reasons)@) =~= texts(old(reasons)@) + seq![prefix@ + decimal(n as nat) + suffix@]);
    }
}

impl SMARTMonitor {
    /// Predicts how likely a drive is to fail from its health report.
    pub fn predict_failure(health: &SMARTHealth) -> (p: FailurePrediction)
        ensures
            p.risk_level == risk_level_for(risk_score_of(health.readings())),
            p.risk_score as nat == if risk_score_of(health.readings()) < 100 {
                risk_score_of(health.readings())
            } else {
                100
            },
            p.estimated_days_remaining == remaining_days_for(risk_score_of(health.readings())),
            texts(p.failure_indicators@) == indicators_of(health.readings()),
            p.recommendation@ == recommendation_for(risk_level_for(risk_score_of(health.readings()))),
    {
        let ghost r = health.readings();
        let mut risk_score: u32 = 0;
        let mut reasons: Vec<String> = Vec::new();
        let ghost mut expected: Seq<Seq<char>> = seq![];
        if let Some(reallocated) = health.reallocated_sectors {
            if reallocated > 100 {
                risk_score += 40;
                push_message(&mut reasons, "High reallocated sector count: ", reallocated, "");
            } else if reallocated > 10 {
                risk_score += 20;
                push_message(&mut reasons, "Increasing reallocated sectors: ", reallocated, "");
            }
        }
        if let Some(pending) = health.pending_sectors {
            if pending > 0 {
                risk_score += 30;
                push_message(&mut reasons, "Pending sectors detected: ", pending, "");
            }
        }
        if let Some(errors) = health.uncorrectable_errors {
            if errors > 0 {
                risk_score += 50;
                push_message(&mut reasons, "Uncorrectable errors: ", errors, "");
            }
        }
        if let Some(wear) = health.wear_level {
            if wear > 90 {
                risk_score += 60;
                push_message(&mut reasons, "SSD wear level critical: ", wear as u64, "%");
            } else if wear > 80 {
                risk_score += 30;
                push_message(&mut reasons, "SSD wear level high: ", wear as u64, "%");
            }
        }
        if let Some(spare) = health.available_spare {
            if spare < 10 {
                risk_score += 50;
                push_message(&mut reasons, "Available spare critical: ", spare as u64, "%");
            } else if spare < 20 {
                risk_score += 25;
                push_message(&mut reasons, "Available spare low: ", spare as u64, "%");
            }
        }
        proof {
            reveal_strlit("");
            assert(""@ =~= Seq::<char>::empty());
            assert(texts(reasons@) =~= indicators_of(r));
        }
        let risk_level = if risk_score >= 80 {
            RiskLevel::Critical
        } else if risk_score >= 50 {
            RiskLevel::High
        } else if risk_score >= 30 {
            RiskLevel::Medium
        } else if risk_score > 0 {
            RiskLevel::Low
        } else {
            RiskLevel::NoRisk
        };
        let capped: u8 = if risk_score < 100 {
            risk_score as u8
        } else {
            100
        };
        FailurePrediction {
            risk_level,
            risk_score: capped,
            estimated_days_remaining: Self::estimate_remaining_days(risk_score),
            failure_indicators: reasons,
            recommendation: Self::get_recommendation(risk_level),
        }
    }

    /// Days a drive is expected to last at a risk score.
    pub fn estimate_remaining_days(risk_score: u32) -> (d: Option<u32>)
        ensures
            d == remaining_days_for(risk_score as nat),
    {
        if risk_score <= 20 {
            None
        } else if risk_score <= 40 {
            Some(365)
        } else if risk_score <= 60 {
            Some(90)
        } else if risk_score <= 80 {
            Some(30)
        } else if risk_score <= 100 {
            Some(7)
        } else {
            None
        }
    }

    /// The advice for a risk level.
    pub fn get_recommendation(risk_level: RiskLevel) -> (s: String)
        ensures
            s@ == recommendation_for(risk_level),
    {
        match risk_level {
            RiskLevel::NoRisk => "Drive is healthy. Continue normal operations.".to_string(),
            RiskLevel::Low => "Monitor drive health regularly. Consider backup planning.".to_string(),
            RiskLevel::Medium => "Backup important data. Plan for replacement within 6 months.".to_string(),
            RiskLevel::High => "Backup immediately. Replace drive as soon as possible.".to_string(),
            RiskLevel::Critical => "URGENT: Drive failure imminent. Do not use for critical data.".to_string(),
        }
    }
}

impl SMARTMonitor {
    /// The temperature limits of a drive from its health report: the reading
    /// (50 in place of a reading above 100, which no drive survives), and the
    /// thresholds 65/75/85 for an NVMe path, 55/65/70 otherwise. Without a
    /// reading, `SMARTReadFailed`.
    pub fn monitor_temperature(device_path: &str, health: &SMARTHealth) -> (r: DriveResult<TemperatureMonitor>)
        ensures
            health.temperature_celsius is None ==> r matches Err(DriveError::SMARTReadFailed(_)),
            health.temperature_celsius matches Some(t) ==> r matches Ok(m) && m.current_celsius == (
            if t > 100 {
                50
            } else {
                t
            }) && (if contains(device_path@, "nvme"@) {
                m.warning_threshold == 65 && m.critical_threshold == 75 && m.max_operating == 85
            } else {
                m.warning_threshold == 55 && m.critical_threshold == 65 && m.max_operating == 70
            }),
    {
        let current: u32 = match health.temperature_celsius {
            Some(temp) => {
                if temp > 100 {
                    50
                } else {
                    temp
                }
            },
            None => {
                return Err(DriveError::SMARTReadFailed("Temperature sensor unavailable".to_string()));
            },
        };
        let path = chars_of(device_path);
        let (warning, critical, max): (u32, u32, u32) = if has_str(&path, "nvme") {
            (65, 75, 85)
        } else {
            (55, 65, 70)
        };
        Ok(
            TemperatureMonitor {
                current_celsius: current,
                max_operating: max,
                critical_threshold: critical,
                warning_threshold: warning,
            },
        )
    }

    /// Whether a drive may be wiped, from its health report (none where it
    /// could not be read, which lets the wipe go on): not a failed drive, not
    /// above 70 degrees, not above 1000 reallocated sectors. A reading above
    /// 100 is a broken sensor: the wipe goes on only where the operator has
    /// `confirmed` that it may go on without temperature monitoring.
    pub fn check_safe_to_operate(health: Option<&SMARTHealth>, confirmed: bool) -> (ok: bool)
        ensures
            health is None ==> ok,
            health matches Some(h) ==> ok == (h.overall_health != HealthStatus::Failed && (
            h.temperature_celsius matches Some(t) ==> (if t > 100 {
                confirmed
            } else {
                t <= 70
            })) && !above(h.reallocated_sectors, 1000)),
    {
        let h = match health {
            None => {
                return true;
            },
            Some(h) => h,
        };
        if h.overall_health == HealthStatus::Failed {
            return false;
        }
        if let Some(temp) = h.temperature_celsius {
            if temp > 100 {
                if !confirmed {
                    return false;
                }
            } else if temp > 70 {
                return false;
            }
        }
        if let Some(reallocated) = h.reallocated_sectors {
            if reallocated > 1000 {
                return false;
            }
        }
        true
    }

    /// Whether the safety check asks the operator before it answers: for a
    /// drive not failed whose temperature reads above 100 °C, an impossible
    /// reading that leaves the drive unmonitored.
    pub fn needs_operator_confirmation(health: Option<&SMARTHealth>) -> (b: bool)
        ensures
            b == (health matches Some(h) && h.overall_health != HealthStatus::Failed && (
            h.temperature_celsius matches Some(t) && t > 100)),
    {
        match health {
            None => false,
            Some(h) => {
                if h.overall_health == HealthStatus::Failed {
                    return false;
                }
                match h.temperature_celsius {
                    Some(t) => t > 100,
                    None => false,
                }
            },
        }
    }

    /// Whether an operator's answer agrees: `y` in either case, surrounding
    /// whitespace ignored.
    pub fn answer_is_yes(input: &str) -> (b: bool)
        ensures
            b == (lowercase(trim(input@)) == "y"@),
    {
        let cs = chars_of(input);
        let trimmed = trim_exec(&cs);
        let text = string_from_chars(&trimmed);
        let lower = to_lowercase(text.as_str());
        let lc = chars_of(lower.as_str());
        let y = chars_of("y");
        chars_eq(&lc, &y)
    }

    /// The `smartctl -t` argument of a self-test type.
    pub fn self_test_argument(test_type: SelfTestType) -> (s: &'static str)
        ensures
            test_type == SelfTestType::Short ==> s@ == "short"@,
            test_type == SelfTestType::Extended ==> s@ == "long"@,
            test_type == SelfTestType::Conveyance ==> s@ == "conveyance"@,
    {
        match test_type {
            SelfTestType::Short => "short",
            SelfTestType::Extended => "long",
            SelfTestType::Conveyance => "conveyance",
        }
    }
}

/// What a wait for a drive to cool does next.
#[derive(Debug, Clone, Copy, PartialEq, Eq, Structural)]
pub enum CoolingAction {
    /// The drive is cool enough: go on.
    Proceed,
    /// Read the temperature again after this many seconds.
    WaitSeconds(u64),
    /// The time ran out with the drive still hot: ask whether to go on anyway.
    AskContinueHot,
    /// The temperature could not be read three times running: ask whether to
    /// go on without monitoring it.
    AskSkipMonitoring,
}

/// Reading failures in a row after which the operator is asked.
pub const MAX_TEMPERATURE_FAILURES: u32 = 3;

/// The message of a drive left too hot.
pub open spec fn too_hot_message(current: u32, threshold: u32) -> Seq<char> {
    "Drive temperature "@ + decimal(current as nat) + "°C exceeds safe threshold "@ + decimal(
        threshold as nat,
    ) + "°C"@
}

impl SMARTMonitor {
    /// One step of the wait for a drive to cool, from the failures in a row
    /// so far, this reading (none where it could not be read) and whether
    /// the time allowed has run out: the new count of failures and what to
    /// do. At or below the warning threshold the drive may be used; above
    /// it, it is waited for 30 seconds more until the time runs out, then the
    /// operator is asked. A failed reading is retried after 10 seconds, and
    /// after the third in a row the operator is asked.
    pub fn cooling_step(failures: u32, reading: Option<&TemperatureMonitor>, timed_out: bool) -> (r: (
        u32,
        CoolingAction,
    ))
        requires
            failures < MAX_TEMPERATURE_FAILURES,
        ensures
            r.0 < MAX_TEMPERATURE_FAILURES || r.1 == CoolingAction::AskSkipMonitoring,
            match reading {
                Some(t) => r.0 == 0 && r.1 == (if t.current_celsius <= t.warning_threshold {
                    CoolingAction::Proceed
                } else if timed_out {
                    CoolingAction::AskContinueHot
                } else {
                    CoolingAction::WaitSeconds(30)
                }),
                None => r.0 == failures + 1 && r.1 == (if failures + 1 >= MAX_TEMPERATURE_FAILURES {
                    CoolingAction::AskSkipMonitoring
                } else {
                    CoolingAction::WaitSeconds(10)
                }),
            },
    {
        match reading {
            Some(t) => {
                if t.current_celsius <= t.warning_threshold {
                    (0, CoolingAction::Proceed)
                } else if timed_out {
                    (0, CoolingAction::AskContinueHot)
                } else {
                    (0, CoolingAction::WaitSeconds(30))
                }
            },
            None => {
                let n = failures + 1;
                if n >= MAX_TEMPERATURE_FAILURES {
                    (n, CoolingAction::AskSkipMonitoring)
                } else {
                    (n, CoolingAction::WaitSeconds(10))
                }
            },
        }
    }

    /// Whether a reading is at or above the critical threshold, where a
    /// warning is shown while waiting.
    pub fn is_critical(t: &TemperatureMonitor) -> (b: bool)
        ensures
            b == (t.current_celsius >= t.critical_threshold),
    {
        t.current_celsius >= t.critical_threshold
    }

    /// The end of a wait that asked the operator (`yes`: the answer agreed,
    /// see `answer_is_yes`). Going on hot or without monitoring is what the
    /// operator chose; else the wait fails: too hot (with the last reading),
    /// or monitoring unavailable.
    pub fn cooling_answer(action: &CoolingAction, last: Option<&TemperatureMonitor>, yes: bool) -> (r:
        DriveResult<()>)
        requires
            *action == CoolingAction::AskContinueHot ==> last is Some,
            *action == CoolingAction::AskContinueHot || *action == CoolingAction::AskSkipMonitoring,
        ensures
            yes ==> r is Ok,
            (!yes && *action == CoolingAction::AskContinueHot) ==> (r matches Err(
                DriveError::TemperatureExceeded(m),
            ) && m@ == too_hot_message(last->0.current_celsius, last->0.warning_threshold)),
            (!yes && *action == CoolingAction::AskSkipMonitoring) ==> (r matches Err(
                DriveError::SMARTReadFailed(m),
            ) && m@ == "Temperature monitoring unavailable"@),
    {
        if yes {
            return Ok(());
        }
        match action {
            CoolingAction::AskContinueHot => {
                let t = match last {
                    Some(t) => t,
                    None => {
                        return Ok(());
                    },
                };
                let mut m: Vec<char> = Vec::new();
                push_str(&mut m, "Drive temperature ");
                let mut a = decimal_exec(t.current_celsius as u64);
                m.append(&mut a);
                push_str(&mut m, "°C exceeds safe threshold ");
                let mut b = decimal_exec(t.warning_threshold as u64);
                m.append(&mut b);
                push_str(&mut m, "°C");
                Err(DriveError::TemperatureExceeded(string_from_chars(&m)))
            },
            _ => Err(DriveError::SMARTReadFailed("Temperature monitoring unavailable".to_string())),
        }
    }
}

/// `a` is at least `b`, a missing reading counting as none at all.
pub open spec fn no_lower(a: Option<u64>, b: Option<u64>) -> bool {
    b is None || (a is Some && a->0 >= b->0)
}

/// Readings `w` are at least as bad as `r`: no fewer reallocated or pending
/// sectors, uncorrectable errors or wear, and no more spare capacity.
pub open spec fn no_better(w: HealthReadings, r: HealthReadings) -> bool {
    &&& no_lower(w.reallocated_sectors, r.reallocated_sectors)
    &&& no_lower(w.pending_sectors, r.pending_sectors)
    &&& no_lower(w.uncorrectable_errors, r.uncorrectable_errors)
    &&& (r.wear_level is None || (w.wear_level is Some && w.wear_level->0 >= r.wear_level->0))
    &&& (r.available_spare is None || (w.available_spare is Some && w.available_spare->0
        <= r.available_spare->0))
}

/// Law: worse readings never lower the failure risk score.
pub proof fn lemma_risk_monotone(w: HealthReadings, r: HealthReadings)
    requires
        no_better(w, r),
    ensures
        risk_score_of(w) >= risk_score_of(r),
{
}

/// Law: a critical finding makes a drive critical, whatever warnings the
/// other readings give; a warning finding without a critical one gives a
/// warning.
pub proof fn lemma_critical_over_warning(r: HealthReadings)
    ensures
        critical_finding(r) ==> status_for(r) == HealthStatus::Critical,
        (!critical_finding(r) && warning_finding(r)) ==> status_for(r) == HealthStatus::Warning,
        status_for(r) == HealthStatus::Good <==> (!critical_finding(r) && !warning_finding(r)),
{
}

/// Law: readings judged good carry no failure risk.
pub proof fn lemma_good_means_no_risk(r: HealthReadings)
    requires
        status_for(r) == HealthStatus::Good,
    ensures
        risk_score_of(r) == 0,
        risk_level_for(risk_score_of(r)) == RiskLevel::NoRisk,
{
}

/// Law: a temperature read from any raw value is between 0 and 100 degrees,
/// and a Celsius value in that range is taken as it is.
pub proof fn lemma_robust_temperature(v: nat)
    ensures
        robust_temperature(v) matches Some(c) ==> c <= 100,
        v <= 100 ==> robust_temperature(v) == Some(v),
{
}

/// The first line of a self-test log that settles the result, with its
/// kind: 0 passed, 1 read failure, 2 in progress.
pub open spec fn selftest_line(ls: Seq<Seq<char>>) -> Option<(nat, Seq<char>)>
    decreases ls.len(),
{
    if ls.len() == 0 {
        None
    } else if contains(ls[0], "Completed without error"@) {
        Some((0, ls[0]))
    } else if contains(ls[0], "Completed: read failure"@) {
        Some((1, ls[0]))
    } else if contains(ls[0], "In progress"@) {
        Some((2, ls[0]))
    } else {
        selftest_line(ls.drop_first())
    }
}

/// The percentage of an in-progress line can be read where it is cut at a
/// character boundary (`percentage_cut_ok`).
pub open spec fn selftest_log_ok(log: Seq<char>) -> bool {
    match selftest_line(lines(log)) {
        Some(p) => p.0 == 2 ==> percentage_cut_ok(p.1),
        None => true,
    }
}

/// Whether a line counts toward the data written.
pub open spec fn writes_indicator(l: Seq<char>) -> bool {
    contains(l, "Total_LBAs_Written"@) || contains(l, "Lifetime_Writes"@) || contains(l, "Host_Writes"@)
}

/// The raw value (tenth word) of the first writes line of `smartctl -A` that
/// has one that reads as a `u64`.
pub open spec fn ata_written_in(ls: Seq<Seq<char>>) -> Option<nat>
    decreases ls.len(),
{
    if ls.len() == 0 {
        None
    } else if writes_indicator(ls[0]) && words(ls[0]).len() >= 10 && parse_u64(words(ls[0])[9]) is Some {
        parse_u64(words(ls[0])[9])
    } else {
        ata_written_in(ls.drop_first())
    }
}

/// The units of the first `data_units_written` line of `nvme smart-log`
/// that gives a number.
pub open spec fn nvme_units_in(ls: Seq<Seq<char>>) -> Option<nat>
    decreases ls.len(),
{
    if ls.len() == 0 {
        None
    } else if contains(ls[0], "data_units_written"@) && last_number(words(ls[0])) is Some {
        last_number(words(ls[0]))
    } else {
        nvme_units_in(ls.drop_first())
    }
}

/// Whether `r` is the result that a self-test log gives: from the first line
/// that settles it (`selftest_line`), not run where there is none; an
/// in-progress test gives the percentage of its line (wrapped to a byte, 0
/// without one).
pub open spec fn selftest_result_is(r: SelfTestResult, log: Seq<char>) -> bool {
    match selftest_line(lines(log)) {
        None => r is NotRun,
        Some(p) => if p.0 == 0 {
            r is Passed
        } else if p.0 == 1 {
            r matches SelfTestResult::Failed(m) && m@ == "Read failure detected"@
        } else {
            r matches SelfTestResult::InProgress(n) && n == match percentage_in(p.1) {
                Some(v) => (v % 256) as u8,
                None => 0u8,
            }
        },
    }
}

impl SMARTMonitor {
    /// The latest self-test result from `smartctl -l selftest`: the first
    /// line that settles it (`selftest_line`); an in-progress test gives the
    /// percentage of its line (wrapped to a byte, 0 without one).
    pub fn check_self_test_results(selftest_log: &str) -> (r: SelfTestResult)
        requires
            selftest_log_ok(selftest_log@),
        ensures
            selftest_result_is(r, selftest_log@),
    {
        let s = chars_of(selftest_log);
        let ls = split_lines(&s);
        let mut i: usize = 0;
        assert(views(ls@).skip(0) =~= views(ls@));
        while i < ls.len()
            invariant
                i <= ls@.len(),
                views(ls@) == lines(selftest_log@),
                selftest_log_ok(selftest_log@),
                selftest_line(views(ls@)) == selftest_line(views(ls@).skip(i as int)),
            decreases ls@.len() - i,
        {
            assert(views(ls@).skip(i as int).drop_first() =~= views(ls@).skip(i + 1));
            assert(views(ls@).skip(i as int)[0] == ls@[i as int]@);
            if has_str(&ls[i], "Completed without error") {
                return SelfTestResult::Passed;
            } else if has_str(&ls[i], "Completed: read failure") {
                return SelfTestResult::Failed("Read failure detected".to_string());
            } else if has_str(&ls[i], "In progress") {
                let line = string_from_chars(&ls[i]);
                return match Self::extract_percentage(line.as_str()) {
                    Some(v) => SelfTestResult::InProgress((v % 256) as u8),
                    None => SelfTestResult::InProgress(0),
                };
            }
            i += 1;
        }
        SelfTestResult::NotRun
    }

    /// Whether a self-test log can be read (`selftest_log_ok`).
    pub fn self_test_log_readable(selftest_log: &str) -> (b: bool)
        ensures
            b == selftest_log_ok(selftest_log@),
    {
        let s = chars_of(selftest_log);
        let ls = split_lines(&s);
        let mut i: usize = 0;
        assert(views(ls@).skip(0) =~= views(ls@));
        while i < ls.len()
            invariant
                i <= ls@.len(),
                views(ls@) == lines(selftest_log@),
                selftest_line(views(ls@)) == selftest_line(views(ls@).skip(i as int)),
            decreases ls@.len() - i,
        {
            assert(views(ls@).skip(i as int).drop_first() =~= views(ls@).skip(i + 1));
            assert(views(ls@).skip(i as int)[0] == ls@[i as int]@);
            if has_str(&ls[i], "Completed without error") || has_str(&ls[i], "Completed: read failure") {
                return true;
            } else if has_str(&ls[i], "In progress") {
                return percentage_cut_ok_exec(&ls[i]);
            }
            i += 1;
        }
        true
    }

    /// The latest self-test result where the log can be read; none where the
    /// percentage of its in-progress line cannot be cut out.
    pub fn self_test_result_of(selftest_log: &str) -> (r: Option<SelfTestResult>)
        ensures
            r is Some <==> selftest_log_ok(selftest_log@),
            r matches Some(x) ==> selftest_result_is(x, selftest_log@),
    {
        if Self::self_test_log_readable(selftest_log) {
            Some(Self::check_self_test_results(selftest_log))
        } else {
            None
        }
    }

    /// The bytes written over the drive's life: the raw value of the first
    /// writes attribute of `smartctl -A` in 512-byte sectors; else, for an
    /// NVMe path, the data units of `nvme smart-log` in 512 KiB; else none.
    /// The products wrap at 2^64.
    pub fn get_lifetime_writes(device_path: &str, smartctl_attributes: &str, nvme_smart_log: Option<&str>) -> (r:
        Option<u64>)
        ensures
            match ata_written_in(lines(smartctl_attributes@)) {
                Some(v) => r == Some(((v * 512) % 0x1_0000_0000_0000_0000) as u64),
                None => if contains(device_path@, "nvme"@) && nvme_smart_log is Some && nvme_units_in(
                    lines(nvme_smart_log->0@),
                ) is Some {
                    r == Some(((nvme_units_in(lines(nvme_smart_log->0@))->0 * 524288)
                        % 0x1_0000_0000_0000_0000) as u64)
                } else {
                    r is None
                },
            },
    {
        let s = chars_of(smartctl_attributes);
        let ls = split_lines(&s);
        let mut i: usize = 0;
        assert(views(ls@).skip(0) =~= views(ls@));
        while i < ls.len()
            invariant
                i <= ls@.len(),
                views(ls@) == lines(smartctl_attributes@),
                ata_written_in(views(ls@)) == ata_written_in(views(ls@).skip(i as int)),
            decreases ls@.len() - i,
        {
            assert(views(ls@).skip(i as int).drop_first() =~= views(ls@).skip(i + 1));
            assert(views(ls@).skip(i as int)[0] == ls@[i as int]@);
            if has_str(&ls[i], "Total_LBAs_Written") || has_str(&ls[i], "Lifetime_Writes") || has_str(
                &ls[i],
                "Host_Writes",
            ) {
                let ws = split_words(&ls[i]);
                if ws.len() >= 10 {
                    assert(views(ws@)[9] == ws@[9]@);
                    if let Some(v) = parse_u64_exec(&ws[9]) {
                        let b = v.wrapping_mul(512);
                        return Some(b);
                    }
                }
            }
            i += 1;
        }
        assert(ata_written_in(lines(smartctl_attributes@)) is None) by {
            assert(views(ls@).skip(i as int) =~= Seq::<Seq<char>>::empty());
        }
        let p = chars_of(device_path);
        if !has_str(&p, "nvme") {
            return None;
        }
        let log = match nvme_smart_log {
            Some(l) => l,
            None => {
                return None;
            },
        };
        let c = chars_of(log);
        let nl = split_lines(&c);
        let mut j: usize = 0;
        assert(views(nl@).skip(0) =~= views(nl@));
        while j < nl.len()
            invariant
                j <= nl@.len(),
                views(nl@) == lines(log@),
                ata_written_in(lines(smartctl_attributes@)) is None,
                contains(device_path@, "nvme"@),
                nvme_smart_log == Some(log),
                nvme_units_in(views(nl@)) == nvme_units_in(views(nl@).skip(j as int)),
            decreases nl@.len() - j,
        {
            assert(views(nl@).skip(j as int).drop_first() =~= views(nl@).skip(j + 1));
            assert(views(nl@).skip(j as int)[0] == nl@[j as int]@);
            if has_str(&nl[j], "data_units_written") {
                let line = string_from_chars(&nl[j]);
                if let Some(u) = Self::extract_number(line.as_str()) {
                    let b = u.wrapping_mul(524288);
                    return Some(b);
                }
            }
            j += 1;
        }
        None
    }
}

/// Law: a prediction's risk level follows its score in bands: 80 and over
/// is critical, 50 to 79 high, 30 to 49 medium, 1 to 29 low, and 0 no risk.
/// So an uncorrectable error, with no other reading amiss, scores 50: a
/// high risk with the advice to back up at once.
pub proof fn lemma_risk_bands(score: nat, r: HealthReadings)
    ensures
        score >= 80 ==> risk_level_for(score) == RiskLevel::Critical,
        50 <= score < 80 ==> risk_level_for(score) == RiskLevel::High,
        30 <= score < 50 ==> risk_level_for(score) == RiskLevel::Medium,
        0 < score < 30 ==> risk_level_for(score) == RiskLevel::Low,
        score == 0 ==> risk_level_for(score) == RiskLevel::NoRisk,
        (above(r.uncorrectable_errors, 0) && !above(r.reallocated_sectors, 10) && !above(
            r.pending_sectors,
            0,
        ) && (r.wear_level is None || r.wear_level->0 <= 80) && (r.available_spare is None
            || r.available_spare->0 >= 20)) ==> (risk_score_of(r) == 50 && risk_level_for(
            risk_score_of(r),
        ) == RiskLevel::High && recommendation_for(risk_level_for(risk_score_of(r)))
            == "Backup immediately. Replace drive as soon as possible."@),
{
}

} // verus!
