//! Hidden areas of ATA drives: the Host Protected Area (HPA) and the Device
//! Configuration Overlay (DCO), read from what `hdparm`, `smartctl` and
//! `blockdev` print.
use vstd::prelude::*;

use crate::text::{
    char_numeric, chars_of, contains, find_char, find_char_exec, find_sub, find_exec, has_str,
    is_numeric, lemma_find_char, lemma_find_sub_bounds, lemma_rfind_char, lines, opt64,
    parse_u64, parse_u64_exec, rfind_char, rfind_char_exec, second_piece, second_piece_exec,
    split_lines, subvec, trim, trim_exec, views,
};
use crate::{DriveError, DriveResult};

verus! {

broadcast use vstd::string::group_string_axioms;

/// A Host Protected Area.
#[derive(Debug, Clone)]
pub struct HPAInfo {
    pub enabled: bool,
    pub native_max_sectors: u64,
    pub current_max_sectors: u64,
    pub hidden_sectors: u64,
    pub hidden_size_bytes: u64,
}

/// A Device Configuration Overlay.
#[derive(Debug, Clone)]
pub struct DCOInfo {
    pub enabled: bool,
    pub real_max_sectors: u64,
    pub dco_max_sectors: u64,
    pub hidden_sectors: u64,
    pub hidden_size_bytes: u64,
}

/// The HPA and DCO operations.
pub struct HPADCOManager;

// ---------------------------------------------------------------------------
// Numbers in a line
// ---------------------------------------------------------------------------

/// The larger of two optional numbers.
pub open spec fn max_opt(a: Option<nat>, b: Option<nat>) -> Option<nat> {
    match (a, b) {
        (Some(x), Some(y)) => Some(if x >= y { x } else { y }),
        (Some(x), None) => Some(x),
        (None, _) => b,
    }
}

/// Scanning `s`: the largest value among the completed runs of numeric
/// characters that read as a `u64`, and the run in progress.
pub open spec fn run_scan(s: Seq<char>) -> (Option<nat>, Seq<char>)
    decreases s.len(),
{
    if s.len() == 0 {
        (None, seq![])
    } else {
        let st = run_scan(s.drop_last());
        if char_numeric(s.last()) {
            (st.0, st.1.push(s.last()))
        } else {
            (max_opt(st.0, parse_u64(st.1)), seq![])
        }
    }
}

/// The largest value among the runs of numeric characters of `s` that read
/// as a `u64`.
pub open spec fn largest_number(s: Seq<char>) -> Option<nat> {
    max_opt(run_scan(s).0, parse_u64(run_scan(s).1))
}

fn max_opt_exec(a: Option<u64>, b: Option<u64>) -> (r: Option<u64>)
    ensures
        opt64(r) == max_opt(opt64(a), opt64(b)),
{
    match (a, b) {
        (Some(x), Some(y)) => Some(
            if x >= y {
                x
            } else {
                y
            },
        ),
        (Some(x), None) => Some(x),
        (None, _) => b,
    }
}

// ---------------------------------------------------------------------------
// hdparm, smartctl and blockdev reports
// ---------------------------------------------------------------------------

/// The length of the run of numeric characters at the start of `s`.
pub open spec fn numeric_len(s: Seq<char>) -> nat
    decreases s.len(),
{
    if s.len() > 0 && char_numeric(s[0]) {
        1 + numeric_len(s.drop_first())
    } else {
        0
    }
}

fn numeric_len_exec(s: &Vec<char>) -> (n: usize)
    ensures
        n == numeric_len(s@),
        n <= s@.len(),
{
    let mut i: usize = 0;
    assert(s@.skip(0) =~= s@);
    while i < s.len() && is_numeric(s[i])
        invariant
            i <= s@.len(),
            numeric_len(s@) == i + numeric_len(s@.skip(i as int)),
        decreases s@.len() - i,
    {
        assert(s@.skip(i as int).drop_first() =~= s@.skip(i + 1));
        i += 1;
    }
    i
}

/// The native max address in a line of `hdparm -N` that names it: the
/// number after the last `/`.
pub open spec fn native_max_in_line(l: Seq<char>) -> Option<nat> {
    if !(contains(l, "native"@) && contains(l, "max"@)) {
        None
    } else {
        let p = rfind_char(l, '/');
        if p < 0 {
            None
        } else {
            let t = l.skip(p + 1);
            let n = numeric_len(t);
            if n < t.len() {
                parse_u64(t.take(n as int))
            } else {
                parse_u64(trim(t))
            }
        }
    }
}

/// The current max address in a line of `hdparm -N`: between `=` and `/`.
pub open spec fn current_max_in_line(l: Seq<char>) -> Option<nat> {
    if !contains(l, "max sectors"@) {
        None
    } else {
        let e = find_char(l, '=');
        if e < 0 {
            None
        } else {
            let a = trim(l.skip(e + 1));
            let s = find_char(a, '/');
            if s < 0 {
                None
            } else {
                parse_u64(trim(a.take(s)))
            }
        }
    }
}

/// `s` before the first `bytes`.
pub open spec fn before_bytes(s: Seq<char>) -> Seq<char> {
    let i = find_sub(s, "bytes"@);
    if i < 0 {
        s
    } else {
        s.take(i)
    }
}

/// The numeric characters of `s`.
pub open spec fn numeric_chars(s: Seq<char>) -> Seq<char>
    decreases s.len(),
{
    if s.len() == 0 {
        s
    } else if char_numeric(s.last()) {
        numeric_chars(s.drop_last()).push(s.last())
    } else {
        numeric_chars(s.drop_last())
    }
}

/// The capacity in 512-byte sectors in a capacity line of `smartctl -i`.
pub open spec fn capacity_in_line(l: Seq<char>) -> Option<nat> {
    if !(contains(l, "User Capacity"@) || contains(l, "Total NVM Capacity"@)) {
        None
    } else {
        match second_piece(before_bytes(l), ':') {
            None => None,
            Some(piece) => match parse_u64(numeric_chars(piece)) {
                Some(b) => Some(b / 512),
                None => None,
            },
        }
    }
}

/// The first value that `f` finds in a line of `ls`.
pub open spec fn first_found(ls: Seq<Seq<char>>, f: spec_fn(Seq<char>) -> Option<nat>) -> Option<nat>
    decreases ls.len(),
{
    if ls.len() == 0 {
        None
    } else if f(ls[0]) is Some {
        f(ls[0])
    } else {
        first_found(ls.drop_first(), f)
    }
}

/// The real and DCO maxima that the lines of `hdparm --dco-identify` give:
/// each the largest number of the last line that names it and holds one.
pub open spec fn dco_scan(ls: Seq<Seq<char>>) -> (Option<nat>, Option<nat>)
    decreases ls.len(),
{
    if ls.len() == 0 {
        (None, None)
    } else {
        let st = dco_scan(ls.drop_last());
        let l = ls.last();
        if contains(l, "Real max sectors"@) {
            if largest_number(l) is Some {
                (largest_number(l), st.1)
            } else {
                st
            }
        } else if contains(l, "DCO max sectors"@) {
            if largest_number(l) is Some {
                (st.0, largest_number(l))
            } else {
                st
            }
        } else {
            st
        }
    }
}

fn numeric_chars_exec(s: &Vec<char>) -> (r: Vec<char>)
    ensures
        r@ == numeric_chars(s@),
{
    let mut r: Vec<char> = Vec::new();
    let mut i: usize = 0;
    assert(s@.take(0) =~= Seq::<char>::empty());
    while i < s.len()
        invariant
            i <= s@.len(),
            r@ == numeric_chars(s@.take(i as int)),
        decreases s@.len() - i,
    {
        assert(s@.take(i + 1).drop_last() =~= s@.take(i as int));
        if is_numeric(s[i]) {
            r.push(s[i]);
        }
        i += 1;
    }
    assert(s@.take(s@.len() as int) =~= s@);
    r
}

fn native_max_in_line_exec(l: &Vec<char>) -> (r: Option<u64>)
    ensures
        opt64(r) == native_max_in_line(l@),
{
    if !(has_str(l, "native") && has_str(l, "max")) {
        return None;
    }
    proof {
        lemma_rfind_char(l@, '/');
    }
    match rfind_char_exec(l, '/') {
        None => None,
        Some(p) => {
            let len = l.len();
            assert(p < len);
            let t = subvec(l, p + 1, len);
            assert(t@ =~= l@.skip(p + 1));
            let n = numeric_len_exec(&t);
            if n < t.len() {
                let head = subvec(&t, 0, n);
                assert(head@ =~= t@.take(n as int));
                parse_u64_exec(&head)
            } else {
                let tt = trim_exec(&t);
                parse_u64_exec(&tt)
            }
        },
    }
}

fn current_max_in_line_exec(l: &Vec<char>) -> (r: Option<u64>)
    ensures
        opt64(r) == current_max_in_line(l@),
{
    if !has_str(l, "max sectors") {
        return None;
    }
    proof {
        lemma_find_char(l@, '=');
    }
    match find_char_exec(l, '=') {
        None => None,
        Some(e) => {
            let len = l.len();
            assert(e < len);
            let rest = subvec(l, e + 1, len);
            assert(rest@ =~= l@.skip(e + 1));
            let a = trim_exec(&rest);
            proof {
                lemma_find_char(a@, '/');
            }
            match find_char_exec(&a, '/') {
                None => None,
                Some(sl) => {
                    let head = subvec(&a, 0, sl);
                    assert(head@ =~= a@.take(sl as int));
                    let h = trim_exec(&head);
                    parse_u64_exec(&h)
                },
            }
        },
    }
}

fn capacity_in_line_exec(l: &Vec<char>) -> (r: Option<u64>)
    ensures
        opt64(r) == capacity_in_line(l@),
{
    if !(has_str(l, "User Capacity") || has_str(l, "Total NVM Capacity")) {
        return None;
    }
    let bytes = chars_of("bytes");
    proof {
        lemma_find_sub_bounds(l@, bytes@);
    }
    let before: Vec<char> = match find_exec(l, &bytes) {
        None => subvec(l, 0, l.len()),
        Some(i) => subvec(l, 0, i),
    };
    assert(before@ =~= before_bytes(l@));
    match second_piece_exec(&before, ':') {
        None => None,
        Some(piece) => {
            let digits = numeric_chars_exec(&piece);
            match parse_u64_exec(&digits) {
                Some(b) => Some(b / 512),
                None => None,
            }
        },
    }
}

/// The first value that `f` finds in the lines of `s`, `f` being the
/// reader of a line that `exec_kind` selects.
fn first_in_lines(output: &str, exec_kind: u8) -> (r: Option<u64>)
    requires
        exec_kind < 3,
    ensures
        opt64(r) == first_found(lines(output@), line_reader(exec_kind)),
{
    let cs = chars_of(output);
    let ls = split_lines(&cs);
    let ghost all = views(ls@);
    let ghost f = line_reader(exec_kind);
    let mut i: usize = 0;
    assert(all.skip(0) =~= all);
    while i < ls.len()
        invariant
            exec_kind < 3,
            f == line_reader(exec_kind),
            all == views(ls@),
            all == lines(output@),
            i <= all.len(),
            first_found(all, f) == first_found(all.skip(i as int), f),
        decreases all.len() - i,
    {
        assert(all.skip(i as int).drop_first() =~= all.skip(i + 1));
        assert(all.skip(i as int)[0] == ls@[i as int]@);
        let v = if exec_kind == 0 {
            native_max_in_line_exec(&ls[i])
        } else if exec_kind == 1 {
            current_max_in_line_exec(&ls[i])
        } else {
            capacity_in_line_exec(&ls[i])
        };
        if v.is_some() {
            return v;
        }
        i += 1;
    }
    None
}

/// The line readers: native max, current max, capacity.
pub open spec fn line_reader(kind: u8) -> spec_fn(Seq<char>) -> Option<nat> {
    if kind == 0 {
        |l: Seq<char>| native_max_in_line(l)
    } else if kind == 1 {
        |l: Seq<char>| current_max_in_line(l)
    } else {
        |l: Seq<char>| capacity_in_line(l)
    }
}

impl HPADCOManager {
    /// The largest number in `line`: its runs of numeric characters, each
    /// read as a `u64` where it is one.
    pub fn extract_number_from_line(line: &str) -> (r: Option<u64>)
        ensures
            opt64(r) == largest_number(line@),
    {
        let cs = chars_of(line);
        let mut best: Option<u64> = None;
        let mut cur: Vec<char> = Vec::new();
        let mut i: usize = 0;
        assert(cs@.take(0) =~= Seq::<char>::empty());
        while i < cs.len()
            invariant
                i <= cs@.len(),
                cs@ == line@,
                opt64(best) == run_scan(cs@.take(i as int)).0,
                cur@ == run_scan(cs@.take(i as int)).1,
            decreases cs@.len() - i,
        {
            assert(cs@.take(i + 1).drop_last() =~= cs@.take(i as int));
            if is_numeric(cs[i]) {
                cur.push(cs[i]);
            } else {
                let v = parse_u64_exec(&cur);
                best = max_opt_exec(best, v);
                cur = Vec::new();
                assert(cur@ =~= Seq::<char>::empty());
            }
            i += 1;
        }
        assert(cs@.take(i as int) =~= cs@);
        let v = parse_u64_exec(&cur);
        max_opt_exec(best, v)
    }

    /// The real and DCO maxima of `hdparm --dco-identify`, where both are given.
    pub fn parse_dco_output(output: &str) -> (r: DriveResult<Option<(u64, u64)>>)
        ensures
            r matches Ok(o) && (match o {
                Some((rmax, dco)) => dco_scan(lines(output@)) == (Some(rmax as nat), Some(dco as nat)),
                None => dco_scan(lines(output@)).0 is None || dco_scan(lines(output@)).1 is None,
            }),
    {
        let cs = chars_of(output);
        let ls = split_lines(&cs);
        let ghost all = views(ls@);
        let mut real_max: Option<u64> = None;
        let mut dco_max: Option<u64> = None;
        let mut i: usize = 0;
        assert(all.take(0) =~= Seq::<Seq<char>>::empty());
        while i < ls.len()
            invariant
                all == views(ls@),
                all == lines(output@),
                i <= all.len(),
                (opt64(real_max), opt64(dco_max)) == dco_scan(all.take(i as int)),
            decreases all.len() - i,
        {
            assert(all.take(i + 1).drop_last() =~= all.take(i as int));
            assert(all.take(i + 1).last() == ls@[i as int]@);
            let text = crate::text::string_from_chars(&ls[i]);
            if has_str(&ls[i], "Real max sectors") {
                if let Some(num) = Self::extract_number_from_line(text.as_str()) {
                    real_max = Some(num);
                }
            } else if has_str(&ls[i], "DCO max sectors") {
                if let Some(num) = Self::extract_number_from_line(text.as_str()) {
                    dco_max = Some(num);
                }
            }
            i += 1;
        }
        assert(all.take(i as int) =~= all);
        match (real_max, dco_max) {
            (Some(rmax), Some(dco)) => Ok(Some((rmax, dco))),
            _ => Ok(None),
        }
    }

    /// The native max address that `hdparm -N` reports, if a line gives it.
    pub fn native_max_from_hdparm(output: &str) -> (r: Option<u64>)
        ensures
            opt64(r) == first_found(lines(output@), line_reader(0)),
    {
        first_in_lines(output, 0)
    }

    /// The current max address that `hdparm -N` reports, if a line gives it.
    pub fn current_max_from_hdparm(output: &str) -> (r: Option<u64>)
        ensures
            opt64(r) == first_found(lines(output@), line_reader(1)),
    {
        first_in_lines(output, 1)
    }

    /// The capacity in 512-byte sectors that `smartctl -i` reports, if a line
    /// gives it.
    pub fn capacity_from_identify(output: &str) -> (r: Option<u64>)
        ensures
            opt64(r) == first_found(lines(output@), line_reader(2)),
    {
        first_in_lines(output, 2)
    }

    /// The size in sectors that `blockdev --getsz` prints.
    pub fn size_from_blockdev(output: &str) -> (r: DriveResult<u64>)
        ensures
            parse_u64(trim(output@)) matches Some(v) ==> r == Ok::<u64, DriveError>(v as u64),
            parse_u64(trim(output@)) is None ==> r matches Err(DriveError::HardwareCommandFailed(_)),
    {
        let cs = chars_of(output);
        let t = trim_exec(&cs);
        match parse_u64_exec(&t) {
            Some(v) => Ok(v),
            None => Err(DriveError::HardwareCommandFailed("Failed to parse block device size".to_string())),
        }
    }

    /// The HPA that a native and a current max address describe: present
    /// where the native max is the larger, hiding the sectors between.
    pub fn hpa_from_addresses(native_max: u64, current_max: u64) -> (r: Option<HPAInfo>)
        requires
            native_max > current_max ==> (native_max - current_max) * 512 <= u64::MAX,
        ensures
            native_max > current_max ==> (r matches Some(h) && h.enabled && h.native_max_sectors
                == native_max && h.current_max_sectors == current_max && h.hidden_sectors
                == native_max - current_max && h.hidden_size_bytes == (native_max - current_max)
                * 512),
            native_max <= current_max ==> r is None,
    {
        if native_max > current_max {
            let hidden_sectors = native_max - current_max;
            Some(
                HPAInfo {
                    enabled: true,
                    native_max_sectors: native_max,
                    current_max_sectors: current_max,
                    hidden_sectors,
                    hidden_size_bytes: hidden_sectors * 512,
                },
            )
        } else {
            None
        }
    }

    /// The DCO that a real and a DCO max describe: present where the real
    /// max is the larger, hiding the sectors between.
    pub fn dco_from_status(status: Option<(u64, u64)>) -> (r: Option<DCOInfo>)
        requires
            status matches Some((rmax, dco)) ==> (rmax > dco ==> (rmax - dco) * 512 <= u64::MAX),
        ensures
            match status {
                Some((rmax, dco)) => if rmax > dco {
                    r matches Some(d) && d.enabled && d.real_max_sectors == rmax && d.dco_max_sectors
                        == dco && d.hidden_sectors == rmax - dco && d.hidden_size_bytes == (rmax
                        - dco) * 512
                } else {
                    r is None
                },
                None => r is None,
            },
    {
        if let Some((real_max, dco_max)) = status {
            if real_max > dco_max {
                let hidden_sectors = real_max - dco_max;
                return Some(
                    DCOInfo {
                        enabled: true,
                        real_max_sectors: real_max,
                        dco_max_sectors: dco_max,
                        hidden_sectors,
                        hidden_size_bytes: hidden_sectors * 512,
                    },
                );
            }
        }
        None
    }

    /// The usable capacity in bytes: the block device's sectors, 512 bytes
    /// each, and the bytes that an HPA and a DCO hide.
    pub fn get_true_capacity(device_sectors: u64, hpa: &Option<HPAInfo>, dco: &Option<DCOInfo>) -> (c: u64)
        requires
            device_sectors * 512 + (match hpa {
                Some(h) => h.hidden_size_bytes as int,
                None => 0,
            }) + (match dco {
                Some(d) => d.hidden_size_bytes as int,
                None => 0,
            }) <= u64::MAX,
        ensures
            c == device_sectors * 512 + (match hpa {
                Some(h) => h.hidden_size_bytes as int,
                None => 0,
            }) + (match dco {
                Some(d) => d.hidden_size_bytes as int,
                None => 0,
            }),
    {
        let mut capacity = device_sectors * 512;
        if let Some(hpa_info) = hpa {
            capacity += hpa_info.hidden_size_bytes;
        }
        if let Some(dco_info) = dco {
            capacity += dco_info.hidden_size_bytes;
        }
        capacity
    }
}

} // verus!
