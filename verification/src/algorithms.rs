//! Overwrite algorithms: the passes of DoD 5220.22-M and of Gutmann's 35-pass
//! scheme, the selections of Gutmann passes per recording encoding, and the
//! filling and checking of pattern buffers.
use vstd::prelude::*;

use crate::text::{
    chars_of, contains, has_str, lines, split_lines, views,
};

verus! {

broadcast use vstd::string::group_string_axioms;

/// DoD 5220.22-M: zeros, ones, random data.
pub struct DoDWipe;

/// One pass of random data.
pub struct RandomWipe;

/// One pass of zeros.
pub struct ZeroWipe;

/// Gutmann's 35 passes.
pub struct GutmannWipe;

/// How a drive records data, which decides the Gutmann passes that matter.
#[derive(Debug, Clone, Copy, PartialEq, Eq, Structural)]
pub enum DriveEncoding {
    /// Modified Frequency Modulation (older drives).
    MFM,
    /// Run Length Limited (2,7).
    RLL,
    /// Partial Response Maximum Likelihood (modern drives).
    PRML,
    /// Not known: all passes.
    Unknown,
}

impl DoDWipe {
    /// The byte of the first pass.
    pub const PASS_1_PATTERN: u8 = 0x00;

    /// The byte of the second pass.
    pub const PASS_2_PATTERN: u8 = 0xFF;

    /// The number of passes.
    pub const PASS_COUNT: usize = 3;
}

/// The fixed bytes of Gutmann pass `i` (0-based); random passes have none.
pub open spec fn gutmann_pattern(i: int) -> Option<Seq<u8>> {
    if i == 4 || i == 14 {
        Some(seq![0x55u8])
    } else if i == 5 || i == 19 {
        Some(seq![0xAAu8])
    } else if i == 6 || i == 25 {
        Some(seq![0x92u8, 0x49, 0x24])
    } else if i == 7 || i == 26 {
        Some(seq![0x49u8, 0x24, 0x92])
    } else if i == 8 || i == 27 {
        Some(seq![0x24u8, 0x92, 0x49])
    } else if 9 <= i <= 24 {
        Some(seq![((i - 9) * 17) as u8])
    } else if i == 28 {
        Some(seq![0x6Du8, 0xB6, 0xDB])
    } else if i == 29 {
        Some(seq![0xB6u8, 0xDB, 0x6D])
    } else if i == 30 {
        Some(seq![0xDBu8, 0x6D, 0xB6])
    } else {
        None
    }
}

/// The Gutmann passes kept for an encoding, in order.
pub open spec fn optimized_passes(e: DriveEncoding) -> Seq<usize> {
    match e {
        DriveEncoding::MFM => seq![0usize, 1, 2, 3, 4, 5, 6, 7, 8, 9, 10, 15, 20, 25, 31, 32, 33, 34],
        DriveEncoding::RLL => seq![0usize, 1, 2, 3, 4, 5, 25, 26, 27, 28, 29, 30, 31, 32, 33, 34],
        DriveEncoding::PRML => seq![0usize, 1, 2, 3, 4, 5, 9, 14, 19, 24, 31, 32, 33, 34],
        DriveEncoding::Unknown => Seq::new(35, |i: int| i as usize),
    }
}

/// `buf` is `pattern` repeated from its first byte.
pub open spec fn repeats(buf: Seq<u8>, pattern: Seq<u8>) -> bool {
    forall|i: int| 0 <= i < buf.len() ==> #[trigger] buf[i] == pattern[i % (pattern.len() as int)]
}

/// The first index at which `buf` departs from `pattern` repeated.
pub open spec fn first_departure(buf: Seq<u8>, pattern: Seq<u8>, j: int) -> bool {
    0 <= j < buf.len() && buf[j] != pattern[j % (pattern.len() as int)] && forall|k: int|
        0 <= k < j ==> #[trigger] buf[k] == pattern[k % (pattern.len() as int)]
}

/// The encoding of a drive from what `smartctl -i` prints: PRML for solid
/// state and for a drive whose first rotation line gives an rpm, else not known.
pub open spec fn encoding_of(info: Seq<char>) -> DriveEncoding {
    if contains(info, "SSD"@) || contains(info, "NVMe"@) {
        DriveEncoding::PRML
    } else if rotation_line_rpm(lines(info)) {
        DriveEncoding::PRML
    } else {
        DriveEncoding::Unknown
    }
}

/// The first line that names the rotation rate gives it in rpm.
pub open spec fn rotation_line_rpm(ls: Seq<Seq<char>>) -> bool
    decreases ls.len(),
{
    if ls.len() == 0 {
        false
    } else if contains(ls[0], "Rotation Rate"@) {
        contains(ls[0], "rpm"@)
    } else {
        rotation_line_rpm(ls.drop_first())
    }
}

/// What Gutmann pass `i` (0-based) writes, in words.
pub open spec fn gutmann_description(i: int) -> Seq<char> {
    if i == 0 {
        "Random Pass 1"@
    } else if i == 1 {
        "Random Pass 2"@
    } else if i == 2 {
        "Random Pass 3"@
    } else if i == 3 {
        "Random Pass 4"@
    } else if i == 4 {
        "0x55 - MFM/RLL encoding"@
    } else if i == 5 {
        "0xAA - MFM/RLL encoding"@
    } else if i == 6 {
        "0x92 0x49 0x24 - MFM specific"@
    } else if i == 7 {
        "0x49 0x24 0x92 - MFM specific"@
    } else if i == 8 {
        "0x24 0x92 0x49 - MFM specific"@
    } else if i == 9 {
        "0x00 - All zeros"@
    } else if i == 10 {
        "0x11 - Pattern"@
    } else if i == 11 {
        "0x22 - Pattern"@
    } else if i == 12 {
        "0x33 - Pattern"@
    } else if i == 13 {
        "0x44 - Pattern"@
    } else if i == 14 {
        "0x55 - Pattern"@
    } else if i == 15 {
        "0x66 - Pattern"@
    } else if i == 16 {
        "0x77 - Pattern"@
    } else if i == 17 {
        "0x88 - Pattern"@
    } else if i == 18 {
        "0x99 - Pattern"@
    } else if i == 19 {
        "0xAA - Pattern"@
    } else if i == 20 {
        "0xBB - Pattern"@
    } else if i == 21 {
        "0xCC - Pattern"@
    } else if i == 22 {
        "0xDD - Pattern"@
    } else if i == 23 {
        "0xEE - Pattern"@
    } else if i == 24 {
        "0xFF - All ones"@
    } else if i == 25 {
        "RLL (2,7) pattern 1"@
    } else if i == 26 {
        "RLL (2,7) pattern 2"@
    } else if i == 27 {
        "RLL (2,7) pattern 3"@
    } else if i == 28 {
        "RLL (2,7) pattern 4"@
    } else if i == 29 {
        "RLL (2,7) pattern 5"@
    } else if i == 30 {
        "RLL (2,7) pattern 6"@
    } else if i == 31 {
        "Random Pass 32"@
    } else if i == 32 {
        "Random Pass 33"@
    } else if i == 33 {
        "Random Pass 34"@
    } else {
        "Random Pass 35"@
    }
}

impl GutmannWipe {
    /// The fixed bytes of pass `pass` (0-based, below 35).
    pub fn pattern_of_pass(pass: usize) -> (p: Option<Vec<u8>>)
        requires
            pass < 35,
        ensures
            match p {
                Some(v) => gutmann_pattern(pass as int) == Some(v@),
                None => gutmann_pattern(pass as int) is None,
            },
    {
        let r: Option<Vec<u8>> = if pass == 4 || pass == 14 {
            Some(vec![0x55u8])
        } else if pass == 5 || pass == 19 {
            Some(vec![0xAAu8])
        } else if pass == 6 || pass == 25 {
            Some(vec![0x92u8, 0x49, 0x24])
        } else if pass == 7 || pass == 26 {
            Some(vec![0x49u8, 0x24, 0x92])
        } else if pass == 8 || pass == 27 {
            Some(vec![0x24u8, 0x92, 0x49])
        } else if 9 <= pass && pass <= 24 {
            Some(vec![((pass - 9) * 17) as u8])
        } else if pass == 28 {
            Some(vec![0x6Du8, 0xB6, 0xDB])
        } else if pass == 29 {
            Some(vec![0xB6u8, 0xDB, 0x6D])
        } else if pass == 30 {
            Some(vec![0xDBu8, 0x6D, 0xB6])
        } else {
            None
        };
        proof {
            if r is Some {
                assert(r->0@ =~= gutmann_pattern(pass as int)->0);
            }
        }
        r
    }

    /// What pass `pass` (0-based, below 35) writes, in words.
    pub fn description_of_pass(pass: usize) -> (d: &'static str)
        requires
            pass < 35,
        ensures
            d@ == gutmann_description(pass as int),
    {
        match pass {
            0 => "Random Pass 1",
            1 => "Random Pass 2",
            2 => "Random Pass 3",
            3 => "Random Pass 4",
            4 => "0x55 - MFM/RLL encoding",
            5 => "0xAA - MFM/RLL encoding",
            6 => "0x92 0x49 0x24 - MFM specific",
            7 => "0x49 0x24 0x92 - MFM specific",
            8 => "0x24 0x92 0x49 - MFM specific",
            9 => "0x00 - All zeros",
            10 => "0x11 - Pattern",
            11 => "0x22 - Pattern",
            12 => "0x33 - Pattern",
            13 => "0x44 - Pattern",
            14 => "0x55 - Pattern",
            15 => "0x66 - Pattern",
            16 => "0x77 - Pattern",
            17 => "0x88 - Pattern",
            18 => "0x99 - Pattern",
            19 => "0xAA - Pattern",
            20 => "0xBB - Pattern",
            21 => "0xCC - Pattern",
            22 => "0xDD - Pattern",
            23 => "0xEE - Pattern",
            24 => "0xFF - All ones",
            25 => "RLL (2,7) pattern 1",
            26 => "RLL (2,7) pattern 2",
            27 => "RLL (2,7) pattern 3",
            28 => "RLL (2,7) pattern 4",
            29 => "RLL (2,7) pattern 5",
            30 => "RLL (2,7) pattern 6",
            31 => "Random Pass 32",
            32 => "Random Pass 33",
            33 => "Random Pass 34",
            _ => "Random Pass 35",
        }
    }

    /// The 35 passes: the fixed bytes of each (none for random data) and its
    /// description.
    pub fn gutmann_patterns() -> (v: Vec<(Option<Vec<u8>>, &'static str)>)
        ensures
            v@.len() == 35,
            forall|i: int|
                0 <= i < 35 ==> match #[trigger] v@[i].0 {
                    Some(p) => gutmann_pattern(i) == Some(p@),
                    None => gutmann_pattern(i) is None,
                },
            forall|i: int| 0 <= i < 35 ==> (#[trigger] v@[i]).1@ == gutmann_description(i),
    {
        let mut v: Vec<(Option<Vec<u8>>, &'static str)> = Vec::new();
        let mut i: usize = 0;
        while i < 35
            invariant
                i <= 35,
                v@.len() == i,
                forall|k: int|
                    0 <= k < i ==> match #[trigger] v@[k].0 {
                        Some(p) => gutmann_pattern(k) == Some(p@),
                        None => gutmann_pattern(k) is None,
                    },
                forall|k: int| 0 <= k < i ==> (#[trigger] v@[k]).1@ == gutmann_description(k),
            decreases 35 - i,
        {
            v.push((Self::pattern_of_pass(i), Self::description_of_pass(i)));
            i += 1;
        }
        v
    }

    /// The passes to run for an encoding (`optimized_passes`).
    pub fn get_optimized_patterns(encoding: DriveEncoding) -> (v: Vec<usize>)
        ensures
            v@ == optimized_passes(encoding),
    {
        match encoding {
            DriveEncoding::MFM => {
                let v = vec![0usize, 1, 2, 3, 4, 5, 6, 7, 8, 9, 10, 15, 20, 25, 31, 32, 33, 34];
                assert(v@ =~= optimized_passes(encoding));
                v
            },
            DriveEncoding::RLL => {
                let v = vec![0usize, 1, 2, 3, 4, 5, 25, 26, 27, 28, 29, 30, 31, 32, 33, 34];
                assert(v@ =~= optimized_passes(encoding));
                v
            },
            DriveEncoding::PRML => {
                let v = vec![0usize, 1, 2, 3, 4, 5, 9, 14, 19, 24, 31, 32, 33, 34];
                assert(v@ =~= optimized_passes(encoding));
                v
            },
            DriveEncoding::Unknown => {
                let mut v: Vec<usize> = Vec::new();
                let mut i: usize = 0;
                while i < 35
                    invariant
                        i <= 35,
                        v@ =~= Seq::new(i as nat, |k: int| k as usize),
                    decreases 35 - i,
                {
                    v.push(i);
                    i += 1;
                }
                v
            },
        }
    }

    /// The encoding of a drive from what `smartctl -i` printed (`encoding_of`);
    /// not known where smartctl could not be run.
    pub fn detect_drive_encoding(smartctl_info: Option<&str>) -> (e: DriveEncoding)
        ensures
            e == match smartctl_info {
                Some(info) => encoding_of(info@),
                None => DriveEncoding::Unknown,
            },
    {
        let info = match smartctl_info {
            None => {
                return DriveEncoding::Unknown;
            },
            Some(i) => i,
        };
        let cs = chars_of(info);
        if has_str(&cs, "SSD") || has_str(&cs, "NVMe") {
            return DriveEncoding::PRML;
        }
        let ls = split_lines(&cs);
        let ghost all = views(ls@);
        let mut i: usize = 0;
        assert(all.skip(0) =~= all);
        while i < ls.len()
            invariant
                all == views(ls@),
                all == lines(info@),
                smartctl_info == Some(info),
                !(contains(info@, "SSD"@) || contains(info@, "NVMe"@)),
                i <= all.len(),
                rotation_line_rpm(all) == rotation_line_rpm(all.skip(i as int)),
            decreases all.len() - i,
        {
            assert(all.skip(i as int).drop_first() =~= all.skip(i + 1));
            assert(all.skip(i as int)[0] == ls@[i as int]@);
            if has_str(&ls[i], "Rotation Rate") {
                if has_str(&ls[i], "rpm") {
                    return DriveEncoding::PRML;
                }
                return DriveEncoding::Unknown;
            }
            i += 1;
        }
        DriveEncoding::Unknown
    }

    /// Fills `buf` with `pattern` repeated from its first byte.
    pub fn fill_with_pattern(buf: &mut Vec<u8>, pattern: &[u8])
        requires
            pattern@.len() > 0,
        ensures
            final(buf)@.len() == old(buf)@.len(),
            repeats(final(buf)@, pattern@),
    {
        let plen = pattern.len();
        let mut i: usize = 0;
        while i < buf.len()
            invariant
                plen == pattern@.len(),
                plen > 0,
                i <= buf@.len(),
                buf@.len() == old(buf)@.len(),
                forall|k: int| 0 <= k < i ==> #[trigger] buf@[k] == pattern@[k % plen as int],
            decreases buf@.len() - i,
        {
            let b = pattern[i % plen];
            buf.set(i, b);
            i += 1;
        }
    }

    /// The first index at which `buf` departs from `pattern` repeated, if any.
    pub fn pattern_mismatch(buf: &[u8], pattern: &[u8]) -> (r: Option<usize>)
        requires
            pattern@.len() > 0,
        ensures
            match r {
                Some(j) => first_departure(buf@, pattern@, j as int),
                None => repeats(buf@, pattern@),
            },
    {
        let plen = pattern.len();
        let mut j: usize = 0;
        while j < buf.len()
            invariant
                plen == pattern@.len(),
                plen > 0,
                j <= buf@.len(),
                forall|k: int| 0 <= k < j ==> #[trigger] buf@[k] == pattern@[k % plen as int],
            decreases buf@.len() - j,
        {
            if buf[j] != pattern[j % plen] {
                return Some(j);
            }
            j += 1;
        }
        None
    }
}

impl DoDWipe {
    /// The byte that pass `pass` (1 or 2) writes; pass 3 writes random data.
    pub fn pass_pattern(pass: usize) -> (b: Option<u8>)
        ensures
            pass == 1 ==> b == Some(0x00u8),
            pass == 2 ==> b == Some(0xFFu8),
            pass != 1 && pass != 2 ==> b is None,
    {
        if pass == 1 {
            Some(Self::PASS_1_PATTERN)
        } else if pass == 2 {
            Some(Self::PASS_2_PATTERN)
        } else {
            None
        }
    }
}

/// The passes, 0-based, that a run of `count` passes resumed at `start` still
/// makes: those from `start` on.
pub open spec fn passes_from(count: nat, start: nat) -> Seq<usize> {
    if start >= count {
        Seq::empty()
    } else {
        Seq::new((count - start) as nat, |i: int| (start + i) as usize)
    }
}

/// The passes still to make, in order, of `count` passes resumed at `start`.
pub fn remaining_passes(count: usize, start: usize) -> (v: Vec<usize>)
    ensures
        v@ == passes_from(count as nat, start as nat),
{
    let mut v: Vec<usize> = Vec::new();
    let mut p: usize = start;
    if p >= count {
        return v;
    }
    while p < count
        invariant
            start <= p <= count,
            v@ == Seq::new((p - start) as nat, |i: int| (start + i) as usize),
        decreases count - p,
    {
        v.push(p);
        p += 1;
        assert(v@ =~= Seq::new((p - start) as nat, |i: int| (start + i) as usize));
    }
    v
}

/// The record kept after pass `pass` (0-based) of a multi-pass overwrite of
/// `size` bytes: the number of passes done and the bytes written so far.
pub fn checkpoint_after(pass: usize, size: u64) -> (r: (usize, u64))
    requires
        pass < usize::MAX,
        (pass + 1) * size <= u64::MAX,
    ensures
        r.0 == pass + 1,
        r.1 == (pass + 1) * size,
{
    let done: usize = pass + 1;
    let n: u64 = done as u64;
    assert(n * size <= u64::MAX);
    (done, n * size)
}

/// The bytes read back per verification sample.
pub const SAMPLE_SIZE: u64 = 4096;

/// The most verification samples read back per pass.
pub const MAX_SAMPLES: u64 = 1000;

/// The number of samples read back from `size` bytes.
pub open spec fn sample_count(size: nat) -> nat {
    if size / (SAMPLE_SIZE as nat) < MAX_SAMPLES as nat {
        size / (SAMPLE_SIZE as nat)
    } else {
        MAX_SAMPLES as nat
    }
}

/// Sample `i` of `size` bytes: evenly spaced, each `SAMPLE_SIZE` bytes long
/// or up to the end of the device.
pub open spec fn sample_at(size: nat, i: nat) -> (u64, u64) {
    let step = size / sample_count(size);
    let offset = i * step;
    let len = if size - offset < SAMPLE_SIZE as int {
        (size - offset) as nat
    } else {
        SAMPLE_SIZE as nat
    };
    (offset as u64, len as u64)
}

proof fn lemma_sample_inside(size: nat, n: nat, i: nat)
    requires
        n > 0,
        i < n,
    ensures
        i * (size / n) < size || size < n,
        i * (size / n) <= size,
{
    assert(i * (size / n) <= (n - 1) * (size / n)) by (nonlinear_arith)
        requires
            i < n,
    ;
    assert(n * (size / n) <= size) by (nonlinear_arith)
        requires
            n > 0,
    ;
    assert((n - 1) * (size / n) + (size / n) == n * (size / n)) by (nonlinear_arith);
    if size >= n {
        assert(size / n >= 1) by (nonlinear_arith)
            requires
                size >= n,
                n > 0,
        ;
    }
}

impl GutmannWipe {
    /// The passes still to make of the 35, resumed at `start_pass`.
    pub fn remaining_passes(start_pass: usize) -> (v: Vec<usize>)
        ensures
            v@ == passes_from(35, start_pass as nat),
    {
        remaining_passes(35, start_pass)
    }

    /// Where a pass of `size` bytes is read back: `min(1000, size / 4096)`
    /// samples, `size / count` bytes apart from offset 0, each 4096 bytes or
    /// what is left of the device. A device under 4096 bytes gives no
    /// sample count to space them by, so it is left out.
    pub fn verification_samples(size: u64) -> (v: Vec<(u64, u64)>)
        requires
            size >= SAMPLE_SIZE,
        ensures
            v@.len() == sample_count(size as nat),
            forall|i: int| 0 <= i < v@.len() ==> #[trigger] v@[i] == sample_at(size as nat, i as nat),
            forall|i: int| 0 <= i < v@.len() ==> (#[trigger] v@[i]).0 + v@[i].1 <= size,
    {
        let per: u64 = size / SAMPLE_SIZE;
        let n: u64 = if per < MAX_SAMPLES { per } else { MAX_SAMPLES };
        assert(n == sample_count(size as nat));
        assert(n >= 1);
        let step: u64 = size / n;
        let mut v: Vec<(u64, u64)> = Vec::new();
        let mut i: u64 = 0;
        while i < n
            invariant
                n == sample_count(size as nat),
                n >= 1,
                step == size / n,
                i <= n,
                v@.len() == i,
                forall|k: int| 0 <= k < i ==> #[trigger] v@[k] == sample_at(size as nat, k as nat),
                forall|k: int| 0 <= k < i ==> (#[trigger] v@[k]).0 + v@[k].1 <= size,
            decreases n - i,
        {
            proof {
                lemma_sample_inside(size as nat, n as nat, i as nat);
            }
            let offset: u64 = i * step;
            let rest: u64 = size - offset;
            let len: u64 = if rest < SAMPLE_SIZE { rest } else { SAMPLE_SIZE };
            v.push((offset, len));
            i += 1;
        }
        v
    }

    /// The offset of a random read-back probe from a random 64-bit value `r`:
    /// `r` modulo the size less one sample. The size must exceed one sample.
    pub fn probe_offset(r: u64, size: u64) -> (o: u64)
        requires
            size > SAMPLE_SIZE,
        ensures
            o == r % ((size - SAMPLE_SIZE) as u64),
            o + SAMPLE_SIZE < size,
    {
        r % (size - SAMPLE_SIZE)
    }
}

impl DoDWipe {
    /// The passes still to make of the three, resumed at `start_pass`.
    pub fn remaining_passes(start_pass: usize) -> (v: Vec<usize>)
        ensures
            v@ == passes_from(3, start_pass as nat),
    {
        remaining_passes(Self::PASS_COUNT, start_pass)
    }
}

impl ZeroWipe {
    /// Whether a block read back after a zero pass holds zeros only.
    pub fn is_all_zero(data: &[u8]) -> (b: bool)
        ensures
            b <==> forall|k: int| 0 <= k < data@.len() ==> #[trigger] data@[k] == 0u8,
    {
        let mut j: usize = 0;
        while j < data.len()
            invariant
                j <= data@.len(),
                forall|k: int| 0 <= k < j ==> #[trigger] data@[k] == 0u8,
            decreases data@.len() - j,
        {
            if data[j] != 0 {
                return false;
            }
            j += 1;
        }
        true
    }
}

/// Law: the first four and the last four of Gutmann's passes write random
/// data.
pub proof fn lemma_gutmann_random_ends(i: int)
    requires
        0 <= i < 4 || 31 <= i < 35,
    ensures
        gutmann_pattern(i) is None,
{
}

/// Law: each encoding keeps some of the 35 passes, in their order, always
/// with the four random passes at each end; only an unknown encoding keeps
/// all 35.
pub proof fn lemma_optimized_passes(e: DriveEncoding)
    ensures
        forall|i: int, j: int|
            0 <= i < j < optimized_passes(e).len() ==> optimized_passes(e)[i] < optimized_passes(e)[j],
        forall|i: int| 0 <= i < optimized_passes(e).len() ==> optimized_passes(e)[i] < 35,
        forall|k: usize| (k < 4 || (31 <= k && k < 35)) ==> optimized_passes(e).contains(k),
        (e == DriveEncoding::Unknown) <==> optimized_passes(e).len() == 35,
{
    let s = optimized_passes(e);
    match e {
        DriveEncoding::Unknown => {
            assert forall|k: usize| (k < 4 || (31 <= k && k < 35)) implies s.contains(k) by {
                assert(s[k as int] == k);
            }
        },
        _ => {
            assert forall|k: usize| (k < 4 || (31 <= k && k < 35)) implies s.contains(k) by {
                if k < 4 {
                    assert(s[k as int] == k);
                } else {
                    assert(s[s.len() - 35 + k] == k);
                }
            }
        },
    }
}

/// Law: resuming a run of `count` passes at `start` makes exactly the
/// passes not yet made, in order: those of the whole run from `start` on.
pub proof fn lemma_resume_skips_done_passes(count: nat, start: nat)
    requires
        start <= count,
        count <= usize::MAX,
    ensures
        passes_from(count, start) == passes_from(count, 0).skip(start as int),
        passes_from(count, 0).len() == count,
        forall|i: int| 0 <= i < count ==> passes_from(count, 0)[i] == i,
{
    assert(passes_from(count, start) =~= passes_from(count, 0).skip(start as int));
}

/// Law: the encoding read from `smartctl -i` is never one of the old
/// encodings (MFM, RLL): a report naming "SSD" or "NVMe" is PRML, as is one
/// whose first line naming the rotation rate gives it in rpm; anything else
/// is not known, so all passes are run.
pub proof fn lemma_detected_encoding(info: Seq<char>)
    ensures
        encoding_of(info) == DriveEncoding::PRML || encoding_of(info) == DriveEncoding::Unknown,
        contains(info, "SSD"@) || contains(info, "NVMe"@) ==> encoding_of(info) == DriveEncoding::PRML,
        (exists|i: int|
            0 <= i < lines(info).len() && contains(#[trigger] lines(info)[i], "Rotation Rate"@)
                && contains(lines(info)[i], "rpm"@) && forall|j: int|
                0 <= j < i ==> !contains(#[trigger] lines(info)[j], "Rotation Rate"@)) ==> encoding_of(
            info,
        ) == DriveEncoding::PRML,
        (!contains(info, "SSD"@) && !contains(info, "NVMe"@) && forall|i: int|
            0 <= i < lines(info).len() ==> !contains(#[trigger] lines(info)[i], "rpm"@))
            ==> encoding_of(info) == DriveEncoding::Unknown,
{
    let ls = lines(info);
    if exists|i: int|
        0 <= i < ls.len() && contains(#[trigger] ls[i], "Rotation Rate"@) && contains(ls[i], "rpm"@)
            && forall|j: int| 0 <= j < i ==> !contains(#[trigger] ls[j], "Rotation Rate"@) {
        let i = choose|i: int|
            0 <= i < ls.len() && contains(#[trigger] ls[i], "Rotation Rate"@) && contains(ls[i], "rpm"@)
                && forall|j: int| 0 <= j < i ==> !contains(#[trigger] ls[j], "Rotation Rate"@);
        lemma_first_rotation_line(ls, i);
    }
    if forall|i: int| 0 <= i < ls.len() ==> !contains(#[trigger] ls[i], "rpm"@) {
        lemma_no_rpm_line(ls);
    }
}

proof fn lemma_first_rotation_line(ls: Seq<Seq<char>>, i: int)
    requires
        0 <= i < ls.len(),
        contains(ls[i], "Rotation Rate"@),
        contains(ls[i], "rpm"@),
        forall|j: int| 0 <= j < i ==> !contains(#[trigger] ls[j], "Rotation Rate"@),
    ensures
        rotation_line_rpm(ls),
    decreases i,
{
    if i > 0 {
        assert(!contains(ls[0], "Rotation Rate"@));
        let rest = ls.drop_first();
        assert forall|j: int| 0 <= j < i - 1 implies !contains(#[trigger] rest[j], "Rotation Rate"@) by {
            assert(rest[j] == ls[j + 1]);
        }
        assert(rest[i - 1] == ls[i]);
        lemma_first_rotation_line(rest, i - 1);
    }
}

proof fn lemma_no_rpm_line(ls: Seq<Seq<char>>)
    requires
        forall|i: int| 0 <= i < ls.len() ==> !contains(#[trigger] ls[i], "rpm"@),
    ensures
        !rotation_line_rpm(ls),
    decreases ls.len(),
{
    if ls.len() > 0 {
        assert(!contains(ls[0], "rpm"@));
        let rest = ls.drop_first();
        assert forall|i: int| 0 <= i < rest.len() implies !contains(#[trigger] rest[i], "rpm"@) by {
            assert(rest[i] == ls[i + 1]);
        }
        lemma_no_rpm_line(rest);
    }
}

} // verus!
