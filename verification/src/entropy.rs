//! The entropy sources behind the secure random generator: the hardware
//! generator and `/dev/urandom`, known here by whether they could be opened,
//! and the timing-jitter source, whose samples are mixed and whose raw bytes
//! are whitened with SHA-512. Reading the devices and the clocks is left to
//! the caller.
use vstd::prelude::*;

use crate::drbg::{append_slice, le_bytes, le_bytes_exec};

verus! {

/// The SHA-512 digest of `data`.
pub uninterp spec fn sha512(data: Seq<u8>) -> Seq<u8>;

/// `sha2::Sha512::digest`: the SHA-512 digest of `data`, 64 bytes.
#[verifier::external_body]
fn sha512_digest(data: &[u8]) -> (d: Vec<u8>)
    ensures
        d@ == sha512(data@),
        d@.len() == 64,
{
    <sha2::Sha512 as sha2::Digest>::digest(data).to_vec()
}

/// The hardware generator (`/dev/hwrng`).
pub struct HardwareRNG {
    available: bool,
}

/// The system's `/dev/urandom`.
pub struct URandom {
    available: bool,
}

/// The timing-jitter source: the last timing it saw.
pub struct JitterEntropy {
    last_value: u64,
}

impl HardwareRNG {
    /// Whether the device could be opened and read.
    pub closed spec fn available(&self) -> bool {
        self.available
    }

    /// The source, as the probe of the device found it.
    pub fn new(available: bool) -> (r: Self)
        ensures
            r.available() == available,
    {
        HardwareRNG { available }
    }

    /// Whether the source can be read.
    pub fn is_available(&self) -> (b: bool)
        ensures
            b == self.available(),
    {
        self.available
    }

    /// The name of the source.
    pub fn name(&self) -> (s: &'static str)
        ensures
            s@ == "HardwareRNG"@,
    {
        "HardwareRNG"
    }

    /// Whether bytes may be read: the error where the device is missing.
    pub fn ready(&self) -> (r: Result<(), String>)
        ensures
            self.available() <==> r is Ok,
            r matches Err(m) ==> m@ == "Hardware RNG not available"@,
    {
        if self.available {
            Ok(())
        } else {
            Err("Hardware RNG not available".to_string())
        }
    }
}

impl URandom {
    /// Whether `/dev/urandom` exists.
    pub closed spec fn available(&self) -> bool {
        self.available
    }

    /// The source, as the check for the device found it.
    pub fn new(available: bool) -> (r: Self)
        ensures
            r.available() == available,
    {
        URandom { available }
    }

    /// Whether the source can be read.
    pub fn is_available(&self) -> (b: bool)
        ensures
            b == self.available(),
    {
        self.available
    }

    /// The name of the source.
    pub fn name(&self) -> (s: &'static str)
        ensures
            s@ == "URandom"@,
    {
        "URandom"
    }

    /// Whether bytes may be read: the error where the device is missing.
    pub fn ready(&self) -> (r: Result<(), String>)
        ensures
            self.available() <==> r is Ok,
            r matches Err(m) ==> m@ == "/dev/urandom not available"@,
    {
        if self.available {
            Ok(())
        } else {
            Err("/dev/urandom not available".to_string())
        }
    }
}

/// The whitened block that byte `i` of the output comes from: the digest of
/// the raw bytes for the first 64, then that of the raw bytes followed by a
/// block counter (0, 1, ...) as 8 little-endian bytes, 64 bytes each.
pub open spec fn block_index(i: nat) -> nat {
    if i < 64 {
        0
    } else {
        i / 64
    }
}

/// Whitened block `k` of `raw`.
pub open spec fn whitened_block(raw: Seq<u8>, k: nat) -> Seq<u8> {
    if k == 0 {
        sha512(raw)
    } else {
        sha512(raw + le_bytes((k - 1) as nat, 8))
    }
}

/// Byte `i` of the whitened output of `raw`.
pub open spec fn whitened_byte(raw: Seq<u8>, i: nat) -> u8 {
    whitened_block(raw, block_index(i))[(i % 64) as int]
}

impl JitterEntropy {
    /// The last timing seen.
    pub closed spec fn last(&self) -> u64 {
        self.last_value
    }

    /// A source that has seen no timing yet.
    pub fn new() -> (r: Self)
        ensures
            r.last() == 0,
    {
        JitterEntropy { last_value: 0 }
    }

    /// The name of the source.
    pub fn name(&self) -> (s: &'static str)
        ensures
            s@ == "JitterEntropy"@,
    {
        "JitterEntropy"
    }

    /// The jitter source can always be read.
    pub fn is_available(&self) -> (b: bool)
        ensures
            b,
    {
        true
    }

    /// Mixes one timing sample: the elapsed nanoseconds XOR the last ones XOR
    /// the system time; the elapsed time becomes the last.
    pub fn mix_sample(&mut self, elapsed: u64, sys_time: u64) -> (d: u64)
        ensures
            d == elapsed ^ old(self).last() ^ sys_time,
            final(self).last() == elapsed,
    {
        let d = elapsed ^ self.last_value ^ sys_time;
        self.last_value = elapsed;
        d
    }

    /// `len` bytes whitened from the raw timing bytes (`whitened_byte`).
    pub fn whiten(raw: &[u8], len: usize) -> (out: Vec<u8>)
        ensures
            out@.len() == len,
            forall|i: int| 0 <= i < len ==> #[trigger] out@[i] == whitened_byte(raw@, i as nat),
    {
        let mut block = sha512_digest(raw);
        let mut k: usize = 0;
        let mut out: Vec<u8> = Vec::new();
        let mut i: usize = 0;
        while i < len
            invariant
                i <= len,
                out@.len() == i,
                i < 64 ==> k == 0,
                block@.len() == 64,
                block@ == whitened_block(raw@, k as nat),
                forall|j: int| 0 <= j < i ==> #[trigger] out@[j] == whitened_byte(raw@, j as nat),
            decreases len - i,
        {
            let want: usize = if i < 64 {
                0
            } else {
                i / 64
            };
            if want != k {
                let mut input = vstd::slice::slice_to_vec(raw);
                let counter = le_bytes_exec((want - 1) as u128, 8);
                append_slice(&mut input, counter.as_slice());
                block = sha512_digest(input.as_slice());
                k = want;
            }
            out.push(block[i % 64]);
            i += 1;
        }
        out
    }
}

impl Default for JitterEntropy {
    fn default() -> (r: Self)
        ensures
            r.last() == 0,
    {
        Self::new()
    }
}

} // verus!
