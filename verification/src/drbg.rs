//! SHA-256 through the `sha2` crate, HMAC-SHA256 built on it, the HMAC-DRBG
//! of NIST SP 800-90A, the entropy pool that seeds it, and the FIPS 140-2
//! continuous test.
use vstd::prelude::*;

verus! {

// ---------------------------------------------------------------------------
// SHA-256
// ---------------------------------------------------------------------------

/// The SHA-256 digest of a byte sequence.
pub uninterp spec fn sha256(data: Seq<u8>) -> Seq<u8>;

/// `sha2::Sha256::digest`: the SHA-256 digest of `data`, 32 bytes.
#[verifier::external_body]
pub(crate) fn sha256_digest(data: &[u8]) -> (d: Vec<u8>)
    ensures
        d@ == sha256(data@),
        d@.len() == 32,
{
    <sha2::Sha256 as sha2::Digest>::digest(data).to_vec()
}

/// The lower-case hex digit of `d < 16`.
pub open spec fn hex_digit(d: u8) -> char {
    if d < 10 {
        (48 + d) as char
    } else {
        (87 + d) as char
    }
}

/// Lower-case hex, two digits a byte, as `{:x}` prints a digest.
pub open spec fn hex(b: Seq<u8>) -> Seq<char>
    decreases b.len(),
{
    if b.len() == 0 {
        seq![]
    } else {
        hex(b.drop_last()) + seq![hex_digit(b.last() / 16), hex_digit(b.last() % 16)]
    }
}

fn hex_digit_exec(d: u8) -> (c: char)
    requires
        d < 16,
    ensures
        c == hex_digit(d),
{
    let x: u8 = if d < 10 {
        48 + d
    } else {
        87 + d
    };
    x as char
}

/// The lower-case hex text of `b`.
pub fn hex_string(b: &[u8]) -> (s: String)
    ensures
        s@ == hex(b@),
{
    let mut v: Vec<char> = Vec::new();
    let mut i: usize = 0;
    assert(b@.take(0) =~= Seq::<u8>::empty());
    while i < b.len()
        invariant
            i <= b@.len(),
            v@ == hex(b@.take(i as int)),
        decreases b@.len() - i,
    {
        assert(b@.take(i + 1).drop_last() =~= b@.take(i as int));
        let x = b[i];
        v.push(hex_digit_exec(x / 16));
        v.push(hex_digit_exec(x % 16));
        proof {
            assert(v@ =~= hex(b@.take(i as int)) + seq![hex_digit(x / 16), hex_digit(x % 16)]);
        }
        i += 1;
    }
    assert(b@.take(i as int) =~= b@);
    crate::text::string_from_chars(&v)
}

// ---------------------------------------------------------------------------
// HMAC-SHA256
// ---------------------------------------------------------------------------

/// The HMAC key block: the key, or its digest where it is longer than the
/// 64-byte block, padded with zeros to 64 bytes.
pub open spec fn key_block(key: Seq<u8>) -> Seq<u8> {
    let k = if key.len() > 64 {
        sha256(key)
    } else {
        key
    };
    k + Seq::new((64 - k.len()) as nat, |i: int| 0u8)
}

/// The key block XOR a pad byte.
pub open spec fn padded(kb: Seq<u8>, pad: u8) -> Seq<u8> {
    Seq::new(64, |i: int| kb[i] ^ pad)
}

/// HMAC-SHA256 (RFC 2104).
pub open spec fn hmac(key: Seq<u8>, data: Seq<u8>) -> Seq<u8> {
    let kb = key_block(key);
    sha256(padded(kb, 0x5c) + sha256(padded(kb, 0x36) + data))
}

/// Appends the bytes of `s` to `v`.
pub fn append_slice(v: &mut Vec<u8>, s: &[u8])
    ensures
        final(v)@ == old(v)@ + s@,
{
    let mut i: usize = 0;
    let ghost start = v@;
    while i < s.len()
        invariant
            i <= s@.len(),
            v@ == start + s@.take(i as int),
        decreases s@.len() - i,
    {
        v.push(s[i]);
        assert(s@.take(i + 1) =~= s@.take(i as int).push(s@[i as int]));
        i += 1;
    }
    assert(s@.take(i as int) =~= s@);
}

/// HMAC-SHA256 of `data` under `key`.
pub fn hmac_sha256(key: &[u8], data: &[u8]) -> (mac: Vec<u8>)
    ensures
        mac@ == hmac(key@, data@),
        mac@.len() == 32,
{
    let mut kb: Vec<u8> = if key.len() > 64 {
        sha256_digest(key)
    } else {
        vstd::slice::slice_to_vec(key)
    };
    let ghost k0 = kb@;
    assert(k0.len() <= 64);
    while kb.len() < 64
        invariant
            kb@.len() <= 64,
            kb@ == k0 + Seq::new((kb@.len() - k0.len()) as nat, |i: int| 0u8),
        decreases 64 - kb@.len(),
    {
        kb.push(0u8);
        assert(kb@ =~= k0 + Seq::new((kb@.len() - k0.len()) as nat, |i: int| 0u8));
    }
    assert(kb@ =~= key_block(key@));
    let mut inner_in: Vec<u8> = Vec::new();
    let mut outer_in: Vec<u8> = Vec::new();
    let mut i: usize = 0;
    while i < 64
        invariant
            kb@.len() == 64,
            i <= 64,
            inner_in@ =~= Seq::new(i as nat, |j: int| kb@[j] ^ 0x36u8),
            outer_in@ =~= Seq::new(i as nat, |j: int| kb@[j] ^ 0x5cu8),
        decreases 64 - i,
    {
        inner_in.push(kb[i] ^ 0x36u8);
        outer_in.push(kb[i] ^ 0x5cu8);
        i += 1;
    }
    assert(inner_in@ =~= padded(kb@, 0x36));
    assert(outer_in@ =~= padded(kb@, 0x5c));
    append_slice(&mut inner_in, data);
    let inner = sha256_digest(inner_in.as_slice());
    append_slice(&mut outer_in, inner.as_slice());
    sha256_digest(outer_in.as_slice())
}

// ---------------------------------------------------------------------------
// HMAC-DRBG
// ---------------------------------------------------------------------------

/// The DRBG update: the key and value after absorbing `data`; a second
/// round with the byte 1 where `data` is not empty.
pub open spec fn drbg_update(k: Seq<u8>, v: Seq<u8>, data: Seq<u8>) -> (Seq<u8>, Seq<u8>) {
    let k1 = hmac(k, v + seq![0u8] + data);
    let v1 = hmac(k1, v);
    if data.len() == 0 {
        (k1, v1)
    } else {
        let k2 = hmac(k1, v1 + seq![1u8] + data);
        (k2, hmac(k2, v1))
    }
}

/// The initial key: 32 zero bytes.
pub open spec fn initial_key() -> Seq<u8> {
    Seq::new(32, |i: int| 0u8)
}

/// The initial value: 32 bytes of 1.
pub open spec fn initial_value() -> Seq<u8> {
    Seq::new(32, |i: int| 1u8)
}

/// `n` output blocks under key `k` from value `v`: each block is the next
/// value, `V = HMAC(K, V)`; with the value after the last block.
pub open spec fn drbg_blocks(k: Seq<u8>, v: Seq<u8>, n: nat) -> (Seq<u8>, Seq<u8>)
    decreases n,
{
    if n == 0 {
        (seq![], v)
    } else {
        let prev = drbg_blocks(k, v, (n - 1) as nat);
        let next = hmac(k, prev.1);
        (prev.0 + next, next)
    }
}

/// Why a generate request was refused.
#[derive(Debug, Clone, Copy, PartialEq, Eq, Structural)]
pub enum DrbgError {
    /// The DRBG has served its requests and must be reseeded.
    ReseedRequired,
}

/// An HMAC-DRBG (HMAC-SHA256).
pub struct HmacDrbg {
    k: Vec<u8>,
    v: Vec<u8>,
    /// Requests served since the last (re)seed, from 1.
    pub reseed_counter: u64,
}

impl HmacDrbg {
    /// The number of requests after which the DRBG must be reseeded (2^48).
    pub const MAX_REQUESTS: u64 = 0x1_0000_0000_0000;

    /// The request counter.
    pub closed spec fn counter(&self) -> u64 {
        self.reseed_counter
    }

    /// The key.
    pub closed spec fn key(&self) -> Seq<u8> {
        self.k@
    }

    /// The value.
    pub closed spec fn value(&self) -> Seq<u8> {
        self.v@
    }

    /// Instantiates the DRBG from seed material: the update of the initial
    /// key and value with the seed, the counter at 1.
    pub fn new(seed_material: &[u8]) -> (d: HmacDrbg)
        ensures
            (d.key(), d.value()) == drbg_update(initial_key(), initial_value(), seed_material@),
            d.counter() == 1,
    {
        let mut d = HmacDrbg { k: vec![0u8; 32], v: vec![1u8; 32], reseed_counter: 1 };
        assert(d.k@ =~= initial_key());
        assert(d.v@ =~= initial_value());
        d.update(seed_material);
        d
    }

    fn update(&mut self, provided_data: &[u8])
        ensures
            (final(self).key(), final(self).value()) == drbg_update(
                old(self).key(),
                old(self).value(),
                provided_data@,
            ),
            final(self).counter() == old(self).counter(),
    {
        let mut t: Vec<u8> = Vec::new();
        append_slice(&mut t, self.v.as_slice());
        t.push(0u8);
        append_slice(&mut t, provided_data);
        assert(t@ =~= old(self).v@ + seq![0u8] + provided_data@);
        self.k = hmac_sha256(self.k.as_slice(), t.as_slice());
        self.v = hmac_sha256(self.k.as_slice(), self.v.as_slice());
        if provided_data.len() > 0 {
            let mut t2: Vec<u8> = Vec::new();
            append_slice(&mut t2, self.v.as_slice());
            t2.push(1u8);
            append_slice(&mut t2, provided_data);
            let ghost v1 = self.v@;
            assert(t2@ =~= v1 + seq![1u8] + provided_data@);
            self.k = hmac_sha256(self.k.as_slice(), t2.as_slice());
            self.v = hmac_sha256(self.k.as_slice(), self.v.as_slice());
        }
    }

    /// Reseeds: the update with the seed material, the counter back at 1.
    pub fn reseed(&mut self, seed_material: &[u8])
        ensures
            (final(self).key(), final(self).value()) == drbg_update(
                old(self).key(),
                old(self).value(),
                seed_material@,
            ),
            final(self).counter() == 1,
    {
        self.update(seed_material);
        self.reseed_counter = 1;
    }

    /// Fills `out` with output. Refused, with nothing changed, once the
    /// counter has reached `MAX_REQUESTS`. Otherwise `out` takes the first
    /// bytes of the blocks that cover it, the key and value are updated
    /// from the last block with no data, and the counter goes up by one.
    pub fn generate(&mut self, out: &mut Vec<u8>) -> (r: Result<(), DrbgError>)
        ensures
            old(self).counter() >= Self::MAX_REQUESTS ==> r == Err::<(), DrbgError>(
                DrbgError::ReseedRequired,
            ) && final(self).key() == old(self).key() && final(self).value() == old(self).value()
                && final(self).counter() == old(self).counter() && final(out)@ == old(out)@,
            final(out)@.len() == old(out)@.len(),
            old(self).counter() < Self::MAX_REQUESTS ==> r is Ok && ({
                let blocks = drbg_blocks(
                    old(self).key(),
                    old(self).value(),
                    ((old(out)@.len() + 31) / 32) as nat,
                );
                &&& final(out)@ == blocks.0.take(old(out)@.len() as int)
                &&& (final(self).key(), final(self).value()) == drbg_update(
                    old(self).key(),
                    blocks.1,
                    seq![],
                )
                &&& final(self).counter() == old(self).counter() + 1
            }),
    {
        if self.reseed_counter >= Self::MAX_REQUESTS {
            return Err(DrbgError::ReseedRequired);
        }
        let n = out.len();
        let ghost k = self.k@;
        let ghost v0 = self.v@;
        let mut generated: Vec<u8> = Vec::new();
        let mut blocks: usize = 0;
        while generated.len() < n
            invariant
                self.k@ == k,
                generated@.len() == 32 * blocks,
                blocks <= (n + 31) / 32,
                (generated@, self.v@) == drbg_blocks(k, v0, blocks as nat),
                generated@.len() < n ==> blocks < (n + 31) / 32,
                self.reseed_counter == old(self).counter(),
                self.reseed_counter < Self::MAX_REQUESTS,
                n == old(out)@.len(),
                out@ == old(out)@,
            decreases (n + 31) / 32 - blocks,
        {
            self.v = hmac_sha256(self.k.as_slice(), self.v.as_slice());
            append_slice(&mut generated, self.v.as_slice());
            blocks += 1;
            assert(blocks <= (n + 31) / 32);
            proof {
                if generated@.len() < n {
                    assert(32 * blocks < n);
                    assert(blocks < (n + 31) / 32) by (nonlinear_arith)
                        requires
                            32 * blocks < n,
                    ;
                }
            }
        }
        proof {
            assert(blocks == (n + 31) / 32) by (nonlinear_arith)
                requires
                    32 * blocks >= n,
                    blocks <= (n + 31) / 32,
            ;
        }
        let mut i: usize = 0;
        while i < n
            invariant
                i <= n,
                n == out@.len(),
                n <= generated@.len(),
                forall|j: int| 0 <= j < i ==> out@[j] == generated@[j],
            decreases n - i,
        {
            out.set(i, generated[i]);
            i += 1;
        }
        assert(out@ =~= generated@.take(n as int));
        let empty: Vec<u8> = Vec::new();
        assert(empty@ =~= Seq::<u8>::empty());
        self.update(empty.as_slice());
        self.reseed_counter = self.reseed_counter + 1;
        Ok(())
    }

    /// Whether the DRBG must be reseeded before it serves another request.
    pub fn needs_reseed(&self) -> (b: bool)
        ensures
            b == (self.counter() >= Self::MAX_REQUESTS),
    {
        self.reseed_counter >= Self::MAX_REQUESTS
    }
}

// ---------------------------------------------------------------------------
// Entropy pool
// ---------------------------------------------------------------------------

/// The size of the entropy pool.
pub const POOL_SIZE: usize = 512;

/// `pool` with `data` XORed in from `pos` onwards, wrapping around, byte by
/// byte in order.
pub open spec fn mix_in(pool: Seq<u8>, pos: nat, data: Seq<u8>) -> Seq<u8>
    decreases data.len(),
{
    if data.len() == 0 {
        pool
    } else {
        let p = mix_in(pool, pos, data.drop_last());
        let idx = ((pos + data.len() - 1) % (pool.len() as int)) as int;
        p.update(idx, p[idx] ^ data.last())
    }
}

proof fn lemma_mix_in_len(pool: Seq<u8>, pos: nat, data: Seq<u8>)
    requires
        pool.len() > 0,
    ensures
        mix_in(pool, pos, data).len() == pool.len(),
    decreases data.len(),
{
    if data.len() > 0 {
        lemma_mix_in_len(pool, pos, data.drop_last());
    }
}

/// The little-endian bytes of `n`, `k` of them.
pub open spec fn le_bytes(n: nat, k: nat) -> Seq<u8>
    decreases k,
{
    if k == 0 {
        seq![]
    } else {
        seq![(n % 256) as u8] + le_bytes(n / 256, (k - 1) as nat)
    }
}

pub fn le_bytes_exec(n: u128, k: usize) -> (b: Vec<u8>)
    ensures
        b@ == le_bytes(n as nat, k as nat),
    decreases k,
{
    if k == 0 {
        let b: Vec<u8> = Vec::new();
        assert(b@ =~= le_bytes(n as nat, 0));
        b
    } else {
        let mut b: Vec<u8> = Vec::new();
        b.push((n % 256) as u8);
        let mut rest = le_bytes_exec(n / 256, k - 1);
        b.append(&mut rest);
        assert(b@ =~= le_bytes(n as nat, k as nat));
        b
    }
}

/// The seed that the pool gives at a time: the digest of the pool, the
/// position as 8 little-endian bytes and the time in nanoseconds as 16.
pub open spec fn pool_seed(pool: Seq<u8>, pos: nat, time_nanos: nat) -> Seq<u8> {
    sha256(pool + le_bytes(pos, 8) + le_bytes(time_nanos, 16))
}

/// A pool that mixes entropy from several sources.
pub struct EntropyPool {
    pool: Vec<u8>,
    position: usize,
}

/// The time since the Unix epoch, in nanoseconds, as `SystemTime::now` gives it.
#[verifier::external_body]
fn now_nanos() -> (t: u128) {
    match std::time::SystemTime::now().duration_since(std::time::UNIX_EPOCH) {
        Ok(d) => d.as_nanos(),
        Err(_) => 0,
    }
}

impl EntropyPool {
    /// The pool's bytes.
    pub closed spec fn bytes(&self) -> Seq<u8> {
        self.pool@
    }

    /// Where the next bytes go.
    pub closed spec fn pos(&self) -> nat {
        self.position as nat
    }

    /// The pool has its size and the position lies inside it.
    pub closed spec fn wf(&self) -> bool {
        self.pool@.len() == POOL_SIZE && self.position < POOL_SIZE
    }

    /// The pool's bytes.
    pub fn pool_bytes(&self) -> (b: &Vec<u8>)
        ensures
            b@ == self.bytes(),
    {
        &self.pool
    }

    /// Where the next bytes go.
    pub fn position(&self) -> (p: usize)
        ensures
            p == self.pos(),
    {
        self.position
    }

    /// An empty pool: 512 zero bytes, position 0.
    pub fn new() -> (p: EntropyPool)
        ensures
            p.wf(),
            p.bytes() == Seq::new(POOL_SIZE as nat, |i: int| 0u8),
            p.pos() == 0,
    {
        let p = EntropyPool { pool: vec![0u8; POOL_SIZE], position: 0 };
        assert(p.pool@ =~= Seq::new(POOL_SIZE as nat, |i: int| 0u8));
        p
    }

    fn xor_from(&mut self, data: &[u8])
        requires
            old(self).wf(),
        ensures
            final(self).wf(),
            final(self).bytes() == mix_in(old(self).bytes(), old(self).pos(), data@),
            final(self).pos() == old(self).pos(),
    {
        let ghost start = self.pool@;
        let mut i: usize = 0;
        assert(data@.take(0) =~= Seq::<u8>::empty());
        while i < data.len()
            invariant
                self.wf(),
                start.len() == POOL_SIZE,
                self.position == old(self).position,
                i <= data@.len(),
                self.pool@ == mix_in(start, self.position as nat, data@.take(i as int)),
            decreases data@.len() - i,
        {
            proof {
                assert(data@.take(i + 1).drop_last() =~= data@.take(i as int));
                lemma_mix_in_len(start, self.position as nat, data@.take(i as int));
            }
            let idx = ((self.position as u128 + i as u128) % (POOL_SIZE as u128)) as usize;
            let b = self.pool[idx] ^ data[i];
            self.pool.set(idx, b);
            i += 1;
        }
        assert(data@.take(i as int) =~= data@);
    }

    /// Mixes `data` into the pool from the position, XOR byte by byte and
    /// wrapping round, and moves the position past it.
    pub fn add_entropy(&mut self, data: &[u8])
        requires
            old(self).wf(),
        ensures
            final(self).wf(),
            final(self).bytes() == mix_in(old(self).bytes(), old(self).pos(), data@),
            final(self).pos() == (old(self).pos() + data@.len()) % (POOL_SIZE as nat),
    {
        self.xor_from(data);
        self.position = ((self.position as u128 + data.len() as u128) % (POOL_SIZE as u128)) as usize;
    }

    /// Fills `dest` with output of a DRBG seeded from the pool at the time
    /// `time_nanos`; the digest of the output is mixed back in from the
    /// position, which then moves past `dest`.
    pub fn extract_bytes_at(&mut self, dest: &mut Vec<u8>, time_nanos: u128)
        requires
            old(self).wf(),
        ensures
            final(self).wf(),
            final(dest)@.len() == old(dest)@.len(),
            ({
                let seeded = drbg_update(
                    initial_key(),
                    initial_value(),
                    pool_seed(old(self).bytes(), old(self).pos(), time_nanos as nat),
                );
                final(dest)@ == drbg_blocks(seeded.0, seeded.1, ((old(dest)@.len() + 31) / 32) as nat).0.take(
                    old(dest)@.len() as int,
                )
            }),
            final(self).bytes() == mix_in(old(self).bytes(), old(self).pos(), sha256(final(dest)@)),
            final(self).pos() == (old(self).pos() + old(dest)@.len()) % (POOL_SIZE as nat),
    {
        let mut material: Vec<u8> = Vec::new();
        append_slice(&mut material, self.pool.as_slice());
        let mut pos_bytes = le_bytes_exec(self.position as u128, 8);
        material.append(&mut pos_bytes);
        let mut time_bytes = le_bytes_exec(time_nanos, 16);
        material.append(&mut time_bytes);
        let seed = sha256_digest(material.as_slice());
        let mut drbg = HmacDrbg::new(seed.as_slice());
        let _ = drbg.generate(dest);
        let fold = sha256_digest(dest.as_slice());
        self.xor_from(fold.as_slice());
        self.position = ((self.position as u128 + dest.len() as u128) % (POOL_SIZE as u128)) as usize;
    }

    /// `extract_bytes_at` at the present time: the output is the one of
    /// some time, whichever the clock gave.
    pub fn extract_bytes(&mut self, dest: &mut Vec<u8>)
        requires
            old(self).wf(),
        ensures
            final(self).wf(),
            final(dest)@.len() == old(dest)@.len(),
            exists|t: u128|
                {
                    let seeded = drbg_update(
                        initial_key(),
                        initial_value(),
                        #[trigger] pool_seed(old(self).bytes(), old(self).pos(), t as nat),
                    );
                    final(dest)@ == drbg_blocks(seeded.0, seeded.1, ((old(dest)@.len() + 31) / 32) as nat).0.take(
                        old(dest)@.len() as int,
                    )
                },
            final(self).bytes() == mix_in(old(self).bytes(), old(self).pos(), sha256(final(dest)@)),
            final(self).pos() == (old(self).pos() + old(dest)@.len()) % (POOL_SIZE as nat),
    {
        let t = now_nanos();
        self.extract_bytes_at(dest, t);
        assert(pool_seed(old(self).bytes(), old(self).pos(), t as nat) == pool_seed(
            old(self).bytes(),
            old(self).pos(),
            t as nat,
        ));
    }
}

// ---------------------------------------------------------------------------
// Continuous test
// ---------------------------------------------------------------------------

/// Whether `data` passes the continuous test after `last` passed: data
/// shorter than 16 bytes always does; else its first 16 bytes must differ
/// from `last`.
pub open spec fn passes_after(last: Option<Seq<u8>>, data: Seq<u8>) -> bool {
    data.len() < 16 || last != Some(data.take(16))
}

/// The block the test compares with once `data` passed after `last`.
pub open spec fn last_after(last: Option<Seq<u8>>, data: Seq<u8>) -> Option<Seq<u8>> {
    if data.len() < 16 {
        last
    } else {
        Some(data.take(16))
    }
}

/// Law: output whose first 16 bytes repeat those of the output that
/// passed just before it is refused, whatever passed earlier.
pub proof fn lemma_repeated_block_refused(last: Option<Seq<u8>>, first: Seq<u8>, second: Seq<u8>)
    requires
        first.len() >= 16,
        second.len() >= 16,
        second.take(16) == first.take(16),
        passes_after(last, first),
    ensures
        !passes_after(last_after(last, first), second),
{
}

/// The FIPS 140-2 continuous test: no 16-byte block may repeat the last.
pub struct ContinuousTest {
    last_block: Option<Vec<u8>>,
    failure_count: u64,
}

impl ContinuousTest {
    /// The last block that passed.
    pub closed spec fn last(&self) -> Option<Seq<u8>> {
        match self.last_block {
            Some(b) => Some(b@),
            None => None,
        }
    }

    /// The failures so far.
    pub closed spec fn failures(&self) -> nat {
        self.failure_count as nat
    }

    /// The number of failures so far.
    pub fn failure_count(&self) -> (n: u64)
        ensures
            n == self.failures(),
    {
        self.failure_count
    }

    /// A test with no block seen and no failure.
    pub fn new() -> (t: ContinuousTest)
        ensures
            t.last() is None,
            t.failures() == 0,
    {
        ContinuousTest { last_block: None, failure_count: 0 }
    }

    /// Data shorter than 16 bytes passes untested. Otherwise its first 16
    /// bytes fail where they equal the last block that passed (a failure is
    /// counted), and pass where they do not (they become the last block).
    pub fn test(&mut self, data: &[u8]) -> (ok: bool)
        requires
            old(self).failures() < u64::MAX,
        ensures
            ok == passes_after(old(self).last(), data@),
            ok ==> final(self).last() == last_after(old(self).last(), data@),
            data@.len() < 16 ==> ok && final(self).last() == old(self).last() && final(self).failures()
                == old(self).failures(),
            data@.len() >= 16 ==> (if old(self).last() == Some(data@.take(16)) {
                !ok && final(self).last() == old(self).last() && final(self).failures()
                    == old(self).failures() + 1
            } else {
                ok && final(self).last() == Some(data@.take(16)) && final(self).failures()
                    == old(self).failures()
            }),
    {
        if data.len() < 16 {
            return true;
        }
        let mut block: Vec<u8> = Vec::new();
        let mut i: usize = 0;
        while i < 16
            invariant
                i <= 16,
                16 <= data@.len(),
                block@ == data@.take(i as int),
            decreases 16 - i,
        {
            block.push(data[i]);
            assert(data@.take(i + 1) =~= data@.take(i as int).push(data@[i as int]));
            i += 1;
        }
        let same = match &self.last_block {
            Some(last) => bytes_equal(last, &block),
            None => false,
        };
        if same {
            self.failure_count = self.failure_count + 1;
            return false;
        }
        self.last_block = Some(block);
        true
    }
}

fn bytes_equal(a: &Vec<u8>, b: &Vec<u8>) -> (r: bool)
    ensures
        r == (a@ == b@),
{
    if a.len() != b.len() {
        return false;
    }
    let mut i: usize = 0;
    while i < a.len()
        invariant
            a@.len() == b@.len(),
            i <= a@.len(),
            forall|j: int| 0 <= j < i ==> a@[j] == b@[j],
        decreases a@.len() - i,
    {
        if a[i] != b[i] {
            return false;
        }
        i += 1;
    }
    assert(a@ =~= b@);
    true
}

} // verus!
