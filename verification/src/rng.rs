//! The state of the secure random generator: an entropy pool, a persistent
//! HMAC-DRBG seeded from it, the continuous test and the count of bytes
//! since the last reseed. Reading the entropy sources (hardware, the system,
//! timing jitter) is left to the caller, which hands their bytes in; this
//! module decides when to reseed and mixes the DRBG's keystream into what
//! the sources gave.
use vstd::prelude::*;

use crate::drbg::{
    append_slice, drbg_blocks, drbg_update, initial_key, initial_value, le_bytes, le_bytes_exec,
    last_after, mix_in, passes_after, pool_seed, sha256, sha256_digest, ContinuousTest, DrbgError,
    EntropyPool, HmacDrbg, POOL_SIZE,
};

verus! {

/// Bytes generated after which the generator reseeds (4 GiB).
pub const RESEED_LIMIT: u64 = 0x1_0000_0000;

/// Why a request for random bytes failed.
#[derive(Debug, Clone, Copy, PartialEq, Eq, Structural)]
pub enum RngError {
    /// The output repeated its last 16-byte block (FIPS 140-2 continuous test).
    ContinuousTestFailed,
    /// The DRBG refused the request.
    Drbg(DrbgError),
}

/// `a` XOR `b`, byte by byte, over the length of `a`.
pub open spec fn xor_bytes(a: Seq<u8>, b: Seq<u8>) -> Seq<u8> {
    Seq::new(a.len(), |i: int| a[i] ^ b[i])
}

/// `a + b`, or `u64::MAX` where that does not fit.
pub open spec fn saturating_sum(a: u64, b: u64) -> nat {
    if a + b > u64::MAX {
        u64::MAX as nat
    } else {
        (a + b) as nat
    }
}

/// The key and value a DRBG reseeded with `seed` has: from its own key and
/// value where there is one, else from the initial ones.
pub open spec fn reseeded(d: Option<HmacDrbg>, seed: Seq<u8>) -> (Seq<u8>, Seq<u8>) {
    match d {
        Some(g) => drbg_update(g.key(), g.value(), seed),
        None => drbg_update(initial_key(), initial_value(), seed),
    }
}

/// The secure random generator's state.
pub struct SecureRNG {
    entropy_pool: EntropyPool,
    bytes_since_reseed: u64,
    max_bytes_before_reseed: u64,
    is_healthy: bool,
    continuous_test: ContinuousTest,
    drbg: Option<HmacDrbg>,
}

impl SecureRNG {
    /// The entropy pool.
    pub closed spec fn pool(&self) -> EntropyPool {
        self.entropy_pool
    }

    /// The bytes generated since the last reseed.
    pub closed spec fn generated(&self) -> u64 {
        self.bytes_since_reseed
    }

    /// The bytes after which it reseeds.
    pub closed spec fn limit(&self) -> u64 {
        self.max_bytes_before_reseed
    }

    /// Whether every output so far passed the continuous test.
    pub closed spec fn healthy(&self) -> bool {
        self.is_healthy
    }

    /// The continuous test.
    pub closed spec fn health_test(&self) -> ContinuousTest {
        self.continuous_test
    }

    /// The persistent DRBG, once seeded.
    pub closed spec fn generator(&self) -> Option<HmacDrbg> {
        self.drbg
    }

    /// The pool is well formed.
    pub closed spec fn wf(&self) -> bool {
        self.entropy_pool.wf()
    }

    /// Seeds the persistent DRBG from the pool at time `time_nanos` (the
    /// digest of the pool, its position and the time, `pool_seed`):
    /// reseeding the DRBG there is, else instantiating one.
    pub fn seed_drbg_at(&mut self, time_nanos: u128)
        requires
            old(self).wf(),
        ensures
            final(self).wf(),
            final(self).pool() == old(self).pool(),
            final(self).generated() == old(self).generated(),
            final(self).limit() == old(self).limit(),
            final(self).healthy() == old(self).healthy(),
            final(self).health_test() == old(self).health_test(),
            final(self).generator() matches Some(d) && (d.key(), d.value()) == reseeded(
                old(self).generator(),
                pool_seed(old(self).pool().bytes(), old(self).pool().pos(), time_nanos as nat),
            ) && d.counter() == 1,
    {
        let mut material: Vec<u8> = Vec::new();
        append_slice(&mut material, self.entropy_pool.pool_bytes().as_slice());
        let mut pos_bytes = le_bytes_exec(self.entropy_pool.position() as u128, 8);
        material.append(&mut pos_bytes);
        let mut time_bytes = le_bytes_exec(time_nanos, 16);
        material.append(&mut time_bytes);
        let seed = sha256_digest(material.as_slice());
        match self.drbg.take() {
            Some(mut d) => {
                d.reseed(seed.as_slice());
                self.drbg = Some(d);
            },
            None => {
                self.drbg = Some(HmacDrbg::new(seed.as_slice()));
            },
        }
    }

    /// Reseeds from `source_bytes` (what the entropy sources gave) and the
    /// time `entropy_time` as 16 little-endian bytes, mixed into the pool;
    /// the count starts again from 0 and the DRBG is seeded from the pool at
    /// time `seed_time`.
    pub fn reseed_at(&mut self, source_bytes: &[u8], entropy_time: u128, seed_time: u128)
        requires
            old(self).wf(),
        ensures
            final(self).wf(),
            ({
                let data = source_bytes@ + le_bytes(entropy_time as nat, 16);
                let bytes = mix_in(old(self).pool().bytes(), old(self).pool().pos(), data);
                let pos = (old(self).pool().pos() + data.len()) % (POOL_SIZE as nat);
                &&& final(self).pool().bytes() == bytes
                &&& final(self).pool().pos() == pos
                &&& final(self).generator() matches Some(d) && (d.key(), d.value()) == reseeded(
                    old(self).generator(),
                    pool_seed(bytes, pos, seed_time as nat),
                ) && d.counter() == 1
            }),
            final(self).generated() == 0,
            final(self).limit() == old(self).limit(),
            final(self).healthy() == old(self).healthy(),
            final(self).health_test() == old(self).health_test(),
    {
        let mut seed_data: Vec<u8> = Vec::new();
        append_slice(&mut seed_data, source_bytes);
        let mut t = le_bytes_exec(entropy_time, 16);
        seed_data.append(&mut t);
        self.entropy_pool.add_entropy(seed_data.as_slice());
        self.bytes_since_reseed = 0;
        self.seed_drbg_at(seed_time);
    }

    /// A generator seeded from `source_bytes`: an empty pool, the reseed
    /// (`reseed_at` with `entropy_time` and `reseed_time`), then the DRBG
    /// seeded once more at `seed_time`; healthy, reseeding every 4 GiB.
    pub fn new_at(source_bytes: &[u8], entropy_time: u128, reseed_time: u128, seed_time: u128) -> (r:
        SecureRNG)
        ensures
            r.wf(),
            ({
                let data = source_bytes@ + le_bytes(entropy_time as nat, 16);
                let bytes = mix_in(Seq::new(POOL_SIZE as nat, |i: int| 0u8), 0, data);
                let pos = data.len() % (POOL_SIZE as nat);
                let first = drbg_update(
                    initial_key(),
                    initial_value(),
                    pool_seed(bytes, pos, reseed_time as nat),
                );
                &&& r.pool().bytes() == bytes
                &&& r.pool().pos() == pos
                &&& r.generator() matches Some(d) && (d.key(), d.value()) == drbg_update(
                    first.0,
                    first.1,
                    pool_seed(bytes, pos, seed_time as nat),
                ) && d.counter() == 1
            }),
            r.generated() == 0,
            r.limit() == RESEED_LIMIT,
            r.healthy(),
            r.health_test().last() is None,
            r.health_test().failures() == 0,
    {
        let mut r = SecureRNG {
            entropy_pool: EntropyPool::new(),
            bytes_since_reseed: 0,
            max_bytes_before_reseed: RESEED_LIMIT,
            is_healthy: true,
            continuous_test: ContinuousTest::new(),
            drbg: None,
        };
        r.reseed_at(source_bytes, entropy_time, reseed_time);
        r.seed_drbg_at(seed_time);
        r
    }

    /// Whether a request for `request_len` bytes must first reseed: where the
    /// bytes since the last reseed and the request reach the limit (the sum
    /// saturating), or where the DRBG has served its requests.
    pub fn needs_reseed(&self, request_len: u64) -> (b: bool)
        ensures
            b == (saturating_sum(self.generated(), request_len) >= self.limit() || (
            self.generator() matches Some(d) && d.counter() >= HmacDrbg::MAX_REQUESTS)),
    {
        let drbg_needs = match &self.drbg {
            Some(d) => d.needs_reseed(),
            None => false,
        };
        self.bytes_since_reseed.saturating_add(request_len) >= self.max_bytes_before_reseed
            || drbg_needs
    }

    /// The number of outputs that failed the continuous test.
    pub fn continuous_failures(&self) -> (n: u64)
        ensures
            n == self.health_test().failures(),
    {
        self.continuous_test.failure_count()
    }

    /// Whether every output so far passed the continuous test.
    pub fn is_healthy(&self) -> (b: bool)
        ensures
            b == self.healthy(),
    {
        self.is_healthy
    }

    /// Mixes into `dest` (what the entropy sources gave) a keystream of its
    /// length: from the DRBG where there is one (a DRBG that has served its
    /// requests refuses, and nothing changes), else from the pool at time
    /// `time_nanos`. `dest` becomes its XOR with the keystream; the digest
    /// of the keystream's first 64 bytes is mixed into the pool. Then the
    /// continuous test: a repeated block marks the generator unhealthy and
    /// fails; else the count grows by the length (wrapping, as an atomic
    /// add does).
    pub fn mix_at(&mut self, dest: &mut Vec<u8>, time_nanos: u128) -> (r: Result<(), RngError>)
        requires
            old(self).wf(),
            old(self).health_test().failures() < u64::MAX,
        ensures
            final(self).wf(),
            final(self).limit() == old(self).limit(),
            final(dest)@.len() == old(dest)@.len(),
            (old(self).generator() matches Some(d) && d.counter() >= HmacDrbg::MAX_REQUESTS) ==> (r
                == Err::<(), RngError>(RngError::Drbg(DrbgError::ReseedRequired)) && final(dest)@
                == old(dest)@ && final(self).pool() == old(self).pool() && (final(self).generator()
                matches Some(g) && g.key() == old(self).generator()->0.key() && g.value() == old(
                self,
            ).generator()->0.value() && g.counter() == old(self).generator()->0.counter()) && final(self).generated() == old(self).generated()
                && final(self).healthy() == old(self).healthy() && final(self).health_test() == old(
                self,
            ).health_test()),
            (old(self).generator() matches Some(d) && d.counter() < HmacDrbg::MAX_REQUESTS) ==> ({
                let n = old(dest)@.len();
                let blocks = drbg_blocks(
                    old(self).generator()->0.key(),
                    old(self).generator()->0.value(),
                    ((n + 31) / 32) as nat,
                );
                let ks = blocks.0.take(n as int);
                let fold = sha256(ks.take(if n < 64 {
                    n as int
                } else {
                    64
                }));
                &&& final(dest)@ == xor_bytes(old(dest)@, ks)
                &&& final(self).pool().bytes() == mix_in(
                    old(self).pool().bytes(),
                    old(self).pool().pos(),
                    fold,
                )
                &&& final(self).pool().pos() == (old(self).pool().pos() + fold.len()) % (
                POOL_SIZE as nat)
                &&& final(self).generator() matches Some(g) && (g.key(), g.value()) == drbg_update(
                    old(self).generator()->0.key(),
                    blocks.1,
                    seq![],
                ) && g.counter() == old(self).generator()->0.counter() + 1
            }),
            (old(self).generator() is None) ==> final(dest)@.len() == old(dest)@.len(),
            r == Err::<(), RngError>(RngError::ContinuousTestFailed) ==> !final(self).healthy()
                && final(self).generated() == old(self).generated(),
            r is Ok ==> final(self).healthy() == old(self).healthy() && final(self).generated() == (
            old(self).generated() + old(dest)@.len()) % 0x1_0000_0000_0000_0000,
            (old(self).generator() is None || old(self).generator()->0.counter()
                < HmacDrbg::MAX_REQUESTS) ==> (r is Ok || r == Err::<(), RngError>(
                RngError::ContinuousTestFailed,
            )),
            ((old(self).generator() is None || old(self).generator()->0.counter()
                < HmacDrbg::MAX_REQUESTS) && final(dest)@.len() >= 16 && old(self).health_test().last()
                == Some(final(dest)@.take(16))) ==> (r == Err::<(), RngError>(
                RngError::ContinuousTestFailed,
            ) && !final(self).healthy() && final(self).generated() == old(self).generated()),
            !old(self).healthy() ==> !final(self).healthy(),
            (r is Ok || r == Err::<(), RngError>(RngError::ContinuousTestFailed)) ==> ((r is Ok)
                == passes_after(old(self).health_test().last(), final(dest)@)),
            r is Ok ==> final(self).health_test().last() == last_after(
                old(self).health_test().last(),
                final(dest)@,
            ),
            (r is Ok || r == Err::<(), RngError>(RngError::ContinuousTestFailed)) ==> ({
                let out = final(dest)@;
                if out.len() < 16 {
                    r is Ok && final(self).health_test().last() == old(self).health_test().last()
                        && final(self).health_test().failures() == old(self).health_test().failures()
                } else if old(self).health_test().last() == Some(out.take(16)) {
                    r is Err && final(self).health_test().last() == old(self).health_test().last()
                        && final(self).health_test().failures() == old(self).health_test().failures() + 1
                } else {
                    r is Ok && final(self).health_test().last() == Some(out.take(16))
                        && final(self).health_test().failures() == old(self).health_test().failures()
                }
            }),
    {
        let n = dest.len();
        let mut ks: Vec<u8> = vec![0u8; n];
        match self.drbg.take() {
            Some(mut d) => {
                let g = d.generate(&mut ks);
                self.drbg = Some(d);
                if let Err(e) = g {
                    return Err(RngError::Drbg(e));
                }
            },
            None => {
                self.entropy_pool.extract_bytes_at(&mut ks, time_nanos);
            },
        }
        let ghost before = dest@;
        let mut i: usize = 0;
        while i < n
            invariant
                n == dest@.len(),
                n == before.len(),
                n == ks@.len(),
                i <= n,
                forall|j: int| 0 <= j < i ==> dest@[j] == before[j] ^ ks@[j],
                forall|j: int| i <= j < n ==> dest@[j] == before[j],
            decreases n - i,
        {
            let b = dest[i] ^ ks[i];
            dest.set(i, b);
            i += 1;
        }
        assert(dest@ =~= xor_bytes(before, ks@));
        let head_len: usize = if n < 64 {
            n
        } else {
            64
        };
        let mut head: Vec<u8> = Vec::new();
        let mut j: usize = 0;
        while j < head_len
            invariant
                head_len <= ks@.len(),
                j <= head_len,
                head@ == ks@.take(j as int),
            decreases head_len - j,
        {
            head.push(ks[j]);
            assert(ks@.take(j + 1) =~= ks@.take(j as int).push(ks@[j as int]));
            j += 1;
        }
        let fold = sha256_digest(head.as_slice());
        self.entropy_pool.add_entropy(fold.as_slice());
        if !self.continuous_test.test(dest.as_slice()) {
            self.is_healthy = false;
            return Err(RngError::ContinuousTestFailed);
        }
        self.bytes_since_reseed = self.bytes_since_reseed.wrapping_add(n as u64);
        Ok(())
    }
}

/// Law: mixing the same keystream in twice gives back what was mixed into,
/// so the mixing loses nothing of what the entropy sources gave.
pub proof fn lemma_mix_twice_restores(a: Seq<u8>, k: Seq<u8>)
    requires
        a.len() <= k.len(),
    ensures
        xor_bytes(xor_bytes(a, k), k) == a,
{
    assert forall|i: int| 0 <= i < a.len() implies #[trigger] xor_bytes(xor_bytes(a, k), k)[i] == a[i] by {
        let x = a[i];
        let y = k[i];
        assert((x ^ y) ^ y == x) by (bit_vector);
    }
    assert(xor_bytes(xor_bytes(a, k), k) =~= a);
}

/// The number of one bits of a byte.
pub open spec fn popcount(b: nat) -> nat
    decreases b,
{
    if b == 0 {
        0
    } else {
        b % 2 + popcount(b / 2)
    }
}

/// The one bits of the bytes of `s`.
pub open spec fn ones_in(s: Seq<u8>) -> nat
    decreases s.len(),
{
    if s.len() == 0 {
        0
    } else {
        ones_in(s.drop_last()) + popcount(s.last() as nat)
    }
}

/// The longest run of equal bytes of `s` seen so far (0 where no byte has
/// repeated its predecessor) and the length of the run that ends it.
pub open spec fn run_stats(s: Seq<u8>) -> (nat, nat)
    decreases s.len(),
{
    if s.len() <= 1 {
        (0, 1)
    } else {
        let p = run_stats(s.drop_last());
        if s.last() == s[s.len() - 2] {
            let c = p.1 + 1;
            (if p.0 >= c { p.0 } else { c }, c)
        } else {
            (p.0, 1)
        }
    }
}

fn popcount_exec(b: u8) -> (n: u64)
    ensures
        n == popcount(b as nat),
        n <= 8,
{
    let mut x: u8 = b;
    let mut n: u64 = 0;
    let mut k: u8 = 0;
    assert(b == b >> 0u8) by (bit_vector);
    while k < 8
        invariant
            k <= 8,
            x == b >> k,
            n <= k,
            n + popcount(x as nat) == popcount(b as nat),
        decreases 8 - k,
    {
        proof {
            assert(x / 2 == b >> ((k + 1) as u8)) by (bit_vector)
                requires
                    x == b >> k,
                    k < 8,
            ;
            if x > 0 {
                assert(popcount(x as nat) == (x as nat) % 2 + popcount((x as nat) / 2));
            }
        }
        n = n + (x % 2) as u64;
        x = x / 2;
        k = k + 1;
    }
    assert(x == 0) by (bit_vector)
        requires
            x == b >> k,
            k == 8,
    ;
    n
}

impl SecureRNG {
    /// The one bits of `data` (the monobit test counts them).
    pub fn count_ones(data: &[u8]) -> (n: u64)
        requires
            data@.len() * 8 <= u64::MAX,
        ensures
            n == ones_in(data@),
    {
        let mut n: u64 = 0;
        let mut i: usize = 0;
        assert(data@.take(0) =~= Seq::<u8>::empty());
        while i < data.len()
            invariant
                i <= data@.len(),
                n == ones_in(data@.take(i as int)),
                n <= 8 * i,
                data@.len() * 8 <= u64::MAX,
            decreases data@.len() - i,
        {
            assert(data@.take(i + 1).drop_last() =~= data@.take(i as int));
            let c = popcount_exec(data[i]);
            n = n + c;
            i += 1;
        }
        assert(data@.take(data@.len() as int) =~= data@);
        n
    }

    /// The longest run of equal bytes in `data` as the run test counts it
    /// (`run_stats`).
    pub fn longest_run(data: &[u8]) -> (m: u64)
        requires
            data@.len() >= 1,
        ensures
            m == run_stats(data@).0,
    {
        let mut max_run: u64 = 0;
        let mut current: u64 = 1;
        let mut i: usize = 1;
        assert(data@.take(1).len() == 1);
        while i < data.len()
            invariant
                1 <= i <= data@.len(),
                (max_run as nat, current as nat) == run_stats(data@.take(i as int)),
                current <= i,
                max_run <= i,
            decreases data@.len() - i,
        {
            assert(data@.take(i + 1).drop_last() =~= data@.take(i as int));
            assert(data@.take(i + 1)[i - 1] == data@[i - 1]);
            if data[i] == data[i - 1] {
                current = current + 1;
                if current > max_run {
                    max_run = current;
                }
            } else {
                current = 1;
            }
            i += 1;
        }
        assert(data@.take(data@.len() as int) =~= data@);
        max_run
    }
}

} // verus!
