//! Wipe certificates: the hash that identifies a device and the signature
//! over a certificate's serialised form.
use vstd::prelude::*;

use crate::drbg::{hex, hex_digit, hex_string, sha256, sha256_digest, le_bytes};
use vstd::string::StringSliceAdditionalSpecFns;

verus! {

broadcast use vstd::string::group_string_axioms;

/// The device a certificate speaks of.
#[derive(Debug, Clone)]
pub struct DeviceCertInfo {
    pub device_path: String,
    pub model: String,
    pub serial: String,
    pub size: u64,
    /// Hash of what identifies the device.
    pub device_hash: String,
}

/// What a wipe did.
#[derive(Debug, Clone)]
pub struct WipeDetails {
    pub algorithm_used: String,
    pub passes_completed: u32,
    pub duration_seconds: u64,
    pub operator_id: Option<String>,
}

/// Makes and checks certificate signatures.
pub struct CertificateGenerator {
    private_key: Vec<u8>,
}

/// The device hash: the hex SHA-256 digest of the model's bytes, the
/// serial's bytes and the size as 8 little-endian bytes.
pub open spec fn device_hash_of(model: Seq<u8>, serial: Seq<u8>, size: u64) -> Seq<char> {
    hex(sha256(model + serial + le_bytes(size as nat, 8)))
}

/// The signature of a serialised certificate: the hex SHA-256 digest of its
/// bytes followed by the signing key's bytes.
pub open spec fn signature_of(payload: Seq<u8>, key: Seq<u8>) -> Seq<char> {
    hex(sha256(payload + key))
}

/// Whether `signature` is accepted for a serialised certificate under `key`:
/// it is the certificate's signature (`signature_of`).
pub open spec fn signature_accepted(payload: Seq<u8>, key: Seq<u8>, signature: Seq<char>) -> bool {
    signature == signature_of(payload, key)
}

proof fn lemma_hex_len(b: Seq<u8>)
    ensures
        hex(b).len() == 2 * b.len(),
    decreases b.len(),
{
    if b.len() > 0 {
        lemma_hex_len(b.drop_last());
    }
}

proof fn lemma_hex_digit_injective(x: u8, y: u8)
    requires
        x < 16,
        y < 16,
        hex_digit(x) == hex_digit(y),
    ensures
        x == y,
{
    let cx = if x < 10 { 48 + x } else { 87 + x };
    let cy = if y < 10 { 48 + y } else { 87 + y };
    assert(hex_digit(x) as int == cx);
    assert(hex_digit(y) as int == cy);
}

proof fn lemma_hex_injective(a: Seq<u8>, b: Seq<u8>)
    requires
        hex(a) == hex(b),
    ensures
        a == b,
    decreases a.len(),
{
    lemma_hex_len(a);
    lemma_hex_len(b);
    if a.len() == 0 {
        assert(a =~= b);
    } else {
        let ha = hex(a.drop_last());
        let hb = hex(b.drop_last());
        lemma_hex_len(a.drop_last());
        lemma_hex_len(b.drop_last());
        let n = hex(a).len();
        assert(hex(a) == ha + seq![hex_digit(a.last() / 16), hex_digit(a.last() % 16)]);
        assert(hex(b) == hb + seq![hex_digit(b.last() / 16), hex_digit(b.last() % 16)]);
        assert(ha =~= hex(a).take(n - 2));
        assert(hb =~= hex(b).take(n - 2));
        lemma_hex_injective(a.drop_last(), b.drop_last());
        assert(hex(a)[n - 2] == hex_digit(a.last() / 16));
        assert(hex(b)[n - 2] == hex_digit(b.last() / 16));
        assert(hex(a)[n - 1] == hex_digit(a.last() % 16));
        assert(hex(b)[n - 1] == hex_digit(b.last() % 16));
        lemma_hex_digit_injective(a.last() / 16, b.last() / 16);
        lemma_hex_digit_injective(a.last() % 16, b.last() % 16);
        let x = a.last();
        let y = b.last();
        assert(x == y) by (nonlinear_arith)
            requires
                x / 16 == y / 16,
                x % 16 == y % 16,
        ;
        assert(a =~= a.drop_last().push(a.last()));
        assert(b =~= b.drop_last().push(b.last()));
    }
}

/// Law: the signature that signing gives a serialised certificate is
/// accepted for it under the same key, and no other signature is; a
/// certificate changed after signing (another payload) is refused with
/// that signature unless the two digests collide.
pub proof fn lemma_signature_round_trip(
    payload: Seq<u8>,
    key: Seq<u8>,
    signature: Seq<char>,
    changed: Seq<u8>,
)
    ensures
        signature_accepted(payload, key, signature_of(payload, key)),
        signature_accepted(payload, key, signature) ==> signature == signature_of(payload, key),
        sha256(changed + key) != sha256(payload + key) ==> !signature_accepted(
            changed,
            key,
            signature_of(payload, key),
        ),
{
    if signature_accepted(changed, key, signature_of(payload, key)) {
        lemma_hex_injective(sha256(changed + key), sha256(payload + key));
    }
}

fn concat_bytes(a: &[u8], b: &[u8]) -> (v: Vec<u8>)
    ensures
        v@ == a@ + b@,
{
    let mut v = vstd::slice::slice_to_vec(a);
    let mut w = vstd::slice::slice_to_vec(b);
    v.append(&mut w);
    v
}

fn u64_le_bytes(n: u64) -> (b: Vec<u8>)
    ensures
        b@ == le_bytes(n as nat, 8),
{
    let mut b: Vec<u8> = Vec::new();
    let mut x: u64 = n;
    let mut i: usize = 0;
    while i < 8
        invariant
            i <= 8,
            b@ + le_bytes(x as nat, (8 - i) as nat) == le_bytes(n as nat, 8),
        decreases 8 - i,
    {
        let ghost before = b@;
        b.push((x % 256) as u8);
        proof {
            assert(le_bytes(x as nat, (8 - i) as nat) == seq![(x % 256) as u8] + le_bytes(
                (x / 256) as nat,
                (8 - i - 1) as nat,
            ));
            assert(b@ + le_bytes((x / 256) as nat, (8 - i - 1) as nat) =~= before + le_bytes(
                x as nat,
                (8 - i) as nat,
            ));
        }
        x = x / 256;
        i += 1;
    }
    assert(le_bytes(x as nat, 0) =~= Seq::<u8>::empty());
    assert(b@ + Seq::<u8>::empty() =~= b@);
    b
}

impl CertificateGenerator {
    /// The bytes of the key that signs certificates.
    pub closed spec fn key(&self) -> Seq<u8> {
        self.private_key@
    }

    /// A generator with the built-in signing key.
    pub fn new() -> (g: Self)
        ensures
            g.key() == "your-private-signing-key".spec_bytes(),
    {
        CertificateGenerator { private_key: vstd::slice::slice_to_vec("your-private-signing-key".as_bytes()) }
    }

    /// The device hash of a model, serial and size (`device_hash_of`).
    pub fn calculate_device_hash(&self, model: &str, serial: &str, size: u64) -> (h: String)
        ensures
            h@ == device_hash_of(model.spec_bytes(), serial.spec_bytes(), size),
    {
        let ms = model.as_bytes();
        let ss = serial.as_bytes();
        let head = concat_bytes(ms, ss);
        let sb = u64_le_bytes(size);
        let all = concat_bytes(head.as_slice(), sb.as_slice());
        let d = sha256_digest(all.as_slice());
        hex_string(d.as_slice())
    }

    /// The signature of a serialised certificate (`signature_of`) under this
    /// generator's key.
    pub fn sign_payload(&self, payload: &str) -> (s: String)
        ensures
            s@ == signature_of(payload.spec_bytes(), self.key()),
    {
        let all = concat_bytes(payload.as_bytes(), self.private_key.as_slice());
        let d = sha256_digest(all.as_slice());
        hex_string(d.as_slice())
    }

    /// Whether a certificate's signature is the one its serialised form
    /// (with the signature left empty) gets under this generator's key.
    pub fn signature_matches(&self, payload: &str, signature: &str) -> (b: bool)
        ensures
            b == signature_accepted(payload.spec_bytes(), self.key(), signature@),
    {
        let expected = self.sign_payload(payload);
        let e = crate::text::chars_of(expected.as_str());
        let s = crate::text::chars_of(signature);
        crate::text::chars_eq(&e, &s)
    }
}

impl Default for CertificateGenerator {
    fn default() -> (g: Self)
        ensures
            g.key() == "your-private-signing-key".spec_bytes(),
    {
        Self::new()
    }
}

} // verus!
