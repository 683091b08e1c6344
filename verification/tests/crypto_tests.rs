use sha2::{Digest, Sha256, Sha512};
use sayonara_core::certificates::CertificateGenerator;
use sayonara_core::entropy::{HardwareRNG, JitterEntropy, URandom};
use sayonara_core::drbg::{ContinuousTest, EntropyPool, HmacDrbg};

type Result<T> = std::result::Result<T, Box<dyn std::error::Error + Send + Sync>>;

#[test]
fn test_hmac_drbg_reseed_limit() -> Result<()> {
    let seed = b"test seed";
    let mut drbg = HmacDrbg::new(seed);

    // Set counter to MAX_REQUESTS - 2

    drbg.reseed_counter = HmacDrbg::MAX_REQUESTS - 2;

    let mut out = vec![0u8; 32];

    // This should work (counter becomes MAX_REQUESTS - 1)
    assert!(drbg.generate(&mut out).is_ok());

    // This should also work (counter becomes MAX_REQUESTS)
    assert!(drbg.generate(&mut out).is_ok());

    assert!(
        drbg.generate(&mut out).is_err(),
        "Should fail when reseed counter hits limit"
    );

    // After reseed, should work again
    drbg.reseed(b"fresh entropy");
    assert!(drbg.generate(&mut out).is_ok(), "Should work after reseed");

    Ok(())
}

#[test]
fn test_continuous_test() {
    let mut test = ContinuousTest::new();

    // First block should always pass (no comparison)
    let block1 = vec![1u8; 16];
    assert!(test.test(&block1), "First block should pass");

    // Different block should pass
    let block2 = vec![2u8; 16];
    assert!(test.test(&block2), "Different block should pass");

    // Identical block should fail
    let block3 = vec![2u8; 16];
    assert!(!test.test(&block3), "Identical block should fail");

    // Different block should pass again
    let block4 = vec![3u8; 16];
    assert!(
        test.test(&block4),
        "Different block should pass after failure"
    );
}

#[test]
fn test_entropy_pool() {
    let mut pool = EntropyPool::new();

    // Add entropy
    let entropy1 = vec![0xAA; 32];
    pool.add_entropy(&entropy1);

    // Extract should be different from input
    let mut output1 = vec![0u8; 32];
    pool.extract_bytes(&mut output1);
    assert_ne!(output1, entropy1, "Pool should transform entropy");

    // Add more entropy
    let entropy2 = vec![0x55; 32];
    pool.add_entropy(&entropy2);

    // Extract again - should be different
    let mut output2 = vec![0u8; 32];
    pool.extract_bytes(&mut output2);
    assert_ne!(
        output2, output1,
        "Pool output should change with new entropy"
    );
}

#[test]
fn jitter_whitening_uses_counter_blocks_after_the_first() {
    let raw: Vec<u8> = (0u8..200).collect();
    let out = JitterEntropy::whiten(&raw, 150);
    assert_eq!(out.len(), 150);
    let first = Sha512::digest(&raw);
    assert_eq!(&out[..64], &first[..]);
    let mut h = Sha512::new();
    h.update(&raw);
    h.update(0u64.to_le_bytes());
    let second = h.finalize();
    assert_eq!(&out[64..128], &second[..]);
    let mut h = Sha512::new();
    h.update(&raw);
    h.update(1u64.to_le_bytes());
    let third = h.finalize();
    assert_eq!(&out[128..150], &third[..22]);
    assert_eq!(JitterEntropy::whiten(&raw, 10), first[..10].to_vec());
    assert!(JitterEntropy::whiten(&raw, 0).is_empty());
}

#[test]
fn jitter_samples_are_xored_with_the_last_timing() {
    let mut j = JitterEntropy::new();
    assert_eq!(j.mix_sample(0b1100, 0b1010), 0b0110);
    assert_eq!(j.mix_sample(0b0001, 0b0000), 0b1101);
    assert_eq!(j.name(), "JitterEntropy");
    assert!(j.is_available());
}

#[test]
fn device_sources_refuse_when_missing() {
    let hw = HardwareRNG::new(false);
    assert!(!hw.is_available());
    assert_eq!(hw.ready(), Err("Hardware RNG not available".to_string()));
    assert_eq!(HardwareRNG::new(true).ready(), Ok(()));
    assert_eq!(hw.name(), "HardwareRNG");
    let u = URandom::new(false);
    assert_eq!(u.ready(), Err("/dev/urandom not available".to_string()));
    assert!(URandom::new(true).is_available());
    assert_eq!(u.name(), "URandom");
}

fn hex_of(bytes: &[u8]) -> String {
    bytes.iter().map(|b| format!("{:02x}", b)).collect()
}

#[test]
fn device_hash_covers_model_serial_and_size() {
    let g = CertificateGenerator::new();
    let h = g.calculate_device_hash("Samsung SSD 870", "S5Y1NX0R", 500107862016);
    let mut hasher = Sha256::new();
    hasher.update(b"Samsung SSD 870");
    hasher.update(b"S5Y1NX0R");
    hasher.update(500107862016u64.to_le_bytes());
    assert_eq!(h, hex_of(&hasher.finalize()));
    assert_eq!(h.len(), 64);
    assert_ne!(h, g.calculate_device_hash("Samsung SSD 870", "S5Y1NX0R", 500107862017));
}

#[test]
fn a_signed_payload_verifies_and_a_changed_one_does_not() {
    let g = CertificateGenerator::default();
    let payload = r#"{"certificate_id":"abc","signature":""}"#;
    let sig = g.sign_payload(payload);
    let mut hasher = Sha256::new();
    hasher.update(payload.as_bytes());
    hasher.update(b"your-private-signing-key");
    assert_eq!(sig, hex_of(&hasher.finalize()));
    assert!(g.signature_matches(payload, &sig));
    assert!(!g.signature_matches(r#"{"certificate_id":"abd","signature":""}"#, &sig));
    assert!(!g.signature_matches(payload, "00"));
}
