use concrete_core::prelude::{
    AbstractEngine, DecompositionBaseLog, DecompositionLevelCount, DefaultEngine,
    DefaultSerializationEngine, EntitySerializationEngine, GgswCiphertextScalarEncryptionEngine,
    GlweCiphertext64, GlweCiphertextCreationEngine, GlweDimension, GlweSecretKey64,
    GlweSecretKeyGenerationEngine, Plaintext64, PlaintextCreationEngine, PolynomialSize,
    UnixSeeder, Variance,
};
use ggsw_lab::codec::{decode_ggsw_frame, FrameError};

fn le(x: u64) -> Vec<u8> {
    x.to_le_bytes().to_vec()
}

fn ggsw_bytes(coefficients: &[u64], poly: u64, glwe: u64, base_log: u64) -> Vec<u8> {
    let mut b = vec![0u8, 0, 0, 0];
    b.extend(le(coefficients.len() as u64));
    for c in coefficients {
        b.extend(le(*c));
    }
    b.extend(le(poly));
    b.extend(le(glwe));
    b.extend(le(base_log));
    b
}

#[test]
fn decode_reads_back_the_parts() {
    let coefficients = [1u64, 0x0102030405060708, u64::MAX];
    let bytes = ggsw_bytes(&coefficients, 64, 3, 2);
    assert_eq!(bytes.len(), 12 + 8 * 3 + 24);
    let f = decode_ggsw_frame(&bytes).unwrap();
    assert_eq!(f.coefficients, coefficients.to_vec());
    assert_eq!(f.polynomial_size, 64);
    assert_eq!(f.glwe_size, 3);
    assert_eq!(f.decomposition_base_log, 2);
}

#[test]
fn decode_empty_container() {
    let bytes = ggsw_bytes(&[], 1, 2, 3);
    let f = decode_ggsw_frame(&bytes).unwrap();
    assert!(f.coefficients.is_empty());
    assert_eq!((f.polynomial_size, f.glwe_size, f.decomposition_base_log), (1, 2, 3));
}

#[test]
fn decode_refuses_short_input() {
    assert_eq!(decode_ggsw_frame(&[]).err(), Some(FrameError::Truncated));
    assert_eq!(decode_ggsw_frame(&[0u8; 35]).err(), Some(FrameError::Truncated));
}

#[test]
fn decode_refuses_other_versions() {
    let mut bytes = ggsw_bytes(&[5], 1, 2, 3);
    bytes[0] = 1;
    assert_eq!(decode_ggsw_frame(&bytes).err(), Some(FrameError::UnsupportedVersion));
    let mut bytes = ggsw_bytes(&[5], 1, 2, 3);
    bytes[3] = 0x80;
    assert_eq!(decode_ggsw_frame(&bytes).err(), Some(FrameError::UnsupportedVersion));
}

#[test]
fn decode_refuses_length_mismatch() {
    let mut bytes = ggsw_bytes(&[5, 6], 1, 2, 3);
    bytes.push(0);
    assert_eq!(decode_ggsw_frame(&bytes).err(), Some(FrameError::LengthMismatch));
    let mut bytes = ggsw_bytes(&[5, 6], 1, 2, 3);
    bytes[4] = 3;
    assert_eq!(decode_ggsw_frame(&bytes).err(), Some(FrameError::LengthMismatch));
    let mut bytes = ggsw_bytes(&[5, 6], 1, 2, 3);
    bytes[11] = 0xff;
    assert_eq!(decode_ggsw_frame(&bytes).err(), Some(FrameError::LengthMismatch));
}

#[test]
fn engine_ggsw_serialization_is_a_frame() {
    let mut engine = DefaultEngine::new(Box::new(UnixSeeder::new(0))).unwrap();
    let key: GlweSecretKey64 = engine
        .generate_new_glwe_secret_key(GlweDimension(2), PolynomialSize(32))
        .unwrap();
    let pt: Plaintext64 = engine.create_plaintext_from(&1u64).unwrap();
    let ggsw = engine
        .encrypt_scalar_ggsw_ciphertext(
            &key,
            &pt,
            Variance(2_f64.powf(-50.)),
            DecompositionLevelCount(3),
            DecompositionBaseLog(4),
        )
        .unwrap();
    let mut serializer = DefaultSerializationEngine::new(()).unwrap();
    let bytes = serializer.serialize(&ggsw).unwrap();
    let f = decode_ggsw_frame(&bytes).unwrap();
    assert_eq!(f.coefficients.len(), 3 * 3 * 3 * 32);
    assert_eq!(f.polynomial_size, 32);
    assert_eq!(f.glwe_size, 3);
    assert_eq!(f.decomposition_base_log, 4);
}

#[test]
fn engine_glwe_serialization_is_a_frame() {
    let mut engine = DefaultEngine::new(Box::new(UnixSeeder::new(0))).unwrap();
    let container: Vec<u64> = (1..=8).map(|i| i * 0x0101_0101_0101_0101).collect();
    let ct: GlweCiphertext64 = engine
        .create_glwe_ciphertext_from(container.clone(), PolynomialSize(4))
        .unwrap();
    let mut serializer = DefaultSerializationEngine::new(()).unwrap();
    let bytes = serializer.serialize(&ct).unwrap();
    let mut expected = vec![0u8, 0, 0, 0];
    expected.extend(le(8));
    for c in &container {
        expected.extend(le(*c));
    }
    expected.extend(le(4));
    assert_eq!(bytes, expected);
}
