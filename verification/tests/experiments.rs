use concrete_core::prelude::{
    AbstractEngine, DefaultEngine, DefaultSerializationEngine, FftEngine, GlweCiphertext64,
    GlweCiphertextCreationEngine, PlaintextVectorRetrievalEngine, PolynomialSize, UnixSeeder,
    Variance,
};
use ggsw_lab::experiment::{
    external_product_round, ggsw_row_products, serialization_round_trip, ExperimentParams,
};
use ggsw_lab::fhe::EngineFailure;

fn engines() -> (DefaultEngine, FftEngine, DefaultSerializationEngine) {
    (
        DefaultEngine::new(Box::new(UnixSeeder::new(0))).unwrap(),
        FftEngine::new(()).unwrap(),
        DefaultSerializationEngine::new(()).unwrap(),
    )
}

fn noise() -> Variance {
    Variance(2_f64.powf(-104.))
}

fn params(k: usize, n: usize, level: usize, base_log: usize) -> ExperimentParams {
    ExperimentParams { glwe_dimension: k, polynomial_size: n, level_count: level, base_log }
}

fn torus_distance(a: u64, b: u64) -> u64 {
    let d = a.wrapping_sub(b);
    d.min(d.wrapping_neg())
}

#[test]
fn round_with_the_experiment_parameters_keeps_the_message() {
    let (mut engine, mut fft, _) = engines();
    let message = 3u64 << 59;
    let out = external_product_round(&mut engine, &mut fft, noise(), params(2, 64, 12, 2), message)
        .unwrap();
    let values: Vec<u64> = engine.retrieve_plaintext_vector(&out).unwrap();
    assert_eq!(values.len(), 64);
    for v in values {
        assert!(torus_distance(v, message) < 1u64 << 45);
    }
}

#[test]
fn round_refuses_an_empty_message_vector() {
    let (mut engine, mut fft, _) = engines();
    let r = external_product_round(&mut engine, &mut fft, noise(), params(2, 0, 1, 2), 5);
    assert_eq!(r.err(), Some(EngineFailure::PlaintextVectorCreation));
}

#[test]
fn round_refuses_a_null_glwe_dimension() {
    let (mut engine, mut fft, _) = engines();
    let r = external_product_round(&mut engine, &mut fft, noise(), params(0, 64, 1, 2), 5);
    assert_eq!(r.err(), Some(EngineFailure::KeyGeneration));
    let r = external_product_round(&mut engine, &mut fft, noise(), params(1, 1, 1, 2), 5);
    assert_eq!(r.err(), Some(EngineFailure::KeyGeneration));
}

#[test]
fn round_refuses_polynomial_sizes_without_fft() {
    let (mut engine, mut fft, _) = engines();
    let r = external_product_round(&mut engine, &mut fft, noise(), params(1, 48, 1, 2), 5);
    assert_eq!(r.err(), Some(EngineFailure::FourierConversion));
    let r = external_product_round(&mut engine, &mut fft, noise(), params(1, 16, 1, 2), 5);
    assert_eq!(r.err(), Some(EngineFailure::FourierConversion));
}

#[test]
fn row_products_on_small_parameters() {
    let (mut engine, mut fft, mut ser) = engines();
    let out = ggsw_row_products(&mut engine, &mut fft, &mut ser, noise(), params(1, 32, 1, 4))
        .unwrap();
    let values: Vec<u64> = engine.retrieve_plaintext_vector(&out).unwrap();
    assert_eq!(values.len(), 32);
}

#[test]
fn row_products_refuse_bad_keys_and_sizes() {
    let (mut engine, mut fft, mut ser) = engines();
    let r = ggsw_row_products(&mut engine, &mut fft, &mut ser, noise(), params(0, 32, 1, 4));
    assert_eq!(r.err(), Some(EngineFailure::KeyGeneration));
    let r = ggsw_row_products(&mut engine, &mut fft, &mut ser, noise(), params(1, 24, 1, 4));
    assert_eq!(r.err(), Some(EngineFailure::FourierConversion));
}

#[test]
fn serialization_round_trip_gives_back_the_ciphertext() {
    let (mut engine, _, mut ser) = engines();
    let container: Vec<u64> = (0..12).map(|i| (i as u64) << 60 | 17).collect();
    let ct: GlweCiphertext64 = engine
        .create_glwe_ciphertext_from(container, PolynomialSize(4))
        .unwrap();
    let back = serialization_round_trip(&mut ser, &ct).unwrap();
    assert_eq!(back, ct);
}
