//! The calls into the `concrete-core` engines that the experiments make, each
//! behind a wrapper whose contract states what the engine's source shows of it.
//!
//! Ciphertexts, keys and plaintexts are held opaquely; what the contracts need
//! of them is named below: the coefficients a ciphertext holds and the shape
//! (polynomial size, GLWE size or dimension, decomposition parameters) it was
//! made with. Whatever an encryption draws from the engine's random generators
//! is left unsaid.
use vstd::prelude::*;
use crate::codec::{ggsw_frame, glwe_frame};
use crate::params::{ggsw_len, glwe_len};
use concrete_core::prelude::{
    DecompositionBaseLog, DecompositionLevelCount, DefaultEngine, DefaultSerializationEngine,
    EntityDeserializationEngine, EntitySerializationEngine, FftEngine, FftFourierGgswCiphertext64,
    GgswCiphertext64, GgswCiphertextConversionEngine, GgswCiphertextScalarEncryptionEngine,
    GlweCiphertext64, GlweCiphertextConsumingRetrievalEngine, GlweCiphertextCreationEngine,
    GlweCiphertextDecryptionEngine, GlweCiphertextEncryptionEngine,
    GlweCiphertextGgswCiphertextDiscardingExternalProductEngine, GlweCiphertextZeroEncryptionEngine,
    GlweDimension, GlweSecretKey64, GlweSecretKeyGenerationEngine, Plaintext64,
    PlaintextCreationEngine, PlaintextVector64, PlaintextVectorCreationEngine, PolynomialSize,
    Variance,
};

verus! {

#[verifier::external_type_specification]
#[verifier::external_body]
pub struct ExDefaultEngine(DefaultEngine);

#[verifier::external_type_specification]
#[verifier::external_body]
pub struct ExFftEngine(FftEngine);

#[verifier::external_type_specification]
#[verifier::external_body]
pub struct ExDefaultSerializationEngine(DefaultSerializationEngine);

#[verifier::external_type_specification]
#[verifier::external_body]
pub struct ExVariance(Variance);

#[verifier::external_type_specification]
#[verifier::external_body]
pub struct ExGlweSecretKey64(GlweSecretKey64);

#[verifier::external_type_specification]
#[verifier::external_body]
pub struct ExPlaintext64(Plaintext64);

#[verifier::external_type_specification]
#[verifier::external_body]
pub struct ExPlaintextVector64(PlaintextVector64);

#[verifier::external_type_specification]
#[verifier::external_body]
pub struct ExGgswCiphertext64(GgswCiphertext64);

#[verifier::external_type_specification]
#[verifier::external_body]
pub struct ExFftFourierGgswCiphertext64(FftFourierGgswCiphertext64);

#[verifier::external_type_specification]
#[verifier::external_body]
pub struct ExGlweCiphertext64(GlweCiphertext64);

/// The GLWE dimension and the polynomial size a secret key was generated with.
pub uninterp spec fn glwe_key_shape(key: GlweSecretKey64) -> (nat, nat);

/// The value a plaintext holds.
pub uninterp spec fn plaintext_value(plaintext: Plaintext64) -> u64;

/// The values a plaintext vector holds, in order.
pub uninterp spec fn plaintext_vector_values(plaintexts: PlaintextVector64) -> Seq<u64>;

/// The coefficients a GGSW ciphertext holds, rows laid end to end.
pub uninterp spec fn ggsw_coefficients(ciphertext: GgswCiphertext64) -> Seq<u64>;

/// The polynomial size, GLWE size, decomposition level count and decomposition
/// base log a GGSW ciphertext was made with.
pub uninterp spec fn ggsw_shape(ciphertext: GgswCiphertext64) -> (nat, nat, nat, nat);

/// The polynomial size, GLWE size, decomposition level count and decomposition
/// base log a Fourier-domain GGSW ciphertext was made with.
pub uninterp spec fn fourier_ggsw_shape(ciphertext: FftFourierGgswCiphertext64) -> (nat, nat, nat, nat);

/// The coefficients a GLWE ciphertext holds, mask polynomials first, body last.
pub uninterp spec fn glwe_coefficients(ciphertext: GlweCiphertext64) -> Seq<u64>;

/// The polynomial size a GLWE ciphertext was made with.
pub uninterp spec fn glwe_polynomial_size(ciphertext: GlweCiphertext64) -> nat;

/// The GLWE dimension of a ciphertext, as the engines compute it: the number of
/// whole polynomials it holds, minus the body.
pub open spec fn glwe_dimension_of(ciphertext: GlweCiphertext64) -> int {
    glwe_coefficients(ciphertext).len() as int / glwe_polynomial_size(ciphertext) as int - 1
}

/// The ciphertext holds at least one whole polynomial, so that its GLWE
/// dimension is defined.
pub open spec fn glwe_well_shaped(ciphertext: GlweCiphertext64) -> bool {
    &&& glwe_polynomial_size(ciphertext) > 0
    &&& glwe_coefficients(ciphertext).len() >= glwe_polynomial_size(ciphertext)
    &&& glwe_coefficients(ciphertext).len() % glwe_polynomial_size(ciphertext) == 0
}

/// `n` is a power of two.
pub open spec fn is_power_of_two(n: nat) -> bool
    decreases n,
{
    if n == 1 {
        true
    } else if n == 0 || n % 2 == 1 {
        false
    } else {
        is_power_of_two(n / 2)
    }
}

/// Polynomial sizes the Fourier backend accepts: powers of two of at least 32.
pub open spec fn fft_supported(polynomial_size: nat) -> bool {
    polynomial_size >= 32 && is_power_of_two(polynomial_size)
}

/// An engine call that did not go through.
#[derive(Debug, PartialEq, Eq, Structural)]
pub enum EngineFailure {
    KeyGeneration,
    PlaintextCreation,
    PlaintextVectorCreation,
    GgswEncryption,
    GlweEncryption,
    ZeroEncryption,
    FourierConversion,
    GlweCreation,
    ExternalProduct,
    Retrieval,
    Decryption,
    Serialization,
    Deserialization,
}

/// `DefaultEngine::generate_new_glwe_secret_key`: fails exactly on a null GLWE
/// dimension, a null polynomial size or a polynomial size of one (the generic
/// checks of the key generation engine); otherwise the key has the requested
/// shape. Its binary coefficients come from the engine's secret generator and
/// are left unsaid.
#[verifier::external_body]
pub(crate) fn generate_glwe_secret_key(engine: &mut DefaultEngine, glwe_dimension: usize, polynomial_size: usize)
    -> (r: Result<GlweSecretKey64, EngineFailure>)
    ensures
        r is Ok <==> (glwe_dimension > 0 && polynomial_size > 1),
        r matches Ok(key) ==> glwe_key_shape(key) == (glwe_dimension as nat, polynomial_size as nat),
        r matches Err(e) ==> e == EngineFailure::KeyGeneration,
{
    match engine.generate_new_glwe_secret_key(GlweDimension(glwe_dimension), PolynomialSize(polynomial_size)) {
        Ok(key) => Ok(key),
        Err(_) => Err(EngineFailure::KeyGeneration),
    }
}

/// `DefaultEngine::create_plaintext_from` on a `u64`: always succeeds and wraps the value.
#[verifier::external_body]
pub(crate) fn create_plaintext(engine: &mut DefaultEngine, value: u64) -> (r: Result<Plaintext64, EngineFailure>)
    ensures
        r is Ok,
        r matches Ok(p) ==> plaintext_value(p) == value,
{
    match engine.create_plaintext_from(&value) {
        Ok(p) => Ok(p),
        Err(_) => Err(EngineFailure::PlaintextCreation),
    }
}

/// `DefaultEngine::create_plaintext_vector_from` on `u64` values: fails exactly
/// on an empty slice; otherwise wraps a copy of the values.
#[verifier::external_body]
pub(crate) fn create_plaintext_vector(engine: &mut DefaultEngine, values: &[u64])
    -> (r: Result<PlaintextVector64, EngineFailure>)
    ensures
        r is Ok <==> values@.len() > 0,
        r matches Ok(p) ==> plaintext_vector_values(p) == values@,
        r matches Err(e) ==> e == EngineFailure::PlaintextVectorCreation,
{
    match engine.create_plaintext_vector_from(values) {
        Ok(p) => Ok(p),
        Err(_) => Err(EngineFailure::PlaintextVectorCreation),
    }
}

/// `DefaultEngine::encrypt_scalar_ggsw_ciphertext`: always succeeds, with a
/// ciphertext of the key's polynomial size, GLWE size `dimension + 1`, and the
/// given decomposition parameters, holding `level_count * glwe_size^2 *
/// polynomial_size` coefficients. The requirements are those under which the
/// encryption's scaling factor `1 << (64 - base_log * level)` and its allocation
/// do not overflow and its generator can be split per level. The coefficients
/// are random and left unsaid, as is the assumption that the engine's generator
/// still has room for the bytes the encryption draws.
#[verifier::external_body]
pub(crate) fn encrypt_ggsw(
    engine: &mut DefaultEngine,
    key: &GlweSecretKey64,
    plaintext: &Plaintext64,
    noise: Variance,
    level_count: usize,
    base_log: usize,
) -> (r: Result<GgswCiphertext64, EngineFailure>)
    requires
        level_count >= 1,
        base_log >= 1,
        base_log * level_count <= 64,
        glwe_key_shape(*key).0 >= 1,
        glwe_key_shape(*key).1 >= 1,
        ggsw_len(glwe_key_shape(*key).0 + 1, glwe_key_shape(*key).1, level_count as nat) <= usize::MAX,
    ensures
        r is Ok,
        r matches Ok(g) ==> ggsw_shape(g) == (
            glwe_key_shape(*key).1,
            glwe_key_shape(*key).0 + 1,
            level_count as nat,
            base_log as nat,
        ) && ggsw_coefficients(g).len() == ggsw_len(
            glwe_key_shape(*key).0 + 1,
            glwe_key_shape(*key).1,
            level_count as nat,
        ),
{
    match engine.encrypt_scalar_ggsw_ciphertext(
        key,
        plaintext,
        noise,
        DecompositionLevelCount(level_count),
        DecompositionBaseLog(base_log),
    ) {
        Ok(g) => Ok(g),
        Err(_) => Err(EngineFailure::GgswEncryption),
    }
}

/// `DefaultEngine::encrypt_glwe_ciphertext`: fails exactly when the number of
/// plaintexts differs from the key's polynomial size; otherwise the ciphertext
/// has the key's polynomial size and `(dimension + 1) * polynomial_size`
/// coefficients, which are random and left unsaid.
#[verifier::external_body]
pub(crate) fn encrypt_glwe(
    engine: &mut DefaultEngine,
    key: &GlweSecretKey64,
    plaintexts: &PlaintextVector64,
    noise: Variance,
) -> (r: Result<GlweCiphertext64, EngineFailure>)
    requires
        glwe_key_shape(*key).0 >= 1,
        glwe_key_shape(*key).1 >= 1,
        glwe_len(glwe_key_shape(*key).0 + 1, glwe_key_shape(*key).1) <= usize::MAX,
    ensures
        r is Ok <==> plaintext_vector_values(*plaintexts).len() == glwe_key_shape(*key).1,
        r matches Ok(c) ==> glwe_polynomial_size(c) == glwe_key_shape(*key).1 && glwe_coefficients(
            c,
        ).len() == glwe_len(glwe_key_shape(*key).0 + 1, glwe_key_shape(*key).1),
        r matches Err(e) ==> e == EngineFailure::GlweEncryption,
{
    match engine.encrypt_glwe_ciphertext(key, plaintexts, noise) {
        Ok(c) => Ok(c),
        Err(_) => Err(EngineFailure::GlweEncryption),
    }
}

/// `DefaultEngine::zero_encrypt_glwe_ciphertext`: always succeeds, with a
/// ciphertext of the key's polynomial size and `(dimension + 1) *
/// polynomial_size` coefficients, which are random and left unsaid.
#[verifier::external_body]
pub(crate) fn zero_encrypt_glwe(engine: &mut DefaultEngine, key: &GlweSecretKey64, noise: Variance)
    -> (r: Result<GlweCiphertext64, EngineFailure>)
    requires
        glwe_key_shape(*key).0 >= 1,
        glwe_key_shape(*key).1 >= 1,
        glwe_len(glwe_key_shape(*key).0 + 1, glwe_key_shape(*key).1) <= usize::MAX,
    ensures
        r is Ok,
        r matches Ok(c) ==> glwe_polynomial_size(c) == glwe_key_shape(*key).1 && glwe_coefficients(
            c,
        ).len() == glwe_len(glwe_key_shape(*key).0 + 1, glwe_key_shape(*key).1),
{
    match engine.zero_encrypt_glwe_ciphertext(key, noise) {
        Ok(c) => Ok(c),
        Err(_) => Err(EngineFailure::ZeroEncryption),
    }
}

/// `FftEngine::convert_ggsw_ciphertext` into the Fourier domain: fails exactly
/// when the polynomial size is not one the Fourier backend accepts
/// (`FftError::perform_fft_checks`); otherwise the result has the shape of the
/// input. Its complex coefficients are left unsaid.
#[verifier::external_body]
pub(crate) fn convert_ggsw(fft_engine: &mut FftEngine, ciphertext: &GgswCiphertext64)
    -> (r: Result<FftFourierGgswCiphertext64, EngineFailure>)
    requires
        ggsw_shape(*ciphertext).1 >= 1,
        ggsw_shape(*ciphertext).2 >= 1,
        ggsw_shape(*ciphertext).3 >= 1,
    ensures
        r is Ok <==> fft_supported(ggsw_shape(*ciphertext).0),
        r matches Ok(f) ==> fourier_ggsw_shape(f) == ggsw_shape(*ciphertext),
        r matches Err(e) ==> e == EngineFailure::FourierConversion,
{
    match fft_engine.convert_ggsw_ciphertext(ciphertext) {
        Ok(f) => Ok(f),
        Err(_) => Err(EngineFailure::FourierConversion),
    }
}

/// `DefaultEngine::create_glwe_ciphertext_from` on an owned `Vec<u64>`: fails
/// exactly on an empty container or one whose length is not a multiple of the
/// polynomial size; otherwise the ciphertext holds the container as it is.
#[verifier::external_body]
pub(crate) fn create_glwe_ciphertext(engine: &mut DefaultEngine, container: Vec<u64>, polynomial_size: usize)
    -> (r: Result<GlweCiphertext64, EngineFailure>)
    requires
        polynomial_size > 0,
    ensures
        r is Ok <==> (container@.len() > 0 && container@.len() % (polynomial_size as nat) == 0),
        r matches Ok(c) ==> glwe_coefficients(c) == container@ && glwe_polynomial_size(c)
            == polynomial_size,
        r matches Err(e) ==> e == EngineFailure::GlweCreation,
{
    match engine.create_glwe_ciphertext_from(container, PolynomialSize(polynomial_size)) {
        Ok(c) => Ok(c),
        Err(_) => Err(EngineFailure::GlweCreation),
    }
}

/// `FftEngine::discard_compute_external_product_glwe_ciphertext_ggsw_ciphertext`:
/// fails exactly when the input's polynomial size is not one the Fourier
/// backend accepts, or when the polynomial sizes or GLWE dimensions of input,
/// GGSW and output differ; then `output` is untouched. Otherwise `output` is
/// overwritten in place and keeps its shape; the product's coefficients, which
/// go through floating-point transforms, are left unsaid. The decomposition
/// must leave some bits undecomposed, as the decomposer asserts.
#[verifier::external_body]
pub(crate) fn external_product(
    fft_engine: &mut FftEngine,
    input: &GlweCiphertext64,
    ggsw: &FftFourierGgswCiphertext64,
    output: &mut GlweCiphertext64,
) -> (r: Result<(), EngineFailure>)
    requires
        glwe_well_shaped(*input),
        glwe_well_shaped(*old(output)),
        fourier_ggsw_shape(*ggsw).1 >= 1,
        fourier_ggsw_shape(*ggsw).2 >= 1,
        fourier_ggsw_shape(*ggsw).3 >= 1,
        fourier_ggsw_shape(*ggsw).2 * fourier_ggsw_shape(*ggsw).3 < 64,
    ensures
        r is Ok <==> (fft_supported(glwe_polynomial_size(*input)) && glwe_polynomial_size(*input)
            == fourier_ggsw_shape(*ggsw).0 && glwe_polynomial_size(*input) == glwe_polynomial_size(
            *old(output),
        ) && glwe_dimension_of(*input) == fourier_ggsw_shape(*ggsw).1 - 1 && glwe_dimension_of(
            *input,
        ) == glwe_dimension_of(*old(output))),
        glwe_polynomial_size(*final(output)) == glwe_polynomial_size(*old(output)),
        glwe_coefficients(*final(output)).len() == glwe_coefficients(*old(output)).len(),
        r is Err ==> glwe_coefficients(*final(output)) == glwe_coefficients(*old(output)),
        r matches Err(e) ==> e == EngineFailure::ExternalProduct,
{
    match fft_engine.discard_compute_external_product_glwe_ciphertext_ggsw_ciphertext(input, ggsw, output) {
        Ok(()) => Ok(()),
        Err(_) => Err(EngineFailure::ExternalProduct),
    }
}

/// `DefaultEngine::consume_retrieve_glwe_ciphertext` into a `Vec<u64>`: always
/// succeeds and gives back the coefficients the ciphertext holds.
#[verifier::external_body]
pub(crate) fn retrieve_glwe_coefficients(engine: &mut DefaultEngine, ciphertext: GlweCiphertext64)
    -> (r: Result<Vec<u64>, EngineFailure>)
    ensures
        r is Ok,
        r matches Ok(v) ==> v@ == glwe_coefficients(ciphertext),
{
    match engine.consume_retrieve_glwe_ciphertext(ciphertext) {
        Ok(v) => Ok(v),
        Err(_) => Err(EngineFailure::Retrieval),
    }
}

/// The derived `Clone` of `GlweCiphertext64`: a copy with the same coefficients
/// and polynomial size.
#[verifier::external_body]
pub(crate) fn clone_glwe(ciphertext: &GlweCiphertext64) -> (r: GlweCiphertext64)
    ensures
        glwe_coefficients(r) == glwe_coefficients(*ciphertext),
        glwe_polynomial_size(r) == glwe_polynomial_size(*ciphertext),
{
    ciphertext.clone()
}

/// `DefaultEngine::decrypt_glwe_ciphertext`: fails exactly when the GLWE
/// dimension or the polynomial size of the ciphertext differs from the key's;
/// otherwise gives one plaintext per coefficient of a polynomial. The decrypted
/// values depend on the key's coefficients and are left unsaid.
#[verifier::external_body]
pub(crate) fn decrypt_glwe(engine: &mut DefaultEngine, key: &GlweSecretKey64, ciphertext: &GlweCiphertext64)
    -> (r: Result<PlaintextVector64, EngineFailure>)
    requires
        glwe_key_shape(*key).1 >= 1,
        glwe_well_shaped(*ciphertext),
    ensures
        r is Ok <==> (glwe_dimension_of(*ciphertext) == glwe_key_shape(*key).0
            && glwe_polynomial_size(*ciphertext) == glwe_key_shape(*key).1),
        r matches Ok(p) ==> plaintext_vector_values(p).len() == glwe_key_shape(*key).1,
        r matches Err(e) ==> e == EngineFailure::Decryption,
{
    match engine.decrypt_glwe_ciphertext(key, ciphertext) {
        Ok(p) => Ok(p),
        Err(_) => Err(EngineFailure::Decryption),
    }
}

/// `DefaultSerializationEngine::serialize` of a `GgswCiphertext64`: bincode
/// with fixed-width little-endian integers of the version tag and the standard
/// GGSW ciphertext (coefficient container, polynomial size, GLWE size,
/// decomposition base log). No serializer in that chain can fail.
#[verifier::external_body]
pub(crate) fn serialize_ggsw(serializer: &mut DefaultSerializationEngine, ciphertext: &GgswCiphertext64)
    -> (r: Result<Vec<u8>, EngineFailure>)
    ensures
        r is Ok,
        r matches Ok(b) ==> b@ == ggsw_frame(
            ggsw_coefficients(*ciphertext),
            ggsw_shape(*ciphertext).0 as u64,
            ggsw_shape(*ciphertext).1 as u64,
            ggsw_shape(*ciphertext).3 as u64,
        ),
{
    match serializer.serialize(ciphertext) {
        Ok(b) => Ok(b),
        Err(_) => Err(EngineFailure::Serialization),
    }
}

/// `DefaultSerializationEngine::serialize` of a `GlweCiphertext64`: bincode
/// with fixed-width little-endian integers of the version tag and the GLWE
/// ciphertext (coefficient container, polynomial size). No serializer in that
/// chain can fail. The container's length and the polynomial size are `usize`s.
#[verifier::external_body]
pub(crate) fn serialize_glwe(serializer: &mut DefaultSerializationEngine, ciphertext: &GlweCiphertext64)
    -> (r: Result<Vec<u8>, EngineFailure>)
    ensures
        r is Ok,
        r matches Ok(b) ==> b@ == glwe_frame(
            glwe_coefficients(*ciphertext),
            glwe_polynomial_size(*ciphertext) as u64,
        ) && glwe_coefficients(*ciphertext).len() <= usize::MAX && glwe_polynomial_size(*ciphertext)
            <= usize::MAX,
{
    match serializer.serialize(ciphertext) {
        Ok(b) => Ok(b),
        Err(_) => Err(EngineFailure::Serialization),
    }
}

/// `DefaultSerializationEngine::deserialize` into a `GlweCiphertext64`: bincode
/// reads the version tag and the GLWE ciphertext from the front of the bytes
/// and ignores any bytes after them: it succeeds whenever the input starts with
/// the frame of some coefficients and polynomial size that fit in `usize`, and
/// on success the ciphertext's frame starts the input.
#[verifier::external_body]
pub(crate) fn deserialize_glwe(serializer: &mut DefaultSerializationEngine, bytes: &[u8])
    -> (r: Result<GlweCiphertext64, EngineFailure>)
    ensures
        r matches Ok(c) ==> {
            &&& glwe_coefficients(c).len() <= u64::MAX
            &&& glwe_polynomial_size(c) <= u64::MAX
            &&& glwe_frame(glwe_coefficients(c), glwe_polynomial_size(c) as u64).len() <= bytes@.len()
            &&& bytes@.subrange(0, glwe_frame(glwe_coefficients(c), glwe_polynomial_size(c) as u64).len() as int)
                == glwe_frame(glwe_coefficients(c), glwe_polynomial_size(c) as u64)
        },
        (exists|c: Seq<u64>, p: u64|
            c.len() <= usize::MAX && p <= usize::MAX && glwe_frame(c, p).len() <= bytes@.len()
                && #[trigger] bytes@.subrange(0, glwe_frame(c, p).len() as int) == glwe_frame(c, p))
            ==> r is Ok,
        r matches Err(e) ==> e == EngineFailure::Deserialization,
{
    match serializer.deserialize(bytes) {
        Ok(c) => Ok(c),
        Err(_) => Err(EngineFailure::Deserialization),
    }
}

} // verus!
