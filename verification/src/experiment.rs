//! The two external-product experiments: one that encrypts a message vector,
//! multiplies it by a GGSW encryption of one and decrypts the product; one that
//! multiplies GLWE ciphertexts built from every coefficient of a GGSW
//! ciphertext by another GGSW ciphertext, writes the products into the rows of
//! a third GGSW ciphertext, and decrypts its last row after a serialization
//! round trip.
use vstd::prelude::*;
use crate::codec::{
    decode_ggsw_frame, ggsw_frame, glwe_frame, is_ggsw_frame, lemma_ggsw_frame_injective,
    lemma_glwe_frame_prefix_free,
};
use crate::fhe::{
    clone_glwe, convert_ggsw, create_glwe_ciphertext, create_plaintext, create_plaintext_vector,
    decrypt_glwe, deserialize_glwe, encrypt_ggsw, encrypt_glwe, external_product, fft_supported,
    fourier_ggsw_shape, generate_glwe_secret_key, ggsw_coefficients, ggsw_shape, glwe_coefficients,
    glwe_key_shape, glwe_polynomial_size, plaintext_vector_values, retrieve_glwe_coefficients, serialize_ggsw, serialize_glwe,
    zero_encrypt_glwe, EngineFailure,
};
use crate::params::{
    ggsw_len, ggsw_row_count, glwe_container_len, glwe_len, glwe_size_of,
    lemma_ggsw_rows_partition,
};
use crate::rows::{overwritten_last_row, replicate, rows_have_len, views};
use concrete_core::prelude::{
    DefaultEngine, DefaultSerializationEngine, FftEngine, FftFourierGgswCiphertext64,
    GgswCiphertext64, GlweCiphertext64, PlaintextVector64, Variance,
};

verus! {

/// The parameters of an experiment: the GLWE dimension and polynomial size of
/// the secret key, and the decomposition of the GGSW ciphertexts.
#[derive(Clone, Copy, Debug, PartialEq, Eq, Structural)]
pub struct ExperimentParams {
    pub glwe_dimension: usize,
    pub polynomial_size: usize,
    pub level_count: usize,
    pub base_log: usize,
}

impl ExperimentParams {
    /// The decomposition has at least one level of at least one bit, and
    /// leaves some of the 64 bits undecomposed.
    pub open spec fn valid_decomposition(self) -> bool {
        &&& self.level_count >= 1
        &&& self.base_log >= 1
        &&& self.base_log * self.level_count < 64
    }

    /// The GGSW ciphertexts of these parameters fit in memory addresses.
    pub open spec fn fits(self) -> bool {
        &&& self.glwe_dimension < usize::MAX
        &&& ggsw_len((self.glwe_dimension + 1) as nat, self.polynomial_size as nat, self.level_count as nat)
            <= usize::MAX
    }

    /// A secret key of this shape can be generated.
    pub open spec fn key_shape_ok(self) -> bool {
        self.glwe_dimension > 0 && self.polynomial_size > 1
    }
}

proof fn lemma_shape_facts(k: nat, n: nat, level: nat)
    requires
        n > 1,
        level >= 1,
    ensures
        glwe_len(k + 1, n) > 0,
        glwe_len(k + 1, n) <= ggsw_len(k + 1, n, level),
        glwe_len(k + 1, n) % n == 0,
        glwe_len(k + 1, n) / n == k + 1,
        glwe_len(k + 1, n) >= n,
        ggsw_row_count(k + 1, level) >= 1,
        ggsw_len(k + 1, n, level) % glwe_len(k + 1, n) == 0,
        ggsw_len(k + 1, n, level) / glwe_len(k + 1, n) == ggsw_row_count(k + 1, level),
{
    let g = k + 1;
    let w = glwe_len(g, n);
    let rows = ggsw_row_count(g, level);
    assert(w > 0 && w >= n) by (nonlinear_arith)
        requires
            w == g * n,
            g >= 1,
            n > 1,
    ;
    assert(rows >= 1) by (nonlinear_arith)
        requires
            rows == level * g,
            level >= 1,
            g >= 1,
    ;
    assert(w <= rows * w) by (nonlinear_arith)
        requires
            rows >= 1,
    ;
    assert(w == g * n);
    vstd::arithmetic::div_mod::lemma_mod_multiples_basic(g as int, n as int);
    vstd::arithmetic::div_mod::lemma_div_multiples_vanish(g as int, n as int);
    assert((g * n) % n == 0);
    lemma_ggsw_rows_partition(g, n, level);
}

/// Encrypts `polynomial_size` copies of `message` under a fresh key, multiplies
/// the ciphertext by a GGSW encryption of one (through the Fourier domain) into
/// a zero encryption, and decrypts the product.
///
/// The message vector cannot be wrapped exactly when the polynomial size is
/// null; the key cannot be generated exactly when the GLWE dimension is null or the
/// polynomial size is below two; the GGSW ciphertext cannot be converted to the
/// Fourier domain exactly when the polynomial size is not a power of two of at
/// least 32. Every other step then goes through, and the decryption holds one
/// plaintext per coefficient of a polynomial.
pub fn external_product_round(
    engine: &mut DefaultEngine,
    fft_engine: &mut FftEngine,
    noise: Variance,
    params: ExperimentParams,
    message: u64,
) -> (r: Result<PlaintextVector64, EngineFailure>)
    requires
        params.valid_decomposition(),
        params.fits(),
    ensures
        params.polynomial_size == 0 ==> r == Err::<PlaintextVector64, EngineFailure>(
            EngineFailure::PlaintextVectorCreation,
        ),
        params.polynomial_size > 0 && !params.key_shape_ok() ==> r == Err::<
            PlaintextVector64,
            EngineFailure,
        >(EngineFailure::KeyGeneration),
        params.key_shape_ok() && !fft_supported(params.polynomial_size as nat) ==> r == Err::<
            PlaintextVector64,
            EngineFailure,
        >(EngineFailure::FourierConversion),
        params.key_shape_ok() && fft_supported(params.polynomial_size as nat) ==> r is Ok,
        r matches Ok(p) ==> plaintext_vector_values(p).len() == params.polynomial_size,
{
    let k = params.glwe_dimension;
    let n = params.polynomial_size;
    let raw_input = replicate(message, n);
    let plaintext_vector = match create_plaintext_vector(engine, raw_input.as_slice()) {
        Ok(p) => p,
        Err(e) => return Err(e),
    };
    let ggsw_plaintext = match create_plaintext(engine, 1) {
        Ok(p) => p,
        Err(e) => return Err(e),
    };
    let key = match generate_glwe_secret_key(engine, k, n) {
        Ok(key) => key,
        Err(e) => return Err(e),
    };
    proof {
        lemma_shape_facts(k as nat, n as nat, params.level_count as nat);
    }
    let ggsw = match encrypt_ggsw(engine, &key, &ggsw_plaintext, noise, params.level_count, params.base_log) {
        Ok(g) => g,
        Err(e) => return Err(e),
    };
    let fourier_ggsw = match convert_ggsw(fft_engine, &ggsw) {
        Ok(f) => f,
        Err(e) => return Err(e),
    };
    let ciphertext = match encrypt_glwe(engine, &key, &plaintext_vector, noise) {
        Ok(c) => c,
        Err(e) => return Err(e),
    };
    let mut product = match zero_encrypt_glwe(engine, &key, noise) {
        Ok(c) => c,
        Err(e) => return Err(e),
    };
    proof {
        let level = params.level_count;
        let base_log = params.base_log;
        assert(level * base_log < 64) by (nonlinear_arith)
            requires
                base_log * level < 64,
        ;
    }
    match external_product(fft_engine, &ciphertext, &fourier_ggsw, &mut product) {
        Ok(()) => {},
        Err(e) => return Err(e),
    }
    decrypt_glwe(engine, &key, &product)
}


/// Multiplies, through the Fourier domain, a GGSW encryption of one by the GLWE
/// ciphertexts whose coefficients all equal one coefficient of a second GGSW
/// encryption of one, one product per coefficient, each into a copy of a zero
/// encryption. Returns the products in coefficient order.
fn coefficient_products(
    engine: &mut DefaultEngine,
    fft_engine: &mut FftEngine,
    coefficients: &Vec<u64>,
    fourier_ggsw: &FftFourierGgswCiphertext64,
    template: &GlweCiphertext64,
    polynomial_size: usize,
    row_len: usize,
) -> (r: Result<Vec<GlweCiphertext64>, EngineFailure>)
    requires
        polynomial_size > 0,
        fft_supported(polynomial_size as nat),
        row_len >= polynomial_size,
        row_len % polynomial_size == 0,
        fourier_ggsw_shape(*fourier_ggsw).0 == polynomial_size,
        fourier_ggsw_shape(*fourier_ggsw).1 == row_len / polynomial_size,
        fourier_ggsw_shape(*fourier_ggsw).2 >= 1,
        fourier_ggsw_shape(*fourier_ggsw).3 >= 1,
        fourier_ggsw_shape(*fourier_ggsw).2 * fourier_ggsw_shape(*fourier_ggsw).3 < 64,
        glwe_polynomial_size(*template) == polynomial_size,
        glwe_coefficients(*template).len() == row_len,
    ensures
        r matches Ok(products) ==> products.len() == coefficients.len() && forall|j: int|
            0 <= j < products.len() ==> glwe_polynomial_size(#[trigger] products@[j])
                == polynomial_size && glwe_coefficients(products@[j]).len() == row_len,
        r is Ok,
{
    let total = coefficients.len();
    let mut products: Vec<GlweCiphertext64> = Vec::new();
    let mut i: usize = 0;
    while i < total
        invariant
            total == coefficients.len(),
            i <= total,
            polynomial_size > 0,
            fft_supported(polynomial_size as nat),
            row_len >= polynomial_size,
            row_len % polynomial_size == 0,
            fourier_ggsw_shape(*fourier_ggsw).0 == polynomial_size,
            fourier_ggsw_shape(*fourier_ggsw).1 == row_len / polynomial_size,
            fourier_ggsw_shape(*fourier_ggsw).2 >= 1,
            fourier_ggsw_shape(*fourier_ggsw).3 >= 1,
            fourier_ggsw_shape(*fourier_ggsw).2 * fourier_ggsw_shape(*fourier_ggsw).3 < 64,
            glwe_polynomial_size(*template) == polynomial_size,
            glwe_coefficients(*template).len() == row_len,
            products.len() == i,
            forall|j: int|
                0 <= j < i ==> glwe_polynomial_size(#[trigger] products@[j]) == polynomial_size
                    && glwe_coefficients(products@[j]).len() == row_len,
        decreases total - i,
    {
        let container = replicate(coefficients[i], row_len);
        let ciphertext = match create_glwe_ciphertext(engine, container, polynomial_size) {
            Ok(c) => c,
            Err(e) => return Err(e),
        };
        let mut product = clone_glwe(template);
        match external_product(fft_engine, &ciphertext, fourier_ggsw, &mut product) {
            Ok(()) => {},
            Err(e) => return Err(e),
        }
        products.push(product);
        i = i + 1;
    }
    Ok(products)
}

/// The containers of the first `count` ciphertexts, in order.
fn retrieve_rows(engine: &mut DefaultEngine, ciphertexts: &Vec<GlweCiphertext64>, count: usize)
    -> (r: Result<Vec<Vec<u64>>, EngineFailure>)
    requires
        count <= ciphertexts.len(),
    ensures
        r is Ok,
        r matches Ok(rows) ==> rows.len() == count && forall|j: int|
            0 <= j < count ==> (#[trigger] rows@[j])@ == glwe_coefficients(ciphertexts@[j]),
{
    let mut rows: Vec<Vec<u64>> = Vec::new();
    let mut i: usize = 0;
    while i < count
        invariant
            count <= ciphertexts.len(),
            i <= count,
            rows.len() == i,
            forall|j: int| 0 <= j < i ==> (#[trigger] rows@[j])@ == glwe_coefficients(ciphertexts@[j]),
        decreases count - i,
    {
        let row = match retrieve_glwe_coefficients(engine, clone_glwe(&ciphertexts[i])) {
            Ok(v) => v,
            Err(e) => return Err(e),
        };
        rows.push(row);
        i = i + 1;
    }
    Ok(rows)
}

/// Under a fresh key, encrypts three GGSW ciphertexts of one; multiplies the
/// Fourier form of the first by, for each coefficient of the second, the GLWE
/// ciphertext whose coefficients all equal it; overwrites each row of the third
/// with the product of the same index; and decrypts the third's last row after
/// serializing and deserializing it.
///
/// The key cannot be generated exactly when the GLWE dimension is null or the
/// polynomial size is below two; the first GGSW ciphertext cannot be converted
/// to the Fourier domain exactly when the polynomial size is not a power of two
/// of at least 32. Every other step then goes through, and the decryption
/// holds one plaintext per coefficient of a polynomial.
pub fn ggsw_row_products(
    engine: &mut DefaultEngine,
    fft_engine: &mut FftEngine,
    serializer: &mut DefaultSerializationEngine,
    noise: Variance,
    params: ExperimentParams,
) -> (r: Result<PlaintextVector64, EngineFailure>)
    requires
        params.valid_decomposition(),
        params.fits(),
    ensures
        !params.key_shape_ok() ==> r == Err::<PlaintextVector64, EngineFailure>(
            EngineFailure::KeyGeneration,
        ),
        params.key_shape_ok() && !fft_supported(params.polynomial_size as nat) ==> r == Err::<
            PlaintextVector64,
            EngineFailure,
        >(EngineFailure::FourierConversion),
        params.key_shape_ok() && fft_supported(params.polynomial_size as nat) ==> r is Ok,
        r matches Ok(p) ==> plaintext_vector_values(p).len() == params.polynomial_size,
{
    let k = params.glwe_dimension;
    let n = params.polynomial_size;
    let level = params.level_count;
    let key = match generate_glwe_secret_key(engine, k, n) {
        Ok(key) => key,
        Err(e) => return Err(e),
    };
    proof {
        lemma_shape_facts(k as nat, n as nat, level as nat);
        let base_log = params.base_log;
        assert(level * base_log < 64) by (nonlinear_arith)
            requires
                base_log * level < 64,
        ;
    }
    let plaintext1 = match create_plaintext(engine, 1) {
        Ok(p) => p,
        Err(e) => return Err(e),
    };
    let ggsw1 = match encrypt_ggsw(engine, &key, &plaintext1, noise, level, params.base_log) {
        Ok(g) => g,
        Err(e) => return Err(e),
    };
    let plaintext2 = match create_plaintext(engine, 1) {
        Ok(p) => p,
        Err(e) => return Err(e),
    };
    let ggsw2 = match encrypt_ggsw(engine, &key, &plaintext2, noise, level, params.base_log) {
        Ok(g) => g,
        Err(e) => return Err(e),
    };
    let fourier_ggsw = match convert_ggsw(fft_engine, &ggsw1) {
        Ok(f) => f,
        Err(e) => return Err(e),
    };
    let coefficients2 = match read_ggsw_coefficients(serializer, &ggsw2) {
        Ok(c) => c,
        Err(e) => return Err(e),
    };
    let template = match zero_encrypt_glwe(engine, &key, noise) {
        Ok(c) => c,
        Err(e) => return Err(e),
    };
    let glwe_size = glwe_size_of(k);
    let row_len = glwe_container_len(glwe_size, n);
    let products = match coefficient_products(
        engine,
        fft_engine,
        &coefficients2,
        &fourier_ggsw,
        &template,
        n,
        row_len,
    ) {
        Ok(p) => p,
        Err(e) => return Err(e),
    };
    let plaintext3 = match create_plaintext(engine, 1) {
        Ok(p) => p,
        Err(e) => return Err(e),
    };
    let ggsw3 = match encrypt_ggsw(engine, &key, &plaintext3, noise, level, params.base_log) {
        Ok(g) => g,
        Err(e) => return Err(e),
    };
    let container3 = match read_ggsw_coefficients(serializer, &ggsw3) {
        Ok(c) => c,
        Err(e) => return Err(e),
    };
    let row_count = container3.len() / row_len;
    let rows = match retrieve_rows(engine, &products, row_count) {
        Ok(r) => r,
        Err(e) => return Err(e),
    };
    proof {
        assert(rows_have_len(views(rows@), row_len as nat)) by {
            assert forall|j: int| 0 <= j < views(rows@).len() implies (#[trigger] views(
                rows@,
            )[j]).len() == row_len by {
                assert(views(rows@)[j] == rows@[j]@);
                assert(rows@[j]@ == glwe_coefficients(products@[j]));
            }
        }
    }
    let last = overwritten_last_row(container3, &rows, row_len);
    assert(last@ == glwe_coefficients(products@[row_count - 1]));
    let view = match create_glwe_ciphertext(engine, last, n) {
        Ok(c) => c,
        Err(e) => return Err(e),
    };
    let recovered = match serialization_round_trip(serializer, &view) {
        Ok(c) => c,
        Err(e) => return Err(e),
    };
    decrypt_glwe(engine, &key, &recovered)
}

/// Serializes a GLWE ciphertext and deserializes the bytes: both always go
/// through, and the ciphertext read back has the coefficients and the
/// polynomial size of the one that was written.
pub fn serialization_round_trip(serializer: &mut DefaultSerializationEngine, ciphertext: &GlweCiphertext64)
    -> (r: Result<GlweCiphertext64, EngineFailure>)
    ensures
        r is Ok,
        r matches Ok(c) ==> glwe_coefficients(c) == glwe_coefficients(*ciphertext)
            && glwe_polynomial_size(c) == glwe_polynomial_size(*ciphertext),
{
    let serialized = match serialize_glwe(serializer, ciphertext) {
        Ok(b) => b,
        Err(e) => return Err(e),
    };
    proof {
        let c = glwe_coefficients(*ciphertext);
        let p = glwe_polynomial_size(*ciphertext) as u64;
        assert(serialized@.subrange(0, glwe_frame(c, p).len() as int) =~= glwe_frame(c, p));
    }
    let recovered = match deserialize_glwe(serializer, serialized.as_slice()) {
        Ok(c) => c,
        Err(e) => return Err(e),
    };
    proof {
        lemma_glwe_frame_prefix_free(
            glwe_coefficients(recovered),
            glwe_polynomial_size(recovered) as u64,
            glwe_coefficients(*ciphertext),
            glwe_polynomial_size(*ciphertext) as u64,
        );
    }
    Ok(recovered)
}

/// The coefficients of a GGSW ciphertext, read from its serialized frame.
fn read_ggsw_coefficients(serializer: &mut DefaultSerializationEngine, ciphertext: &GgswCiphertext64)
    -> (r: Result<Vec<u64>, EngineFailure>)
    requires
        ggsw_coefficients(*ciphertext).len() <= usize::MAX,
    ensures
        r is Ok,
        r matches Ok(c) ==> c@ == ggsw_coefficients(*ciphertext),
{
    let bytes = match serialize_ggsw(serializer, ciphertext) {
        Ok(b) => b,
        Err(e) => return Err(e),
    };
    let ghost c = ggsw_coefficients(*ciphertext);
    let ghost p = ggsw_shape(*ciphertext).0 as u64;
    let ghost g = ggsw_shape(*ciphertext).1 as u64;
    let ghost l = ggsw_shape(*ciphertext).3 as u64;
    proof {
        assert(c.len() <= u64::MAX);
        assert(ggsw_frame(c, p, g, l) == bytes@);
        assert(is_ggsw_frame(bytes@));
    }
    match decode_ggsw_frame(bytes.as_slice()) {
        Ok(frame) => {
            let count: usize = frame.coefficients.len();
            proof {
                assert(count <= u64::MAX);
                lemma_ggsw_frame_injective(
                    frame.coefficients@,
                    frame.polynomial_size,
                    frame.glwe_size,
                    frame.decomposition_base_log,
                    c,
                    p,
                    g,
                    l,
                );
            }
            Ok(frame.coefficients)
        },
        Err(_) => Err(EngineFailure::Serialization),
    }
}

} // verus!
