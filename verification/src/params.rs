//! Sizes of the coefficient containers behind GLWE and GGSW ciphertexts.
use vstd::prelude::*;

verus! {

/// Number of coefficients of a GLWE ciphertext made of `glwe_size` polynomials
/// of `polynomial_size` coefficients each.
pub open spec fn glwe_len(glwe_size: nat, polynomial_size: nat) -> nat {
    glwe_size * polynomial_size
}

/// Number of GLWE rows of a GGSW ciphertext: one row per mask/body polynomial
/// and per decomposition level.
pub open spec fn ggsw_row_count(glwe_size: nat, level_count: nat) -> nat {
    level_count * glwe_size
}

/// Number of coefficients of a standard-domain GGSW ciphertext.
pub open spec fn ggsw_len(glwe_size: nat, polynomial_size: nat, level_count: nat) -> nat {
    ggsw_row_count(glwe_size, level_count) * glwe_len(glwe_size, polynomial_size)
}

/// Number of complex coefficients of a Fourier-domain GGSW ciphertext:
/// each polynomial of `polynomial_size` real coefficients is held as
/// `polynomial_size / 2` complex ones.
pub open spec fn fourier_ggsw_len(glwe_size: nat, polynomial_size: nat, level_count: nat) -> nat {
    (polynomial_size / 2) * glwe_size * glwe_size * level_count
}

/// The GLWE size that goes with a GLWE dimension (the mask polynomials plus the body).
pub fn glwe_size_of(glwe_dimension: usize) -> (r: usize)
    requires
        glwe_dimension < usize::MAX,
    ensures
        r == glwe_dimension + 1,
{
    glwe_dimension + 1
}

/// Length of the coefficient container of a GLWE ciphertext.
pub fn glwe_container_len(glwe_size: usize, polynomial_size: usize) -> (r: usize)
    requires
        glwe_len(glwe_size as nat, polynomial_size as nat) <= usize::MAX,
    ensures
        r == glwe_len(glwe_size as nat, polynomial_size as nat),
{
    polynomial_size * glwe_size
}


/// Length of the complex coefficient container of a Fourier-domain GGSW ciphertext,
/// computed as `polynomial_size / 2 * glwe_size * glwe_size * level_count`, each
/// partial product being a machine integer.
pub fn fourier_ggsw_container_len(glwe_size: usize, polynomial_size: usize, level_count: usize) -> (r: usize)
    requires
        (polynomial_size / 2) * glwe_size <= usize::MAX,
        (polynomial_size / 2) * glwe_size * glwe_size <= usize::MAX,
        fourier_ggsw_len(glwe_size as nat, polynomial_size as nat, level_count as nat) <= usize::MAX,
    ensures
        r == fourier_ggsw_len(glwe_size as nat, polynomial_size as nat, level_count as nat),
{
    let half = polynomial_size / 2;
    let a = half * glwe_size;
    let b = a * glwe_size;
    b * level_count
}

/// The rows of a GGSW ciphertext are GLWE ciphertexts laid end to end: the
/// container holds exactly `level_count * glwe_size` rows of
/// `glwe_size * polynomial_size` coefficients.
pub proof fn lemma_ggsw_rows_partition(glwe_size: nat, polynomial_size: nat, level_count: nat)
    ensures
        ggsw_len(glwe_size, polynomial_size, level_count) == ggsw_row_count(glwe_size, level_count)
            * glwe_len(glwe_size, polynomial_size),
        glwe_len(glwe_size, polynomial_size) > 0 ==> ggsw_len(glwe_size, polynomial_size, level_count)
            % glwe_len(glwe_size, polynomial_size) == 0,
        glwe_len(glwe_size, polynomial_size) > 0 ==> ggsw_len(glwe_size, polynomial_size, level_count)
            / glwe_len(glwe_size, polynomial_size) == ggsw_row_count(glwe_size, level_count),
{
    let r = ggsw_row_count(glwe_size, level_count);
    let w = glwe_len(glwe_size, polynomial_size);
    if w > 0 {
        vstd::arithmetic::div_mod::lemma_mod_multiples_basic(r as int, w as int);
        vstd::arithmetic::div_mod::lemma_div_multiples_vanish(r as int, w as int);
    }
}

/// For an even polynomial size, the Fourier-domain GGSW holds half as many
/// (complex) coefficients as the standard-domain GGSW of the same parameters.
pub proof fn lemma_fourier_halves_standard(glwe_size: nat, polynomial_size: nat, level_count: nat)
    requires
        polynomial_size % 2 == 0,
    ensures
        2 * fourier_ggsw_len(glwe_size, polynomial_size, level_count) == ggsw_len(
            glwe_size,
            polynomial_size,
            level_count,
        ),
{
    let h = polynomial_size / 2;
    assert(polynomial_size == 2 * h);
    assert(2 * (h * glwe_size * glwe_size * level_count) == (level_count * glwe_size) * (glwe_size
        * (2 * h))) by (nonlinear_arith);
}

} // verus!
