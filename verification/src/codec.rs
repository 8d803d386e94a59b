//! The byte frames in which GLWE and GGSW ciphertexts over 64-bit integers are
//! serialized: a 4-byte version tag (variant 0, little endian), the number of
//! coefficients as a little-endian `u64`, the coefficients as little-endian
//! `u64` words, then the layout parameters as little-endian `u64` words
//! (the polynomial size for a GLWE ciphertext; the polynomial size, the GLWE
//! size and the decomposition base log for a GGSW ciphertext).
use vstd::prelude::*;

verus! {

/// The four bytes of the version tag that opens every frame (variant 0).
pub open spec fn version_tag() -> Seq<u8> {
    seq![0u8, 0u8, 0u8, 0u8]
}

/// The little-endian bytes of a 64-bit word.
pub open spec fn u64_le_bytes(x: u64) -> Seq<u8> {
    seq![
        x as u8,
        (x >> 8u64) as u8,
        (x >> 16u64) as u8,
        (x >> 24u64) as u8,
        (x >> 32u64) as u8,
        (x >> 40u64) as u8,
        (x >> 48u64) as u8,
        (x >> 56u64) as u8,
    ]
}

/// The 64-bit word whose little-endian bytes are `b0, ..., b7`.
pub open spec fn u64_from_le(b0: u8, b1: u8, b2: u8, b3: u8, b4: u8, b5: u8, b6: u8, b7: u8) -> u64 {
    (b0 as u64) | ((b1 as u64) << 8u64) | ((b2 as u64) << 16u64) | ((b3 as u64) << 24u64) | ((
    b4 as u64) << 32u64) | ((b5 as u64) << 40u64) | ((b6 as u64) << 48u64) | ((b7 as u64)
        << 56u64)
}

/// The 64-bit word held little-endian in the eight bytes of `b` from `at` on.
pub open spec fn u64_at(b: Seq<u8>, at: int) -> u64 {
    u64_from_le(b[at], b[at + 1], b[at + 2], b[at + 3], b[at + 4], b[at + 5], b[at + 6], b[at + 7])
}

/// The words one after the other, each as its little-endian bytes.
pub open spec fn words_le_bytes(words: Seq<u64>) -> Seq<u8>
    decreases words.len(),
{
    if words.len() == 0 {
        Seq::empty()
    } else {
        words_le_bytes(words.drop_last()) + u64_le_bytes(words.last())
    }
}

/// The serialized form of a GLWE ciphertext with the given coefficients and polynomial size.
pub open spec fn glwe_frame(coefficients: Seq<u64>, polynomial_size: u64) -> Seq<u8> {
    version_tag() + u64_le_bytes(coefficients.len() as u64) + words_le_bytes(coefficients)
        + u64_le_bytes(polynomial_size)
}

/// The serialized form of a GGSW ciphertext with the given coefficients and layout.
pub open spec fn ggsw_frame(
    coefficients: Seq<u64>,
    polynomial_size: u64,
    glwe_size: u64,
    decomposition_base_log: u64,
) -> Seq<u8> {
    version_tag() + u64_le_bytes(coefficients.len() as u64) + words_le_bytes(coefficients)
        + u64_le_bytes(polynomial_size) + u64_le_bytes(glwe_size) + u64_le_bytes(
        decomposition_base_log,
    )
}

/// `b` is the serialized form of some GGSW ciphertext.
pub open spec fn is_ggsw_frame(b: Seq<u8>) -> bool {
    exists|c: Seq<u64>, p: u64, g: u64, l: u64|
        c.len() <= u64::MAX && #[trigger] ggsw_frame(c, p, g, l) == b
}

/// The parts of a GGSW frame.
pub struct GgswFrame {
    pub coefficients: Vec<u64>,
    pub polynomial_size: u64,
    pub glwe_size: u64,
    pub decomposition_base_log: u64,
}

impl GgswFrame {
    /// The frame these parts are serialized as.
    pub open spec fn bytes(&self) -> Seq<u8> {
        ggsw_frame(
            self.coefficients@,
            self.polynomial_size,
            self.glwe_size,
            self.decomposition_base_log,
        )
    }
}

/// Why a byte string is not a GGSW frame.
#[derive(Debug, PartialEq, Eq, Structural)]
pub enum FrameError {
    /// Fewer bytes than the shortest frame.
    Truncated,
    /// The version tag is not that of variant 0.
    UnsupportedVersion,
    /// The number of bytes does not match the coefficient count.
    LengthMismatch,
}

proof fn lemma_u64_le_roundtrip(x: u64)
    ensures
        u64_from_le(
            x as u8,
            (x >> 8u64) as u8,
            (x >> 16u64) as u8,
            (x >> 24u64) as u8,
            (x >> 32u64) as u8,
            (x >> 40u64) as u8,
            (x >> 48u64) as u8,
            (x >> 56u64) as u8,
        ) == x,
{
    assert(((x as u8) as u64) | ((((x >> 8u64) as u8) as u64) << 8u64) | ((((x >> 16u64) as u8)
        as u64) << 16u64) | ((((x >> 24u64) as u8) as u64) << 24u64) | ((((x >> 32u64) as u8)
        as u64) << 32u64) | ((((x >> 40u64) as u8) as u64) << 40u64) | ((((x >> 48u64) as u8)
        as u64) << 48u64) | ((((x >> 56u64) as u8) as u64) << 56u64) == x) by (bit_vector);
}

proof fn lemma_le_bytes_of_word(b0: u8, b1: u8, b2: u8, b3: u8, b4: u8, b5: u8, b6: u8, b7: u8)
    ensures
        u64_le_bytes(u64_from_le(b0, b1, b2, b3, b4, b5, b6, b7)) == seq![b0, b1, b2, b3, b4, b5, b6, b7],
{
    let v = u64_from_le(b0, b1, b2, b3, b4, b5, b6, b7);
    assert(v as u8 == b0 && (v >> 8u64) as u8 == b1 && (v >> 16u64) as u8 == b2 && (v >> 24u64)
        as u8 == b3 && (v >> 32u64) as u8 == b4 && (v >> 40u64) as u8 == b5 && (v >> 48u64) as u8
        == b6 && (v >> 56u64) as u8 == b7) by (bit_vector)
        requires
            v == (b0 as u64) | ((b1 as u64) << 8u64) | ((b2 as u64) << 16u64) | ((b3 as u64)
                << 24u64) | ((b4 as u64) << 32u64) | ((b5 as u64) << 40u64) | ((b6 as u64)
                << 48u64) | ((b7 as u64) << 56u64),
    ;
    assert(u64_le_bytes(v) =~= seq![b0, b1, b2, b3, b4, b5, b6, b7]);
}

/// Reading the eight little-endian bytes of a word gives the word back.
pub proof fn lemma_read_written_word(x: u64)
    ensures
        u64_at(u64_le_bytes(x), 0) == x,
{
    lemma_u64_le_roundtrip(x);
}

/// Eight bytes are the little-endian bytes of the word read from them.
pub proof fn lemma_written_read_word(b: Seq<u8>, at: int)
    requires
        0 <= at,
        at + 8 <= b.len(),
    ensures
        u64_le_bytes(u64_at(b, at)) == b.subrange(at, at + 8),
{
    lemma_le_bytes_of_word(b[at], b[at + 1], b[at + 2], b[at + 3], b[at + 4], b[at + 5], b[at + 6], b[at + 7]);
    assert(b.subrange(at, at + 8) =~= seq![b[at], b[at + 1], b[at + 2], b[at + 3], b[at + 4], b[at + 5], b[at + 6], b[at + 7]]);
}

/// Words take eight bytes each.
pub proof fn lemma_words_le_bytes_len(words: Seq<u64>)
    ensures
        words_le_bytes(words).len() == 8 * words.len(),
    decreases words.len(),
{
    if words.len() > 0 {
        lemma_words_le_bytes_len(words.drop_last());
    }
}

/// Appending a word appends its little-endian bytes.
pub proof fn lemma_words_le_bytes_push(words: Seq<u64>, w: u64)
    ensures
        words_le_bytes(words.push(w)) == words_le_bytes(words) + u64_le_bytes(w),
{
    assert(words.push(w).drop_last() =~= words);
}

/// Equally long word sequences with the same bytes are the same sequence.
pub proof fn lemma_words_le_bytes_injective(a: Seq<u64>, b: Seq<u64>)
    requires
        a.len() == b.len(),
        words_le_bytes(a) == words_le_bytes(b),
    ensures
        a == b,
    decreases a.len(),
{
    if a.len() > 0 {
        let a0 = a.drop_last();
        let b0 = b.drop_last();
        lemma_words_le_bytes_len(a0);
        lemma_words_le_bytes_len(b0);
        let n = words_le_bytes(a0).len();
        let wa = words_le_bytes(a);
        assert(wa.subrange(0, n as int) =~= words_le_bytes(a0));
        assert(words_le_bytes(b).subrange(0, n as int) =~= words_le_bytes(b0));
        lemma_words_le_bytes_injective(a0, b0);
        assert(wa.subrange(n as int, n as int + 8) =~= u64_le_bytes(a.last()));
        assert(words_le_bytes(b).subrange(n as int, n as int + 8) =~= u64_le_bytes(b.last()));
        lemma_u64_le_roundtrip(a.last());
        lemma_u64_le_roundtrip(b.last());
        assert(a.last() == b.last());
        assert(a =~= a0.push(a.last()));
        assert(b =~= b0.push(b.last()));
    }
}


/// The layout of a GGSW frame: its length, its version tag, its coefficient
/// count, its coefficient words and its three trailing layout words.
pub proof fn lemma_ggsw_frame_shape(c: Seq<u64>, p: u64, g: u64, l: u64)
    requires
        c.len() <= u64::MAX,
    ensures
        ggsw_frame(c, p, g, l).len() == 36 + 8 * c.len(),
        ggsw_frame(c, p, g, l).subrange(0, 4) == version_tag(),
        u64_at(ggsw_frame(c, p, g, l), 4) == c.len(),
        ggsw_frame(c, p, g, l).subrange(12, 12 + 8 * (c.len() as int)) == words_le_bytes(c),
        u64_at(ggsw_frame(c, p, g, l), 12 + 8 * (c.len() as int)) == p,
        u64_at(ggsw_frame(c, p, g, l), 20 + 8 * (c.len() as int)) == g,
        u64_at(ggsw_frame(c, p, g, l), 28 + 8 * (c.len() as int)) == l,
{
    let f = ggsw_frame(c, p, g, l);
    let n = c.len() as u64;
    lemma_words_le_bytes_len(c);
    let w: int = 8 * (c.len() as int);
    assert(f.subrange(0, 4) =~= version_tag());
    assert(f.subrange(4, 12) =~= u64_le_bytes(n));
    assert(f.subrange(12, 12 + w) =~= words_le_bytes(c));
    lemma_u64_le_roundtrip(n);
    lemma_u64_le_roundtrip(p);
    lemma_u64_le_roundtrip(g);
    lemma_u64_le_roundtrip(l);
    assert(u64_at(f, 4) == u64_at(u64_le_bytes(n), 0));
    assert(u64_at(f, 12 + w) == u64_at(u64_le_bytes(p), 0));
    assert(u64_at(f, 20 + w) == u64_at(u64_le_bytes(g), 0));
    assert(u64_at(f, 28 + w) == u64_at(u64_le_bytes(l), 0));
}

/// The layout of a GLWE frame: its length, its version tag, its coefficient
/// count, its coefficient words and its trailing polynomial size.
pub proof fn lemma_glwe_frame_shape(c: Seq<u64>, p: u64)
    requires
        c.len() <= u64::MAX,
    ensures
        glwe_frame(c, p).len() == 20 + 8 * c.len(),
        glwe_frame(c, p).subrange(0, 4) == version_tag(),
        u64_at(glwe_frame(c, p), 4) == c.len(),
        glwe_frame(c, p).subrange(12, 12 + 8 * (c.len() as int)) == words_le_bytes(c),
        u64_at(glwe_frame(c, p), 12 + 8 * (c.len() as int)) == p,
{
    let f = glwe_frame(c, p);
    let n = c.len() as u64;
    lemma_words_le_bytes_len(c);
    let w: int = 8 * (c.len() as int);
    assert(f.subrange(0, 4) =~= version_tag());
    assert(f.subrange(12, 12 + w) =~= words_le_bytes(c));
    lemma_u64_le_roundtrip(n);
    lemma_u64_le_roundtrip(p);
    assert(u64_at(f, 4) == u64_at(u64_le_bytes(n), 0));
    assert(u64_at(f, 12 + w) == u64_at(u64_le_bytes(p), 0));
}

/// A GGSW frame determines its parts: two frames are equal only when their
/// coefficients and layouts are.
pub proof fn lemma_ggsw_frame_injective(
    c1: Seq<u64>,
    p1: u64,
    g1: u64,
    l1: u64,
    c2: Seq<u64>,
    p2: u64,
    g2: u64,
    l2: u64,
)
    requires
        c1.len() <= u64::MAX,
        c2.len() <= u64::MAX,
        ggsw_frame(c1, p1, g1, l1) == ggsw_frame(c2, p2, g2, l2),
    ensures
        c1 == c2,
        p1 == p2,
        g1 == g2,
        l1 == l2,
{
    lemma_ggsw_frame_shape(c1, p1, g1, l1);
    lemma_ggsw_frame_shape(c2, p2, g2, l2);
    lemma_words_le_bytes_injective(c1, c2);
}

/// No GLWE frame is a proper prefix of another, and a GLWE frame determines
/// its parts: if the frame of `(c1, p1)` starts the frame of `(c2, p2)`, the
/// two are the same frame of the same parts.
pub proof fn lemma_glwe_frame_prefix_free(c1: Seq<u64>, p1: u64, c2: Seq<u64>, p2: u64)
    requires
        c1.len() <= u64::MAX,
        c2.len() <= u64::MAX,
        glwe_frame(c1, p1).len() <= glwe_frame(c2, p2).len(),
        glwe_frame(c2, p2).subrange(0, glwe_frame(c1, p1).len() as int) == glwe_frame(c1, p1),
    ensures
        c1 == c2,
        p1 == p2,
{
    let f1 = glwe_frame(c1, p1);
    let f2 = glwe_frame(c2, p2);
    lemma_glwe_frame_shape(c1, p1);
    lemma_glwe_frame_shape(c2, p2);
    assert(u64_at(f1, 4) == u64_at(f2, 4)) by {
        assert(forall|k: int| 0 <= k < f1.len() ==> f1[k] == f2[k]) by {
            assert forall|k: int| 0 <= k < f1.len() implies f1[k] == f2[k] by {
                assert(f2.subrange(0, f1.len() as int)[k] == f2[k]);
            }
        }
    }
    assert(f1 =~= f2);
    lemma_words_le_bytes_injective(c1, c2);
}

fn read_u64_le(bytes: &[u8], at: usize) -> (r: u64)
    requires
        at + 8 <= bytes@.len(),
    ensures
        r == u64_at(bytes@, at as int),
{
    (bytes[at] as u64) | ((bytes[at + 1] as u64) << 8u64) | ((bytes[at + 2] as u64) << 16u64) | ((
    bytes[at + 3] as u64) << 24u64) | ((bytes[at + 4] as u64) << 32u64) | ((bytes[at + 5] as u64)
        << 40u64) | ((bytes[at + 6] as u64) << 48u64) | ((bytes[at + 7] as u64) << 56u64)
}

/// Splits a GGSW frame into its coefficients and layout words.
///
/// The result is `Ok` exactly when `bytes` is a GGSW frame, and then its parts
/// are serialized as `bytes`; otherwise the error says which check failed
/// first: too few bytes for any frame, a version tag other than variant 0, or
/// a byte count that does not match the coefficient count.
pub fn decode_ggsw_frame(bytes: &[u8]) -> (r: Result<GgswFrame, FrameError>)
    ensures
        r is Ok <==> is_ggsw_frame(bytes@),
        match r {
            Ok(f) => f.bytes() == bytes@,
            Err(FrameError::Truncated) => bytes@.len() < 36,
            Err(FrameError::UnsupportedVersion) => bytes@.len() >= 36 && bytes@.subrange(0, 4)
                != version_tag(),
            Err(FrameError::LengthMismatch) => bytes@.len() >= 36 && bytes@.subrange(0, 4)
                == version_tag() && bytes@.len() != 36 + 8 * u64_at(bytes@, 4),
        },
{
    let len = bytes.len();
    if len < 36 {
        proof {
            lemma_not_frame(bytes@);
        }
        return Err(FrameError::Truncated);
    }
    if bytes[0] != 0 || bytes[1] != 0 || bytes[2] != 0 || bytes[3] != 0 {
        proof {
            assert(bytes@.subrange(0, 4) != version_tag()) by {
                if bytes@.subrange(0, 4) == version_tag() {
                    assert(bytes@.subrange(0, 4)[0] == bytes@[0]);
                    assert(bytes@.subrange(0, 4)[1] == bytes@[1]);
                    assert(bytes@.subrange(0, 4)[2] == bytes@[2]);
                    assert(bytes@.subrange(0, 4)[3] == bytes@[3]);
                }
            }
            lemma_not_frame(bytes@);
        }
        return Err(FrameError::UnsupportedVersion);
    }
    assert(bytes@.subrange(0, 4) =~= version_tag());
    let declared = read_u64_le(bytes, 4);
    let rest = len - 36;
    if rest % 8 != 0 || (rest / 8) as u64 != declared {
        proof {
            assert(len != 36 + 8 * declared) by {
                if len == 36 + 8 * declared {
                    assert(rest == 8 * declared);
                    assert(rest % 8 == 0 && rest / 8 == declared) by (nonlinear_arith)
                        requires
                            rest == 8 * declared,
                    ;
                }
            }
            lemma_not_frame(bytes@);
        }
        return Err(FrameError::LengthMismatch);
    }
    let count = rest / 8;
    proof {
        assert(rest == 8 * count) by (nonlinear_arith)
            requires
                rest % 8 == 0,
                count == rest / 8,
        ;
    }
    let mut coefficients: Vec<u64> = Vec::with_capacity(count);
    let mut i: usize = 0;
    while i < count
        invariant
            len == bytes@.len(),
            len == 36 + 8 * count,
            i <= count,
            coefficients@.len() == i,
            words_le_bytes(coefficients@) == bytes@.subrange(12, 12 + 8 * i),
        decreases count - i,
    {
        let at = 12 + 8 * i;
        let w = read_u64_le(bytes, at);
        proof {
            lemma_written_read_word(bytes@, at as int);
            lemma_words_le_bytes_push(coefficients@, w);
        }
        coefficients.push(w);
        i = i + 1;
        assert(bytes@.subrange(12, 12 + 8 * i) =~= bytes@.subrange(12, at as int) + bytes@.subrange(
            at as int,
            at + 8,
        ));
    }
    let off = 12 + 8 * count;
    let polynomial_size = read_u64_le(bytes, off);
    let glwe_size = read_u64_le(bytes, off + 8);
    let decomposition_base_log = read_u64_le(bytes, off + 16);
    let f = GgswFrame { coefficients, polynomial_size, glwe_size, decomposition_base_log };
    proof {
        let b = bytes@;
        lemma_written_read_word(b, 4);
        lemma_written_read_word(b, off as int);
        lemma_written_read_word(b, off + 8);
        lemma_written_read_word(b, off + 16);
        assert(f.coefficients@.len() as u64 == declared);
        assert(b =~= b.subrange(0, 4) + b.subrange(4, 12) + b.subrange(12, off as int) + b.subrange(
            off as int,
            off + 8,
        ) + b.subrange(off + 8, off + 16) + b.subrange(off + 16, off + 24));
        assert(f.bytes() == b);
        assert(is_ggsw_frame(b)) by {
            assert(f.coefficients@.len() <= u64::MAX);
            assert(ggsw_frame(f.coefficients@, polynomial_size, glwe_size, decomposition_base_log)
                == b);
        }
    }
    Ok(f)
}

/// What every GGSW frame has: at least 36 bytes, the version tag of variant 0,
/// and a byte count matching its coefficient count.
proof fn lemma_not_frame(b: Seq<u8>)
    requires
        b.len() < 36 || b.subrange(0, 4) != version_tag() || b.len() != 36 + 8 * u64_at(b, 4),
    ensures
        !is_ggsw_frame(b),
{
    if is_ggsw_frame(b) {
        let (c, p, g, l) = choose|c: Seq<u64>, p: u64, g: u64, l: u64|
            c.len() <= u64::MAX && #[trigger] ggsw_frame(c, p, g, l) == b;
        lemma_ggsw_frame_shape(c, p, g, l);
    }
}

} // verus!
