//! The Internet checksum (RFC 1071) over byte buffers.
use vstd::prelude::*;

verus! {

/// The `k`-th 16-bit big-endian word of `s`; an odd trailing byte is padded
/// with a zero low byte.
pub open spec fn word_at(s: Seq<u8>, k: int) -> nat {
    let hi = s[2 * k] as nat;
    let lo: nat = if 2 * k + 1 < s.len() { s[2 * k + 1] as nat } else { 0 };
    hi * 256 + lo
}

/// Number of 16-bit words in `s`, counting a padded trailing byte.
pub open spec fn word_count(s: Seq<u8>) -> nat {
    ((s.len() + 1) / 2) as nat
}

/// Sum of the first `n` words of `s`, in a wide integer.
pub open spec fn word_sum(s: Seq<u8>, n: nat) -> nat
    decreases n,
{
    if n == 0 {
        0
    } else {
        word_sum(s, (n - 1) as nat) + word_at(s, n - 1)
    }
}

/// Folds the carries above bit 16 back into the low 16 bits until none remain.
pub open spec fn fold(x: nat) -> nat
    decreases x,
{
    if x < 0x10000 {
        x
    } else {
        fold(x % 0x10000 + x / 0x10000)
    }
}

/// The one's-complement sum of all words of `s`.
pub open spec fn ones_sum(s: Seq<u8>) -> nat {
    fold(word_sum(s, word_count(s)))
}

/// `s` with the two bytes at `offset` taken as zero.
pub open spec fn zero_field(s: Seq<u8>, offset: int) -> Seq<u8> {
    s.update(offset, 0).update(offset + 1, 0)
}

/// The checksum of `s` whose field sits at `offset`: the complement of the
/// one's-complement sum with that field taken as zero.
pub open spec fn checksum_of(s: Seq<u8>, offset: int) -> u16 {
    (0xFFFF - ones_sum(zero_field(s, offset))) as u16
}

/// `s` with the big-endian value `v` written into the two bytes at `offset`.
pub open spec fn with_field(s: Seq<u8>, offset: int, v: u16) -> Seq<u8> {
    s.update(offset, (v / 256) as u8).update(offset + 1, (v % 256) as u8)
}

/// `s`, including its checksum field as it stands, sums to all ones.
pub open spec fn checksum_verifies(s: Seq<u8>) -> bool {
    ones_sum(s) == 0xFFFF
}

/// Folding keeps the value modulo 0xFFFF, and maps every positive value into
/// `1..=0xFFFF`.
proof fn lemma_fold(x: nat)
    ensures
        fold(x) % 0xFFFF == x % 0xFFFF,
        x == 0 ==> fold(x) == 0,
        x > 0 ==> 1 <= fold(x) <= 0xFFFF,
    decreases x,
{
    if x >= 0x10000 {
        let y: nat = x % 0x10000 + x / 0x10000;
        assert(y < x && y > 0 && y % 0xFFFF == x % 0xFFFF) by (nonlinear_arith)
            requires x >= 0x10000, y == x % 0x10000 + x / 0x10000;
        lemma_fold(y);
    }
}

/// Two values in `1..=0xFFFF` that agree modulo 0xFFFF are equal.
proof fn lemma_residue_unique(a: nat, b: nat)
    requires
        1 <= a <= 0xFFFF,
        1 <= b <= 0xFFFF,
        a % 0xFFFF == b % 0xFFFF,
    ensures
        a == b,
{
}

/// One's-complement addition of a 16-bit word to an accumulator in `0..=0xFFFF`.
fn add_ones(acc: u32, w: u32) -> (r: u32)
    requires
        acc <= 0xFFFF,
        w <= 0xFFFF,
    ensures
        r <= 0xFFFF,
        r % 0xFFFF == (acc + w) as nat % 0xFFFF,
        r == 0 <==> (acc == 0 && w == 0),
{
    let s: u32 = acc + w;
    if s > 0xFFFF {
        s - 0xFFFF
    } else {
        s
    }
}

/// The one's-complement sum of all words of `bytes`, where `field` names a
/// two-byte field taken as zero.
fn folded_sum(bytes: &[u8], field: Option<usize>) -> (r: u16)
    requires
        field matches Some(f) ==> f + 1 < bytes@.len(),
    ensures
        r as nat == ones_sum(
            match field {
                Some(f) => zero_field(bytes@, f as int),
                None => bytes@,
            },
        ),
{
    let ghost s = match field {
        Some(f) => zero_field(bytes@, f as int),
        None => bytes@,
    };
    let len = bytes.len();
    let n: usize = len / 2 + len % 2;
    let mut k: usize = 0;
    let mut acc: u32 = 0;
    while k < n
        invariant
            s.len() == len,
            len == bytes@.len(),
            field matches Some(f) ==> f + 1 < len,
            n == word_count(s),
            k <= n,
            acc <= 0xFFFF,
            acc % 0xFFFF == word_sum(s, k as nat) % 0xFFFF,
            acc == 0 <==> word_sum(s, k as nat) == 0,
            forall|i: int|
                0 <= i < len ==> s[i] == (match field {
                    Some(f) => if i == f || i == f + 1 {
                        0u8
                    } else {
                        bytes@[i]
                    },
                    None => bytes@[i],
                }),
        decreases n - k,
    {
        let i: usize = 2 * k;
        let hi: u8 = match field {
            Some(f) => if i == f || i == f + 1 {
                0
            } else {
                bytes[i]
            },
            None => bytes[i],
        };
        let lo: u8 = if i + 1 < len {
            match field {
                Some(f) => if i + 1 == f || i + 1 == f + 1 {
                    0
                } else {
                    bytes[i + 1]
                },
                None => bytes[i + 1],
            }
        } else {
            0
        };
        let w: u32 = (hi as u32) * 256 + lo as u32;
        assert(w as nat == word_at(s, k as int));
        acc = add_ones(acc, w);
        assert(word_sum(s, (k + 1) as nat) == word_sum(s, k as nat) + w);
        k = k + 1;
    }
    proof {
        let total = word_sum(s, n as nat);
        lemma_fold(total);
        if total > 0 {
            lemma_residue_unique(acc as nat, fold(total));
        }
    }
    acc as u16
}

/// Computes the checksum of `bytes` whose field sits at `offset`: the field is
/// taken as zero while summing, and the result is the complement of the
/// one's-complement sum.
pub fn compute_checksum(bytes: &[u8], offset: usize) -> (r: u16)
    requires
        offset + 1 < bytes@.len(),
    ensures
        r == checksum_of(bytes@, offset as int),
{
    let sum = folded_sum(bytes, Some(offset));
    0xFFFF - sum
}

/// Tells whether `bytes`, checksum field included, sums to all ones.
pub fn verify_checksum(bytes: &[u8]) -> (r: bool)
    ensures
        r == checksum_verifies(bytes@),
{
    folded_sum(bytes, None) == 0xFFFF
}

/// Writing `v` into the field at an even `offset` of a buffer whose field is
/// zero adds `v` to every word sum that reaches past that field.
proof fn lemma_word_sum_with_field(z: Seq<u8>, offset: int, v: u16, n: nat)
    requires
        offset % 2 == 0,
        0 <= offset,
        offset + 1 < z.len(),
        z[offset] == 0,
        z[offset + 1] == 0,
        n <= word_count(z),
    ensures
        word_sum(with_field(z, offset, v), n) == word_sum(z, n) + (if n > offset / 2 {
            v as nat
        } else {
            0
        }),
    decreases n,
{
    let t = with_field(z, offset, v);
    if n > 0 {
        lemma_word_sum_with_field(z, offset, v, (n - 1) as nat);
        let k = n - 1;
        if k == offset / 2 {
            assert(2 * k == offset);
            assert(word_at(t, k) == v as nat) by (nonlinear_arith)
                requires
                    word_at(t, k) == ((v / 256) as u8) as nat * 256 + ((v % 256) as u8) as nat,
                    v <= 0xFFFF,
            ;
            assert(word_at(z, k) == 0);
        } else {
            assert(2 * k != offset && 2 * k + 1 != offset && 2 * k != offset + 1
                && 2 * k + 1 != offset + 1);
            assert(word_at(t, k) == word_at(z, k));
        }
    }
}

/// Writing the checksum computed for an even `offset` into that field makes
/// the buffer verify, whatever the field held before.
pub proof fn lemma_checksum_verifies(s: Seq<u8>, offset: int)
    requires
        offset % 2 == 0,
        0 <= offset,
        offset + 1 < s.len(),
    ensures
        checksum_verifies(with_field(s, offset, checksum_of(s, offset))),
{
    let z = zero_field(s, offset);
    let c = checksum_of(s, offset);
    let t = with_field(s, offset, c);
    assert(t =~= with_field(z, offset, c));
    let n = word_count(s);
    assert(word_count(z) == n && word_count(t) == n);
    assert(n > offset / 2);
    lemma_word_sum_with_field(z, offset, c, n);
    let zs = word_sum(z, n);
    let ts = word_sum(t, n);
    lemma_fold(zs);
    lemma_fold(ts);
    let f = fold(zs);
    assert(c as nat == 0xFFFF - f);
    assert(ts == zs + 0xFFFF - f);
    assert(ts > 0);
    assert(ts % 0xFFFF == 0) by (nonlinear_arith)
        requires
            ts == zs + 0xFFFF - f,
            f % 0xFFFF == zs % 0xFFFF,
            f <= 0xFFFF,
    ;
    lemma_residue_unique(fold(ts), 0xFFFF);
}

/// The weight of byte `i` within its word: 256 for a high byte, 1 for a low.
pub open spec fn byte_weight(i: int) -> int {
    if i % 2 == 0 {
        256
    } else {
        1
    }
}

/// Replacing byte `i` by `x` moves every word sum that covers it by the
/// weighted difference.
pub proof fn lemma_word_sum_update(s: Seq<u8>, i: int, x: u8, n: nat)
    requires
        0 <= i < s.len(),
        n <= word_count(s),
    ensures
        word_sum(s.update(i, x), n) + (if n > i / 2 {
            byte_weight(i) * s[i]
        } else {
            0
        }) == word_sum(s, n) + (if n > i / 2 {
            byte_weight(i) * x
        } else {
            0
        }),
    decreases n,
{
    let t = s.update(i, x);
    if n > 0 {
        lemma_word_sum_update(s, i, x, (n - 1) as nat);
        let k = n - 1;
        if k == i / 2 {
            if i % 2 == 0 {
                assert(2 * k == i);
            } else {
                assert(2 * k + 1 == i);
            }
            assert(word_at(t, k) + byte_weight(i) * s[i] == word_at(s, k) + byte_weight(i) * x);
        } else {
            assert(2 * k != i && 2 * k + 1 != i);
            assert(word_at(t, k) == word_at(s, k));
        }
    }
}

/// A buffer that verifies stops verifying when any one of its bytes is
/// replaced by a different value.
pub proof fn lemma_byte_change_detected(s: Seq<u8>, i: int, x: u8)
    requires
        checksum_verifies(s),
        0 <= i < s.len(),
        x != s[i],
    ensures
        !checksum_verifies(s.update(i, x)),
{
    let t = s.update(i, x);
    let n = word_count(s);
    assert(word_count(t) == n);
    assert(n > i / 2);
    lemma_word_sum_update(s, i, x, n);
    let ss = word_sum(s, n);
    let ts = word_sum(t, n);
    lemma_fold(ss);
    lemma_fold(ts);
    let w = byte_weight(i);
    let a = s[i] as int;
    let b = x as int;
    assert(ss % 0xFFFF == 0);
    if ts > 0 && fold(ts) == 0xFFFF {
        assert(false) by (nonlinear_arith)
            requires
                ts + w * a == ss + w * b,
                ss % 0xFFFF == 0,
                ts % 0xFFFF == 0,
                w == 256 || w == 1,
                0 <= a < 256,
                0 <= b < 256,
                a != b,
        ;
    }
}

/// Flipping any single bit of a buffer that verifies makes it fail to verify.
pub proof fn lemma_bit_flip_detected(s: Seq<u8>, i: int, bit: u8)
    requires
        checksum_verifies(s),
        0 <= i < s.len(),
        bit < 8,
    ensures
        !checksum_verifies(s.update(i, s[i] ^ (1u8 << bit))),
{
    let a = s[i];
    assert(a ^ (1u8 << bit) != a) by (bit_vector)
        requires
            bit < 8,
    ;
    lemma_byte_change_detected(s, i, a ^ (1u8 << bit));
}

/// The word sum of a buffer is that of the buffer with its checksum field at
/// offset 2 taken as zero, plus the field's value.
proof fn lemma_word_sum_split_field(s: Seq<u8>)
    requires
        s.len() >= 4,
    ensures
        word_sum(s, word_count(s)) == word_sum(zero_field(s, 2), word_count(s)) + s[2] as nat
            * 256 + s[3] as nat,
{
    let z = zero_field(s, 2);
    let n = word_count(s);
    let m = z.update(2, s[2]);
    assert(word_count(z) == n && word_count(m) == n);
    lemma_word_sum_update(z, 2, s[2], n);
    lemma_word_sum_update(m, 3, s[3], n);
    assert(m.update(3, s[3]) =~= s);
}

/// Once a buffer verifies, a change of its bytes that moves the word sum
/// (checksum field taken as zero) by a non-multiple of 0xFFFF gives a new
/// checksum that differs from the field as it stood.
pub proof fn lemma_checksum_changes(s: Seq<u8>, t: Seq<u8>)
    requires
        checksum_verifies(s),
        s.len() >= 4,
        t.len() == s.len(),
        word_sum(zero_field(t, 2), word_count(t)) % 0xFFFF != word_sum(
            zero_field(s, 2),
            word_count(s),
        ) % 0xFFFF,
    ensures
        checksum_of(t, 2) as nat != s[2] as nat * 256 + s[3] as nat,
{
    let n = word_count(s);
    lemma_word_sum_split_field(s);
    let ss = word_sum(s, n);
    let zs = word_sum(zero_field(s, 2), n);
    let zt = word_sum(zero_field(t, 2), n);
    lemma_fold(ss);
    lemma_fold(zt);
    let c0 = s[2] as nat * 256 + s[3] as nat;
    let f = fold(zt);
    assert(f <= 0xFFFF);
    assert(checksum_of(t, 2) as nat == 0xFFFF - f);
    if 0xFFFF - f == c0 {
        assert(false) by (nonlinear_arith)
            requires
                ss == zs + c0,
                ss % 0xFFFF == 0,
                f % 0xFFFF == zt % 0xFFFF,
                f + c0 == 0xFFFF,
                zt % 0xFFFF != zs % 0xFFFF,
        ;
    }
}

/// Round trip of the checksum: a buffer of at least eight bytes whose field at
/// offset 2 is zero verifies once the checksum computed for it is written there.
pub proof fn lemma_checksum_round_trip(b: Seq<u8>)
    requires
        b.len() >= 8,
        b[2] == 0,
        b[3] == 0,
    ensures
        checksum_verifies(with_field(b, 2, checksum_of(b, 2))),
{
    lemma_checksum_verifies(b, 2);
}

} // verus!
