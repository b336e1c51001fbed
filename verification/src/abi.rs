//! ABI decoding of the decompressed payload: a single value of type
//! "tuple of (bytes, bytes, bytes)" in the canonical contract-call
//! encoding — head/tail layout for dynamic values, 32-byte words,
//! big-endian offsets and lengths.
//!
//! The layout of a well-formed payload `d`:
//! - word at 0: offset `t` of the tuple's data region;
//! - words at `t`, `t + 32`, `t + 64`: offsets of the three byte strings,
//!   each relative to `t`;
//! - each byte string at its offset: a length word, then that many bytes.

use vstd::prelude::*;
use crate::types::DecodedTuple;

verus! {

/// Value of a byte string read as one big-endian unsigned integer.
pub open spec fn be_val(s: Seq<u8>) -> nat
    decreases s.len(),
{
    if s.len() == 0 {
        0
    } else {
        be_val(s.drop_last()) * 256 + s.last() as nat
    }
}

/// 256 to the n-th power: the weight of a byte n positions from the end.
pub open spec fn pow256(n: nat) -> nat
    decreases n,
{
    if n == 0 {
        1
    } else {
        256 * pow256((n - 1) as nat)
    }
}

/// The 32-byte word of `d` that starts at index `i`, as an unsigned value.
pub open spec fn word_at(d: Seq<u8>, i: int) -> nat
    recommends
        0 <= i,
        i + 32 <= d.len(),
{
    be_val(d.subrange(i, i + 32))
}

/// The byte string framed at index `base` of `d`: a 32-byte length word
/// followed by that many bytes. `None` when the frame runs past the end.
pub open spec fn spec_bytes_at(d: Seq<u8>, base: int) -> Option<Seq<u8>>
    recommends
        0 <= base,
{
    if base + 32 > d.len() {
        None
    } else {
        let n = word_at(d, base) as int;
        if base + 32 + n > d.len() {
            None
        } else {
            Some(d.subrange(base + 32, base + 32 + n))
        }
    }
}

/// The decoding of `d` as one ABI tuple of three byte strings, in order
/// (circuit, witness, proof); `None` when `d` is not a well-formed
/// encoding of such a tuple.
pub open spec fn spec_decode_bytes3(d: Seq<u8>) -> Option<(Seq<u8>, Seq<u8>, Seq<u8>)> {
    if d.len() < 32 {
        None
    } else {
        let t = word_at(d, 0) as int;
        if t + 96 > d.len() {
            None
        } else {
            let o0 = word_at(d, t) as int;
            let o1 = word_at(d, t + 32) as int;
            let o2 = word_at(d, t + 64) as int;
            match (spec_bytes_at(d, t + o0), spec_bytes_at(d, t + o1), spec_bytes_at(d, t + o2)) {
                (Some(c), Some(w), Some(p)) => Some((c, w, p)),
                _ => None,
            }
        }
    }
}

/// A big-endian value is at least any one of its bytes times that byte's
/// positional weight.
proof fn lemma_be_val_byte_lower(s: Seq<u8>, k: int)
    requires
        0 <= k < s.len(),
    ensures
        be_val(s) >= (s[k] as nat) * pow256((s.len() - 1 - k) as nat),
    decreases s.len(),
{
    if k == s.len() - 1 {
        assert(pow256(0) == 1);
        assert(be_val(s) >= (s[k] as nat) * pow256((s.len() - 1 - k) as nat)) by (nonlinear_arith)
            requires
                be_val(s) == be_val(s.drop_last()) * 256 + s.last() as nat,
                s.last() == s[k],
                pow256((s.len() - 1 - k) as nat) == 1;
    } else {
        lemma_be_val_byte_lower(s.drop_last(), k);
        assert(s.drop_last()[k] == s[k]);
        assert(be_val(s) >= (s[k] as nat) * pow256((s.len() - 1 - k) as nat)) by (nonlinear_arith)
            requires
                be_val(s) == be_val(s.drop_last()) * 256 + s.last() as nat,
                be_val(s.drop_last()) >= (s[k] as nat) * pow256((s.len() - 2 - k) as nat),
                pow256((s.len() - 1 - k) as nat) == 256 * pow256((s.len() - 2 - k) as nat),
                0 <= k < s.len() - 1;
    }
}

/// Concatenation: the left part is shifted by the weight of the right part.
proof fn lemma_be_val_concat(a: Seq<u8>, b: Seq<u8>)
    ensures
        be_val(a + b) == be_val(a) * pow256(b.len()) + be_val(b),
    decreases b.len(),
{
    if b.len() == 0 {
        assert(a + b =~= a);
        assert(pow256(0) == 1);
    } else {
        lemma_be_val_concat(a, b.drop_last());
        assert((a + b).drop_last() =~= a + b.drop_last());
        assert((a + b).last() == b.last());
        assert(be_val(a + b) == be_val(a) * pow256(b.len()) + be_val(b)) by (nonlinear_arith)
            requires
                be_val(a + b) == be_val(a + b.drop_last()) * 256 + b.last() as nat,
                be_val(a + b.drop_last()) == be_val(a) * pow256((b.len() - 1) as nat)
                    + be_val(b.drop_last()),
                be_val(b) == be_val(b.drop_last()) * 256 + b.last() as nat,
                pow256(b.len()) == 256 * pow256((b.len() - 1) as nat),
                b.len() >= 1;
    }
}

/// An all-zero byte string has value zero.
proof fn lemma_be_val_zeros(s: Seq<u8>)
    requires
        forall|j: int| 0 <= j < s.len() ==> s[j] == 0,
    ensures
        be_val(s) == 0,
    decreases s.len(),
{
    if s.len() == 0 {
    } else {
        lemma_be_val_zeros(s.drop_last());
    }
}

/// Powers of 256 grow with the exponent.
proof fn lemma_pow256_le(m: nat, n: nat)
    requires
        m <= n,
    ensures
        pow256(m) <= pow256(n),
    decreases n,
{
    if m < n {
        lemma_pow256_le(m, (n - 1) as nat);
        assert(pow256(n) == 256 * pow256((n - 1) as nat));
        assert(pow256(n) >= pow256((n - 1) as nat)) by (nonlinear_arith)
            requires
                pow256(n) == 256 * pow256((n - 1) as nat),
                pow256((n - 1) as nat) >= 0;
    }
}

/// The concrete weights used by the word reader.
proof fn lemma_pow256_values()
    ensures
        pow256(7) == 0x100000000000000,
        pow256(8) == 0x10000000000000000,
{
    assert(pow256(0) == 1);
    assert(pow256(1) == 0x100);
    assert(pow256(2) == 0x10000);
    assert(pow256(3) == 0x1000000);
    assert(pow256(4) == 0x100000000);
    assert(pow256(5) == 0x10000000000);
    assert(pow256(6) == 0x1000000000000);
    assert(pow256(7) == 0x100000000000000);
    assert(pow256(8) == 0x10000000000000000);
}

/// Reads the 32-byte word at index `i` of `d`. Returns the word's value
/// when it fits in 64 bits; `None` says the value is at least 2^64, so it
/// can never name a position or length inside an addressable buffer.
#[verifier::loop_isolation(false)]
fn read_word(d: &Vec<u8>, i: usize) -> (r: Option<u64>)
    requires
        i + 32 <= d@.len(),
    ensures
        (match r {
            Some(v) => v as nat == word_at(d@, i as int),
            None => word_at(d@, i as int) >= 0x10000000000000000,
        }),
{
    let dl = d.len();
    let ghost w: Seq<u8> = d@.subrange(i as int, i as int + 32);
    let mut k: usize = 0;
    while k < 24
        invariant
            0 <= k <= 24,
            i + 32 <= d@.len(),
            forall|j: int| 0 <= j < k ==> #[trigger] d@[i + j] == 0,
        decreases 24 - k,
    {
        if d[i + k] != 0 {
            proof {
                lemma_pow256_values();
                lemma_be_val_byte_lower(w, k as int);
                lemma_pow256_le(8, (31 - k) as nat);
                assert(w[k as int] == d@[i + k]);
                assert(be_val(w) >= (w[k as int] as nat) * pow256((31 - k) as nat));
                assert((w[k as int] as nat) * pow256((31 - k) as nat) >= pow256((31 - k) as nat))
                    by (nonlinear_arith)
                    requires
                        w[k as int] as nat >= 1,
                        pow256((31 - k) as nat) >= 0;
            }
            return None;
        }
        k = k + 1;
    }
    let mut v: u64 = 0;
    let mut m: usize = 24;
    while m < 32
        invariant
            24 <= m <= 32,
            i + 32 <= d@.len(),
            v as nat == be_val(d@.subrange(i as int + 24, i as int + m)),
            (v as nat) < pow256((m - 24) as nat),
        decreases 32 - m,
    {
        proof {
            lemma_pow256_values();
            lemma_pow256_le((m - 24) as nat, 7);
            let s1 = d@.subrange(i as int + 24, i as int + m + 1);
            let s0 = d@.subrange(i as int + 24, i as int + m);
            assert(s1.drop_last() =~= s0);
            assert(s1.last() == d@[i + m]);
        }
        v = v * 256 + (d[i + m] as u64);
        m = m + 1;
    }
    proof {
        let a = d@.subrange(i as int, i as int + 24);
        let b = d@.subrange(i as int + 24, i as int + 32);
        assert(w =~= a + b);
        assert(forall|j: int| 0 <= j < 24 ==> a[j] == d@[i + j]);
        lemma_be_val_zeros(a);
        lemma_be_val_concat(a, b);
        lemma_pow256_values();
        assert(be_val(w) == 0 * pow256(8) + be_val(b));
        assert(v as nat == be_val(b));
    }
    Some(v)
}

/// Reads the byte string framed at index `base` of `d`, per
/// `spec_bytes_at`: a length word, then that many bytes, copied out.
#[verifier::loop_isolation(false)]
fn read_bytes_at(d: &Vec<u8>, base: usize) -> (r: Option<Vec<u8>>)
    ensures
        (match r {
            Some(v) => spec_bytes_at(d@, base as int) == Some(v@),
            None => spec_bytes_at(d@, base as int) is None,
        }),
{
    let dl = d.len();
    if dl < 32 || base > dl - 32 {
        return None;
    }
    let n = match read_word(d, base) {
        Some(n) => n,
        None => {
            // The length word does not fit in 64 bits, so the frame cannot
            // fit in an addressable buffer.
            return None;
        },
    };
    if n > (dl - base - 32) as u64 {
        return None;
    }
    let count = n as usize;
    let start = base + 32;
    let mut out: Vec<u8> = Vec::new();
    let mut j: usize = 0;
    while j < count
        invariant
            j <= count,
            out@ =~= d@.subrange(start as int, start as int + j),
        decreases count - j,
    {
        proof {
            let s1 = d@.subrange(start as int, start as int + j + 1);
            let s0 = d@.subrange(start as int, start as int + j);
            assert(s1.drop_last() =~= s0);
            assert(s1.last() == d@[start + j]);
        }
        out.push(d[start + j]);
        j = j + 1;
    }
    Some(out)
}

/// Decodes `d` as one ABI tuple of three byte strings, per
/// `spec_decode_bytes3`. Every offset and length is bounds-checked; no
/// input can make this read out of range.
pub fn decode_bytes3(d: &Vec<u8>) -> (r: Option<DecodedTuple>)
    ensures
        (match r {
            Some(t) => spec_decode_bytes3(d@)
                == Some((t.circuit_bytes@, t.witness_bytes@, t.proof_bytes@)),
            None => spec_decode_bytes3(d@) is None,
        }),
{
    let dl = d.len();
    if dl < 32 {
        return None;
    }
    let t = match read_word(d, 0) {
        Some(t) => t,
        None => {
            // An offset of 2^64 or more lies past any addressable buffer.
            return None;
        },
    };
    if dl < 96 || t > (dl - 96) as u64 {
        return None;
    }
    let tu = t as usize;
    let circuit_bytes = match read_head_entry(d, tu, 0) {
        Some(v) => v,
        None => return None,
    };
    let witness_bytes = match read_head_entry(d, tu, 1) {
        Some(v) => v,
        None => return None,
    };
    let proof_bytes = match read_head_entry(d, tu, 2) {
        Some(v) => v,
        None => return None,
    };
    Some(DecodedTuple { circuit_bytes, witness_bytes, proof_bytes })
}

/// Reads the `idx`-th member of the tuple whose data region starts at
/// `tu`: the offset word at `tu + 32 * idx`, then the byte string framed
/// at `tu` plus that offset.
fn read_head_entry(d: &Vec<u8>, tu: usize, idx: usize) -> (r: Option<Vec<u8>>)
    requires
        idx < 3,
        tu + 96 <= d@.len(),
    ensures
        (match r {
            Some(v) => spec_bytes_at(d@, tu + word_at(d@, tu + 32 * idx)) == Some(v@),
            None => spec_bytes_at(d@, tu + word_at(d@, tu + 32 * idx)) is None,
        }),
{
    let dl = d.len();
    let o = match read_word(d, tu + 32 * idx) {
        Some(o) => o,
        None => {
            // An offset of 2^64 or more lies past any addressable buffer.
            return None;
        },
    };
    if o > (dl - tu) as u64 {
        return None;
    }
    read_bytes_at(d, tu + o as usize)
}

} // verus!
