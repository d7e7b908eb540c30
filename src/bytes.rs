//! Big-endian reading and writing of fixed-width byte buffers.

use vstd::prelude::*;

verus! {

/// `256` raised to the power `n`: the number of values that `n` bytes hold.
pub open spec fn pow256(n: nat) -> nat
    decreases n,
{
    if n == 0 {
        1
    } else {
        256 * pow256((n - 1) as nat)
    }
}

/// The value of `s` read as an unsigned big-endian integer.
pub open spec fn be_value(s: Seq<u8>) -> nat
    decreases s.len(),
{
    if s.len() == 0 {
        0
    } else {
        be_value(s.drop_last()) * 256 + s.last() as nat
    }
}

/// The `len` low-order bytes of `n`, most significant first.
pub open spec fn be_bytes(n: nat, len: nat) -> Seq<u8>
    decreases len,
{
    if len == 0 {
        Seq::empty()
    } else {
        be_bytes(n / 256, (len - 1) as nat).push((n % 256) as u8)
    }
}

/// `len` zero bytes.
pub open spec fn zeros(len: nat) -> Seq<u8> {
    Seq::new(len, |_i: int| 0u8)
}

/// The shortest big-endian form of `n`: no leading zero byte, and a single
/// zero byte for zero.
pub open spec fn minimal_be(n: nat) -> Seq<u8>
    decreases n,
{
    if n < 256 {
        seq![n as u8]
    } else {
        minimal_be(n / 256).push((n % 256) as u8)
    }
}

pub proof fn lemma_pow256_positive(n: nat)
    ensures
        pow256(n) >= 1,
    decreases n,
{
    if n > 0 {
        lemma_pow256_positive((n - 1) as nat);
    }
}

/// A buffer of `s.len()` bytes holds a value below `256^len`.
pub proof fn lemma_be_value_bound(s: Seq<u8>)
    ensures
        be_value(s) < pow256(s.len()),
    decreases s.len(),
{
    if s.len() > 0 {
        let t = s.drop_last();
        lemma_be_value_bound(t);
        let a = be_value(t);
        let p = pow256(t.len());
        let b = s.last() as nat;
        assert(a * 256 + b < 256 * p) by (nonlinear_arith)
            requires
                a < p,
                b < 256,
        ;
    }
}

/// Writing back the value of a buffer at its own width gives the buffer.
pub proof fn lemma_be_bytes_of_value(s: Seq<u8>)
    ensures
        be_bytes(be_value(s), s.len()) == s,
    decreases s.len(),
{
    if s.len() > 0 {
        let t = s.drop_last();
        lemma_be_bytes_of_value(t);
        let a = be_value(t);
        let b = s.last() as nat;
        assert((a * 256 + b) / 256 == a && (a * 256 + b) % 256 == b) by (nonlinear_arith)
            requires
                b < 256,
        ;
        assert(be_bytes(be_value(s), s.len()) =~= t.push(s.last()));
        assert(t.push(s.last()) =~= s);
    }
}

/// Reading a value written at width `len` gives it back modulo `256^len`.
pub proof fn lemma_be_value_of_bytes(n: nat, len: nat)
    ensures
        be_value(be_bytes(n, len)) == n % pow256(len),
    decreases len,
{
    if len == 0 {
    } else {
        let l1 = (len - 1) as nat;
        lemma_be_value_of_bytes(n / 256, l1);
        let s = be_bytes(n, len);
        assert(s.drop_last() =~= be_bytes(n / 256, l1));
        lemma_pow256_positive(l1);
        vstd::arithmetic::div_mod::lemma_mod_breakdown(n as int, 256, pow256(l1) as int);
        assert(((n % 256) as u8) as nat == n % 256);
    }
}

/// Left-padding the shortest form of `n` with zeros to `len` bytes gives the
/// `len`-byte form of `n`.
pub proof fn lemma_pad_minimal(n: nat, len: nat)
    requires
        minimal_be(n).len() <= len,
    ensures
        zeros((len - minimal_be(n).len()) as nat) + minimal_be(n) == be_bytes(n, len),
    decreases n,
{
    let m = minimal_be(n);
    if n < 256 {
        lemma_zeros_are_be_bytes_of_zero((len - 1) as nat);
        assert(n / 256 == 0 && n % 256 == n);
        assert(zeros((len - 1) as nat) + m =~= be_bytes(n, len));
    } else {
        lemma_pad_minimal(n / 256, (len - 1) as nat);
        let z = zeros((len - m.len()) as nat);
        assert(z + m =~= (z + minimal_be(n / 256)).push((n % 256) as u8));
    }
}

pub proof fn lemma_zeros_are_be_bytes_of_zero(len: nat)
    ensures
        be_bytes(0, len) == zeros(len),
    decreases len,
{
    if len > 0 {
        lemma_zeros_are_be_bytes_of_zero((len - 1) as nat);
        assert(be_bytes(0, len) =~= zeros(len));
    }
}

/// The shortest form of `n` fits in `len >= 1` bytes exactly when `n < 256^len`.
pub proof fn lemma_minimal_len(n: nat, len: nat)
    requires
        len >= 1,
    ensures
        minimal_be(n).len() <= len <==> n < pow256(len),
    decreases n,
{
    let l1 = (len - 1) as nat;
    lemma_pow256_positive(l1);
    let p = pow256(l1);
    if n < 256 {
        assert(256 <= 256 * p) by (nonlinear_arith)
            requires
                p >= 1,
        ;
    } else {
        reveal_with_fuel(minimal_be, 2);
        if len > 1 {
            lemma_minimal_len(n / 256, l1);
        }
        let q = n / 256;
        let r = n % 256;
        assert(q < p <==> n < 256 * p) by (nonlinear_arith)
            requires
                n == 256 * q + r,
                r < 256,
        ;
    }
}

} // verus!
