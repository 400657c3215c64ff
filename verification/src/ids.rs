//! Identifiers shared by the whole library.
//!
//! A node, an entity or an operation is named by a 128-bit UUID. The library
//! holds such an identifier as the plain `u128` whose big-endian bytes are the
//! UUID's bytes, so that the order of identifiers is the order of their bytes.

use vstd::prelude::*;

use crate::engine::peer_discovery::hex_encode;

verus! {

/// Identifier of a peer in the distributed system.
pub type NodeId = u128;

/// Draws a fresh random version-4 identifier.
///
/// Calls `uuid::Uuid::new_v4` and returns its big-endian value. The result
/// comes from the operating system's random source, so nothing is claimed of
/// it: two calls may even return the same value as far as the contract goes.
#[verifier::external_body]
pub(crate) fn random_id() -> (id: u128) {
    uuid::Uuid::new_v4().as_u128()
}

/// The value of a byte string read as a big-endian number.
pub open spec fn be_value(s: Seq<u8>) -> nat
    decreases s.len(),
{
    if s.len() == 0 {
        0
    } else {
        be_value(s.drop_last()) * 256 + s.last() as nat
    }
}

/// 256 to the power `n`.
pub open spec fn pow256(n: nat) -> nat
    decreases n,
{
    if n == 0 {
        1
    } else {
        256 * pow256((n - 1) as nat)
    }
}

/// Powers of 256 grow with the exponent.
pub proof fn lemma_pow256_monotone(a: nat, b: nat)
    requires
        a <= b,
    ensures
        pow256(a) <= pow256(b),
    decreases b,
{
    if a < b {
        lemma_pow256_monotone(a, (b - 1) as nat);
    }
}

/// A big-endian number of `n` bytes is below 256 to the power `n`.
pub proof fn lemma_be_value_bound(s: Seq<u8>)
    ensures
        be_value(s) < pow256(s.len()),
    decreases s.len(),
{
    if s.len() > 0 {
        lemma_be_value_bound(s.drop_last());
        let p = pow256((s.len() - 1) as nat);
        let b = be_value(s.drop_last());
        let l = s.last() as nat;
        assert(b * 256 + l < 256 * p) by (nonlinear_arith)
            requires
                b < p,
                l < 256,
        ;
    }
}

/// A byte prepended to a big-endian number adds its weight.
pub proof fn lemma_be_value_prepend(x: u8, s: Seq<u8>)
    ensures
        be_value(seq![x] + s) == x * pow256(s.len()) + be_value(s),
    decreases s.len(),
{
    if s.len() == 0 {
        assert((seq![x] + s).drop_last() =~= Seq::<u8>::empty());
        assert(be_value(seq![x] + s) == be_value((seq![x] + s).drop_last()) * 256 + (seq![x] + s).last() as nat);
        assert(pow256(0) == 1);
    } else {
        lemma_be_value_prepend(x, s.drop_last());
        assert((seq![x] + s).drop_last() =~= seq![x] + s.drop_last());
        assert((seq![x] + s).last() == s.last());
        assert(be_value(seq![x] + s) == be_value((seq![x] + s).drop_last()) * 256 + (seq![x] + s).last() as nat);
        assert(pow256(s.len()) == 256 * pow256((s.len() - 1) as nat));
        let p = pow256((s.len() - 1) as nat);
        let v = be_value(s.drop_last());
        assert((x * p + v) * 256 + s.last() == x * (256 * p) + (v * 256 + s.last())) by (nonlinear_arith);
    }
}

/// The value of 16 big-endian bytes.
pub fn u128_from_be_bytes(b: &[u8; 16]) -> (u: u128)
    ensures
        u == be_value(b@),
{
    let mut acc: u128 = 0;
    let mut i: usize = 0;
    while i < 16
        invariant
            i <= 16,
            b@.len() == 16,
            acc == be_value(b@.take(i as int)),
        decreases 16 - i,
    {
        proof {
            lemma_be_value_bound(b@.take(i as int));
            lemma_pow256_monotone(i as nat, 15);
            assert(pow256(15) == 0x1_0000_0000_0000_0000_0000_0000_0000_00) by {
                reveal_with_fuel(pow256, 16);
            }
            let p = pow256(i as nat);
            assert(acc * 256 + 255 <= u128::MAX) by (nonlinear_arith)
                requires
                    acc < p,
                    p <= 0x1_0000_0000_0000_0000_0000_0000_0000_00,
            ;
            assert(b@.take(i + 1).drop_last() =~= b@.take(i as int));
        }
        acc = acc * 256 + b[i] as u128;
        i = i + 1;
    }
    assert(b@.take(16) =~= b@);
    acc
}

/// The 16 big-endian bytes of a number.
pub fn u128_to_be_bytes(x: u128) -> (b: [u8; 16])
    ensures
        be_value(b@) == x,
{
    let mut b = [0u8; 16];
    let mut rest: u128 = x;
    let mut i: usize = 16;
    proof {
        assert(b@.subrange(16, 16) =~= Seq::<u8>::empty());
        assert(be_value(b@.subrange(16, 16)) == 0);
        assert(pow256(0) == 1);
        assert(rest * pow256(0) == rest);
    }
    while i > 0
        invariant
            i <= 16,
            b@.len() == 16,
            x == rest * pow256((16 - i) as nat) + be_value(b@.subrange(i as int, 16)),
        decreases i,
    {
        let byte = (rest % 256) as u8;
        let ghost old_b = b@;
        let ghost old_rest = rest;
        b.set(i - 1, byte);
        rest = rest / 256;
        proof {
            assert(b@.subrange(i as int, 16) =~= old_b.subrange(i as int, 16));
            assert(b@.subrange(i - 1, 16) =~= seq![byte] + b@.subrange(i as int, 16));
            lemma_be_value_prepend(byte, b@.subrange(i as int, 16));
            let p = pow256((16 - i) as nat);
            assert(pow256((16 - i + 1) as nat) == 256 * p);
            assert(old_rest == rest * 256 + byte) by (nonlinear_arith)
                requires
                    rest == old_rest / 256,
                    byte == old_rest % 256,
            ;
            assert(old_rest * p == rest * (256 * p) + byte * p) by (nonlinear_arith)
                requires
                    old_rest == rest * 256 + byte,
            ;
        }
        i = i - 1;
    }
    proof {
        assert(b@.subrange(0, 16) =~= b@);
        assert(pow256(16) == 0x1_0000_0000_0000_0000_0000_0000_0000_0000) by {
            reveal_with_fuel(pow256, 17);
        }
        let v = be_value(b@);
        assert(rest == 0) by (nonlinear_arith)
            requires
                x == rest * 0x1_0000_0000_0000_0000_0000_0000_0000_0000int + v,
                v >= 0,
                x <= u128::MAX,
                rest >= 0,
        ;
    }
    b
}


/// Lower-case hexadecimal text of 16 bytes in the hyphenated UUID layout:
/// groups of 8, 4, 4, 4 and 12 digits joined by dashes.
pub open spec fn hyphenated(bytes: Seq<u8>) -> Seq<char> {
    let h = hex_encode(bytes);
    h.subrange(0, 8) + seq!['-'] + h.subrange(8, 12) + seq!['-'] + h.subrange(12, 16) + seq!['-']
        + h.subrange(16, 20) + seq!['-'] + h.subrange(20, 32)
}

/// The 16 big-endian bytes of an identifier.
pub open spec fn id_bytes(id: u128) -> Seq<u8> {
    choose|b: Seq<u8>| b.len() == 16 && be_value(b) == id
}

/// An identifier in its usual text form, as `uuid` displays it.
pub open spec fn id_text(id: u128) -> Seq<char> {
    hyphenated(id_bytes(id))
}

/// The text form of the UUID with the given bytes.
///
/// Calls `to_string` on `uuid::Uuid::from_bytes(bytes)`. `Uuid` displays in
/// the hyphenated form, lower case: the 32 hexadecimal digits of its bytes
/// in order, in groups of 8, 4, 4, 4 and 12 joined by dashes.
#[verifier::external_body]
fn uuid_text(bytes: [u8; 16]) -> (s: String)
    ensures
        s@ == hyphenated(bytes@),
{
    uuid::Uuid::from_bytes(bytes).to_string()
}

/// An identifier in its usual text form.
pub fn id_to_text(id: u128) -> (s: String)
    ensures
        s@ == id_text(id),
{
    let b = u128_to_be_bytes(id);
    proof {
        assert(b@.len() == 16);
        let c = id_bytes(id);
        assert(c.len() == 16 && be_value(c) == id);
        crate::utils::lemma_be_value_injective(c, b@);
    }
    uuid_text(b)
}

} // verus!
