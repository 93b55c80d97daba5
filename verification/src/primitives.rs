//! Fixed-width values of the zkSync VM: 256-bit words, 32-byte hashes and
//! 20-byte addresses, each held as its big-endian bytes.
use vstd::prelude::*;

verus! {

/// The natural number that a big-endian byte string denotes.
pub open spec fn be_nat(bytes: Seq<u8>) -> nat
    decreases bytes.len(),
{
    if bytes.len() == 0 {
        0
    } else {
        be_nat(bytes.drop_last()) * 256 + bytes.last() as nat
    }
}

/// `n` zero bytes.
pub open spec fn zeros(n: nat) -> Seq<u8> {
    Seq::new(n, |i: int| 0u8)
}

/// Appending a byte shifts the value by one byte and adds the new byte.
pub proof fn lemma_be_nat_push(s: Seq<u8>, b: u8)
    ensures
        be_nat(s.push(b)) == be_nat(s) * 256 + b as nat,
{
    assert(s.push(b).drop_last() =~= s);
}

/// A string of zero bytes denotes zero.
pub proof fn lemma_be_nat_zeros(n: nat)
    ensures
        be_nat(zeros(n)) == 0,
    decreases n,
{
    if n > 0 {
        lemma_be_nat_zeros((n - 1) as nat);
        assert(zeros(n).drop_last() =~= zeros((n - 1) as nat));
    }
}

/// Leading zero bytes do not change the value.
pub proof fn lemma_be_nat_zero_prefix(n: nat, s: Seq<u8>)
    ensures
        be_nat(zeros(n) + s) == be_nat(s),
    decreases s.len(),
{
    if s.len() == 0 {
        lemma_be_nat_zeros(n);
        assert(zeros(n) + s =~= zeros(n));
    } else {
        lemma_be_nat_zero_prefix(n, s.drop_last());
        assert((zeros(n) + s).drop_last() =~= zeros(n) + s.drop_last());
    }
}

/// A 20-byte account address.
#[derive(Clone, Copy, Debug, PartialEq, Eq)]
pub struct Address(pub [u8; 20]);

impl View for Address {
    type V = Seq<u8>;

    open spec fn view(&self) -> Seq<u8> {
        self.0@
    }
}

impl Address {
    /// The address whose 20 bytes are all `byte`.
    pub fn repeat_byte(byte: u8) -> (a: Address)
        ensures
            a@ == Seq::new(20, |i: int| byte),
    {
        let a = Address([byte; 20]);
        assert(a@ =~= Seq::new(20, |i: int| byte));
        a
    }

    /// The all-zero address.
    pub fn zero() -> (a: Address)
        ensures
            a@ == zeros(20),
    {
        let a = Address([0u8; 20]);
        assert(a@ =~= zeros(20));
        a
    }
}

/// A 32-byte hash.
#[derive(Clone, Copy, Debug, PartialEq, Eq)]
pub struct H256(pub [u8; 32]);

impl View for H256 {
    type V = Seq<u8>;

    open spec fn view(&self) -> Seq<u8> {
        self.0@
    }
}

/// An unsigned 256-bit word, held as its 32 big-endian bytes.
#[derive(Clone, Copy, Debug, PartialEq, Eq)]
pub struct U256(pub [u8; 32]);

impl View for U256 {
    type V = nat;

    /// The number the word denotes.
    open spec fn view(&self) -> nat {
        be_nat(self.0@)
    }
}

impl U256 {
    /// The word 0.
    pub fn zero() -> (w: U256)
        ensures
            w.0@ == zeros(32),
            w@ == 0,
    {
        let w = U256([0u8; 32]);
        assert(w.0@ =~= zeros(32));
        proof {
            lemma_be_nat_zeros(32);
        }
        w
    }

    /// The word 1.
    pub fn one() -> (w: U256)
        ensures
            w@ == 1,
    {
        U256::from_u64(1)
    }

    /// The word whose big-endian bytes are `bytes`, padded with leading
    /// zeros to 32 bytes.
    pub fn from_big_endian(bytes: &[u8]) -> (w: U256)
        requires
            bytes@.len() <= 32,
        ensures
            w.0@ == zeros((32 - bytes@.len()) as nat) + bytes@,
            w@ == be_nat(bytes@),
    {
        let n = bytes.len();
        let pad = 32 - n;
        let mut out = [0u8; 32];
        let mut i: usize = 0;
        while i < n
            invariant
                n == bytes@.len(),
                n <= 32,
                pad == 32 - n,
                i <= n,
                forall|j: int| 0 <= j < pad ==> out@[j] == 0u8,
                forall|j: int| 0 <= j < i ==> out@[pad + j] == bytes@[j],
            decreases n - i,
        {
            out[pad + i] = bytes[i];
            i = i + 1;
        }
        let w = U256(out);
        assert(w.0@ =~= zeros(pad as nat) + bytes@);
        proof {
            lemma_be_nat_zero_prefix(pad as nat, bytes@);
        }
        w
    }

    /// The word whose value is `x`.
    pub fn from_u64(x: u64) -> (w: U256)
        ensures
            w@ == x as nat,
    {
        let b0 = (x >> 56u64) as u8;
        let b1 = (x >> 48u64) as u8;
        let b2 = (x >> 40u64) as u8;
        let b3 = (x >> 32u64) as u8;
        let b4 = (x >> 24u64) as u8;
        let b5 = (x >> 16u64) as u8;
        let b6 = (x >> 8u64) as u8;
        let b7 = x as u8;
        let mut out = [0u8; 32];
        out[24] = b0;
        out[25] = b1;
        out[26] = b2;
        out[27] = b3;
        out[28] = b4;
        out[29] = b5;
        out[30] = b6;
        out[31] = b7;
        let w = U256(out);
        proof {
            let tail = seq![b0].push(b1).push(b2).push(b3).push(b4).push(b5).push(b6).push(b7);
            assert(w.0@ =~= zeros(24) + tail);
            lemma_be_nat_zero_prefix(24, tail);
            assert(seq![b0] =~= Seq::<u8>::empty().push(b0));
            lemma_be_nat_push(Seq::<u8>::empty(), b0);
            lemma_be_nat_push(seq![b0], b1);
            lemma_be_nat_push(seq![b0].push(b1), b2);
            lemma_be_nat_push(seq![b0].push(b1).push(b2), b3);
            lemma_be_nat_push(seq![b0].push(b1).push(b2).push(b3), b4);
            lemma_be_nat_push(seq![b0].push(b1).push(b2).push(b3).push(b4), b5);
            lemma_be_nat_push(seq![b0].push(b1).push(b2).push(b3).push(b4).push(b5), b6);
            lemma_be_nat_push(seq![b0].push(b1).push(b2).push(b3).push(b4).push(b5).push(b6), b7);
            assert(x == ((((((b0 as u64 * 256 + b1 as u64) * 256 + b2 as u64) * 256 + b3 as u64)
                * 256 + b4 as u64) * 256 + b5 as u64) * 256 + b6 as u64) * 256 + b7 as u64)
                by (bit_vector)
                requires
                    b0 == (x >> 56u64) as u8,
                    b1 == (x >> 48u64) as u8,
                    b2 == (x >> 40u64) as u8,
                    b3 == (x >> 32u64) as u8,
                    b4 == (x >> 24u64) as u8,
                    b5 == (x >> 16u64) as u8,
                    b6 == (x >> 8u64) as u8,
                    b7 == x as u8,
            ;
        }
        w
    }
}

} // verus!
