//! Settings that the mempool IO layer reads at start-up: the operator key
//! that signs oracle transactions, and the path of the oracle configuration.
use vstd::prelude::*;

use crate::primitives::{be_nat, lemma_be_nat_push, H256};
use vstd::string::StringSliceAdditionalSpecFns;
use vstd::string::StringExecFns;

verus! {

/// `c` is an ASCII hex digit, of either case.
pub open spec fn is_hex_digit(c: u8) -> bool {
    (0x30 <= c <= 0x39) || (0x41 <= c <= 0x46) || (0x61 <= c <= 0x66)
}

/// The value of the hex digit `c`.
pub open spec fn hex_digit_value(c: u8) -> nat {
    if c <= 0x39 {
        (c - 0x30) as nat
    } else if c <= 0x46 {
        (c - 0x41 + 10) as nat
    } else {
        (c - 0x61 + 10) as nat
    }
}

/// `s` is an even number of hex digits.
pub open spec fn is_hex(s: Seq<u8>) -> bool {
    &&& s.len() % 2 == 0
    &&& forall|i: int| 0 <= i < s.len() ==> is_hex_digit(#[trigger] s[i])
}

/// The bytes that the hex digits `s` spell, two digits a byte, high digit first.
pub open spec fn hex_decoded(s: Seq<u8>) -> Seq<u8> {
    Seq::new(
        s.len() / 2,
        |i: int| (hex_digit_value(s[2 * i]) * 16 + hex_digit_value(s[2 * i + 1])) as u8,
    )
}

/// Decodes hex text with `hex::decode`. Its source decodes pairs of digits
/// (either case) into bytes, high digit first, and fails on an odd length or
/// on any other character; the contract states exactly that.
#[verifier::external_body]
fn hex_decode(text: &[u8]) -> (decoded: Option<Vec<u8>>)
    ensures
        decoded is Some <==> is_hex(text@),
        decoded matches Some(bytes) ==> bytes@ == hex_decoded(text@),
{
    hex::decode(text).ok()
}

/// The big-endian bytes of the order of the secp256k1 group.
pub open spec fn secp256k1_order_bytes() -> Seq<u8> {
    seq![
        0xFFu8, 0xFF, 0xFF, 0xFF, 0xFF, 0xFF, 0xFF, 0xFF, 0xFF, 0xFF, 0xFF, 0xFF, 0xFF, 0xFF, 0xFF, 0xFE,
        0xBA, 0xAE, 0xDC, 0xE6, 0xAF, 0x48, 0xA0, 0x3B, 0xBF, 0xD2, 0x5E, 0x8C, 0xD0, 0x36, 0x41, 0x41,
    ]
}

/// The order of the secp256k1 group.
pub open spec fn secp256k1_order() -> nat {
    115792089237316195423570985008687907852837564279074904382605163141518161494337nat
}

proof fn lemma_be_nat_take_step(s: Seq<u8>, k: int)
    requires
        0 <= k < s.len(),
    ensures
        be_nat(s.take(k + 1)) == be_nat(s.take(k)) * 256 + s[k] as nat,
{
    assert(s.take(k + 1) =~= s.take(k).push(s[k]));
    lemma_be_nat_push(s.take(k), s[k]);
}

/// The order's bytes spell the order.
pub proof fn lemma_secp256k1_order_bytes()
    ensures
        be_nat(secp256k1_order_bytes()) == secp256k1_order(),
{
    let s = secp256k1_order_bytes();
    assert(s.take(0) =~= Seq::<u8>::empty());
    lemma_be_nat_take_step(s, 0);
    lemma_be_nat_take_step(s, 1);
    lemma_be_nat_take_step(s, 2);
    lemma_be_nat_take_step(s, 3);
    lemma_be_nat_take_step(s, 4);
    lemma_be_nat_take_step(s, 5);
    lemma_be_nat_take_step(s, 6);
    lemma_be_nat_take_step(s, 7);
    lemma_be_nat_take_step(s, 8);
    lemma_be_nat_take_step(s, 9);
    lemma_be_nat_take_step(s, 10);
    lemma_be_nat_take_step(s, 11);
    lemma_be_nat_take_step(s, 12);
    lemma_be_nat_take_step(s, 13);
    lemma_be_nat_take_step(s, 14);
    lemma_be_nat_take_step(s, 15);
    lemma_be_nat_take_step(s, 16);
    lemma_be_nat_take_step(s, 17);
    lemma_be_nat_take_step(s, 18);
    lemma_be_nat_take_step(s, 19);
    lemma_be_nat_take_step(s, 20);
    lemma_be_nat_take_step(s, 21);
    lemma_be_nat_take_step(s, 22);
    lemma_be_nat_take_step(s, 23);
    lemma_be_nat_take_step(s, 24);
    lemma_be_nat_take_step(s, 25);
    lemma_be_nat_take_step(s, 26);
    lemma_be_nat_take_step(s, 27);
    lemma_be_nat_take_step(s, 28);
    lemma_be_nat_take_step(s, 29);
    lemma_be_nat_take_step(s, 30);
    lemma_be_nat_take_step(s, 31);
    assert(s.take(32) =~= s);
}

/// `key` is a valid secp256k1 secret key: 32 bytes whose big-endian value is
/// neither zero nor below the group order.
pub open spec fn is_valid_secret_key(key: Seq<u8>) -> bool {
    &&& key.len() == 32
    &&& 0 < be_nat(key)
    &&& be_nat(key) < secp256k1_order()
}

/// Law: a secret key is valid exactly when its big-endian value is above
/// zero and below the secp256k1 group order.
pub proof fn lemma_valid_secret_key_range(key: Seq<u8>)
    requires
        key.len() == 32,
    ensures
        is_valid_secret_key(key) <==> 0 < be_nat(key)
            < 115792089237316195423570985008687907852837564279074904382605163141518161494337,
{
}

fn secp256k1_order_array() -> (order: [u8; 32])
    ensures
        order@ == secp256k1_order_bytes(),
{
    let order: [u8; 32] = [
        0xFF, 0xFF, 0xFF, 0xFF, 0xFF, 0xFF, 0xFF, 0xFF, 0xFF, 0xFF, 0xFF, 0xFF, 0xFF, 0xFF, 0xFF, 0xFE,
        0xBA, 0xAE, 0xDC, 0xE6, 0xAF, 0x48, 0xA0, 0x3B, 0xBF, 0xD2, 0x5E, 0x8C, 0xD0, 0x36, 0x41, 0x41,
    ];
    assert(order@ =~= secp256k1_order_bytes());
    order
}

/// Whether `key` is a valid secp256k1 secret key, by comparing it with the
/// group order byte by byte from the most significant end.
pub fn is_secret_key(key: &[u8; 32]) -> (valid: bool)
    ensures
        valid == is_valid_secret_key(key@),
{
    let order = secp256k1_order_array();
    let mut less = false;
    let mut equal = true;
    let mut nonzero = false;
    let mut i: usize = 0;
    assert(key@.take(0) =~= Seq::<u8>::empty());
    assert(order@.take(0) =~= Seq::<u8>::empty());
    while i < 32
        invariant
            i <= 32,
            less == (be_nat(key@.take(i as int)) < be_nat(order@.take(i as int))),
            equal == (be_nat(key@.take(i as int)) == be_nat(order@.take(i as int))),
            nonzero == (be_nat(key@.take(i as int)) > 0),
        decreases 32 - i,
    {
        let a = key[i];
        let b = order[i];
        proof {
            lemma_be_nat_take_step(key@, i as int);
            lemma_be_nat_take_step(order@, i as int);
        }
        less = less || (equal && a < b);
        equal = equal && a == b;
        nonzero = nonzero || a != 0;
        i = i + 1;
    }
    proof {
        assert(key@.take(32) =~= key@);
        assert(order@.take(32) =~= order@);
        lemma_secp256k1_order_bytes();
    }
    nonzero && less
}

/// The text without a leading `0x`, if it has one.
pub open spec fn without_0x(text: Seq<u8>) -> Seq<u8> {
    if text.len() >= 2 && text[0] == 0x30 && text[1] == 0x78 {
        text.skip(2)
    } else {
        text
    }
}

/// The secret key bytes that the text `text` gives, if it gives one: after
/// an optional `0x`, 64 hex digits that spell a valid secp256k1 secret key.
pub open spec fn operator_key_bytes(text: Seq<u8>) -> Option<Seq<u8>> {
    let digits = without_0x(text);
    if is_hex(digits) && hex_decoded(digits).len() == 32 && is_valid_secret_key(
        hex_decoded(digits),
    ) {
        Some(hex_decoded(digits))
    } else {
        None
    }
}

/// The operator's private key for signing oracle transactions, from its hex
/// text (with or without `0x`); `None` where the text is not a hex-encoded
/// 32-byte valid secp256k1 secret key.
pub fn parse_operator_key(key_hex: &str) -> (key: Option<H256>)
    ensures
        match operator_key_bytes(key_hex.spec_bytes()) {
            Some(bytes) => key matches Some(k) && k@ == bytes,
            None => key is None,
        },
{
    let text = key_hex.as_bytes();
    let ghost t = text@;
    let from: usize = if text.len() >= 2 && text[0] == 0x30 && text[1] == 0x78 {
        2
    } else {
        0
    };
    let mut digits: Vec<u8> = Vec::new();
    let mut i = from;
    while i < text.len()
        invariant
            text@ == t,
            from <= i <= t.len(),
            from == 0 || from == 2,
            without_0x(t) == t.skip(from as int),
            digits@ == t.subrange(from as int, i as int),
        decreases t.len() - i,
    {
        digits.push(text[i]);
        i = i + 1;
    }
    assert(digits@ =~= without_0x(t));
    let decoded = match hex_decode(digits.as_slice()) {
        Some(bytes) => bytes,
        None => {
            return None;
        },
    };
    if decoded.len() != 32 {
        return None;
    }
    let mut bytes = [0u8; 32];
    let mut j: usize = 0;
    while j < 32
        invariant
            decoded@.len() == 32,
            j <= 32,
            forall|k: int| 0 <= k < j ==> bytes@[k] == decoded@[k],
        decreases 32 - j,
    {
        bytes[j] = decoded[j];
        j = j + 1;
    }
    assert(bytes@ =~= decoded@);
    if is_secret_key(&bytes) {
        Some(H256(bytes))
    } else {
        None
    }
}

/// Law: a leading `0x` is optional: text that does not itself start with
/// `0x` gives the same key with or without one in front, and a key that is
/// given comes from exactly 64 hex digits.
pub proof fn lemma_operator_key_prefix_optional(text: Seq<u8>)
    requires
        !(text.len() >= 2 && text[0] == 0x30 && text[1] == 0x78),
    ensures
        operator_key_bytes(seq![0x30u8, 0x78u8] + text) == operator_key_bytes(text),
        operator_key_bytes(text) is Some ==> text.len() == 64,
{
    assert((seq![0x30u8, 0x78u8] + text).skip(2) =~= text);
}

/// The value of the ASCII hex digit `c`, written out by character range.
pub open spec fn nibble(c: u8) -> int {
    if 0x30 <= c <= 0x39 {
        c - 0x30
    } else if 0x41 <= c <= 0x46 {
        c - 0x41 + 10
    } else {
        c - 0x61 + 10
    }
}

/// Law: text gives an operator key exactly when, after one optional leading
/// `0x`, it is 64 characters from `0-9`, `A-F`, `a-f` whose 32 bytes (two
/// digits a byte, high digit first) have a big-endian value above zero and
/// below the secp256k1 group order; the key is those bytes. Here the text is
/// `digits`, with `0x` in front where `prefixed` holds.
pub proof fn lemma_operator_key_digits(digits: Seq<u8>, prefixed: bool)
    requires
        !prefixed ==> !(digits.len() >= 2 && digits[0] == 0x30 && digits[1] == 0x78),
    ensures
        ({
            let text = if prefixed {
                seq![0x30u8, 0x78u8] + digits
            } else {
                digits
            };
            let spelled = Seq::new(
                32,
                |i: int| (nibble(digits[2 * i]) * 16 + nibble(digits[2 * i + 1])) as u8,
            );
            &&& operator_key_bytes(text) is Some <==> {
                &&& digits.len() == 64
                &&& forall|i: int|
                    0 <= i < 64 ==> (0x30 <= #[trigger] digits[i] <= 0x39) || (0x41 <= digits[i]
                        <= 0x46) || (0x61 <= digits[i] <= 0x66)
                &&& 0 < be_nat(spelled)
                &&& be_nat(spelled)
                    < 115792089237316195423570985008687907852837564279074904382605163141518161494337
            }
            &&& operator_key_bytes(text) matches Some(key) ==> key == spelled
        }),
{
    let text = if prefixed {
        seq![0x30u8, 0x78u8] + digits
    } else {
        digits
    };
    let d = digits;
    if prefixed {
        assert(text.skip(2) =~= digits);
    }
    assert(without_0x(text) == d);
    let spelled = Seq::new(32, |i: int| (nibble(d[2 * i]) * 16 + nibble(d[2 * i + 1])) as u8);
    let digits_ok = forall|i: int|
        0 <= i < 64 ==> (0x30 <= #[trigger] d[i] <= 0x39) || (0x41 <= d[i] <= 0x46) || (0x61
            <= d[i] <= 0x66);
    if is_hex(d) && hex_decoded(d).len() == 32 {
        assert(d.len() == 64);
    }
    if d.len() == 64 {
        if digits_ok {
            assert forall|i: int| 0 <= i < d.len() implies is_hex_digit(#[trigger] d[i]) by {}
            assert(is_hex(d));
            assert forall|i: int| 0 <= i < 32 implies hex_decoded(d)[i] == spelled[i] by {
                assert(0 <= 2 * i < 64 && 0 <= 2 * i + 1 < 64);
                assert(is_hex_digit(d[2 * i]));
                assert(is_hex_digit(d[2 * i + 1]));
            }
            assert(hex_decoded(d) =~= spelled);
        }
        if is_hex(d) {
            assert forall|i: int| 0 <= i < 64 implies (0x30 <= #[trigger] d[i] <= 0x39) || (0x41
                <= d[i] <= 0x46) || (0x61 <= d[i] <= 0x66) by {
                assert(is_hex_digit(d[i]));
            }
            assert(digits_ok);
            assert(hex_decoded(d) =~= spelled);
        }
    }
}

/// Where the oracle configuration is read from: the configured path, or
/// `config/baby-chain.toml` where none is configured.
pub fn oracle_config_path(configured: Option<String>) -> (path: String)
    ensures
        path@ == match configured {
            Some(p) => p@,
            None => "config/baby-chain.toml"@,
        },
{
    match configured {
        Some(p) => p,
        None => String::from_str("config/baby-chain.toml"),
    }
}

} // verus!
