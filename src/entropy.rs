//! The entropy source: a digest of request and block context read as an integer,
//! and its reduction to an index.
use vstd::prelude::*;

use crate::types::BlockInfo;
use sha3::{Digest, Keccak256};

verus! {

/// Nanoseconds in a second.
pub const NANOS_PER_SECOND: u64 = 1_000_000_000;

/// The decimal digit `d`.
pub open spec fn digit_char(d: int) -> char {
    if d == 0 {
        '0'
    } else if d == 1 {
        '1'
    } else if d == 2 {
        '2'
    } else if d == 3 {
        '3'
    } else if d == 4 {
        '4'
    } else if d == 5 {
        '5'
    } else if d == 6 {
        '6'
    } else if d == 7 {
        '7'
    } else if d == 8 {
        '8'
    } else {
        '9'
    }
}

/// `n` written in decimal, without leading zeros.
pub open spec fn decimal(n: nat) -> Seq<char>
    decreases n,
{
    if n < 10 {
        seq![digit_char(n as int)]
    } else {
        decimal(n / 10).push(digit_char((n % 10) as int))
    }
}

/// The last `width` decimal digits of `n`, padded with zeros.
pub open spec fn fixed_digits(n: nat, width: nat) -> Seq<char>
    decreases width,
{
    if width == 0 {
        Seq::empty()
    } else {
        fixed_digits(n / 10, (width - 1) as nat).push(digit_char((n % 10) as int))
    }
}

/// A block time as seconds, a dot and nine digits of nanoseconds.
pub open spec fn time_text(nanos: u64) -> Seq<char> {
    decimal((nanos / NANOS_PER_SECOND) as nat) + seq!['.'] + fixed_digits(
        (nanos % NANOS_PER_SECOND) as nat,
        9,
    )
}

pub open spec fn tx_index_of(block: BlockInfo) -> nat {
    match block.tx_index {
        Some(t) => t as nat,
        None => 0,
    }
}

/// The text that is hashed: the inputs joined by underscores.
pub open spec fn seed_text(
    address: Seq<char>,
    last_minter: Seq<char>,
    token_id: Seq<char>,
    block: BlockInfo,
) -> Seq<char> {
    address + seq!['_'] + last_minter + seq!['_'] + token_id + seq!['_'] + decimal(
        block.height as nat,
    ) + seq!['_'] + time_text(block.time_nanos) + seq!['_'] + decimal(tx_index_of(block))
}

/// The Keccak-256 digest of the UTF-8 encoding of a text.
pub uninterp spec fn keccak256_of(text: Seq<char>) -> Seq<u8>;

/// Relies on sha3's `Keccak256`: the digest of the text's UTF-8 bytes, 32 bytes
/// long and determined by the text alone.
#[verifier::external_body]
fn keccak256(text: &String) -> (r: Vec<u8>)
    ensures
        r@ == keccak256_of(text@),
        r@.len() == 32,
{
    let mut hasher = Keccak256::new();
    hasher.update(text.as_bytes());
    hasher.finalize().to_vec()
}

/// The unsigned integer whose little-endian bytes are `b`.
pub open spec fn le_value(b: Seq<u8>) -> nat
    decreases b.len(),
{
    if b.len() == 0 {
        0
    } else {
        b[0] as nat + 256 * le_value(b.drop_first())
    }
}

pub open spec fn pow256(k: nat) -> nat
    decreases k,
{
    if k == 0 {
        1
    } else {
        256 * pow256((k - 1) as nat)
    }
}

/// The entropy drawn for a request: the first sixteen digest bytes, little-endian.
pub open spec fn entropy_of(
    address: Seq<char>,
    last_minter: Seq<char>,
    token_id: Seq<char>,
    block: BlockInfo,
) -> nat {
    le_value(keccak256_of(seed_text(address, last_minter, token_id, block)).subrange(0, 16))
}

/// An index in `[0, range)` drawn from the request's entropy; `0` for a range of `0`.
pub open spec fn draw_index(
    address: Seq<char>,
    last_minter: Seq<char>,
    token_id: Seq<char>,
    block: BlockInfo,
    range: usize,
) -> nat {
    if range == 0 {
        0
    } else {
        entropy_of(address, last_minter, token_id, block) % (range as nat)
    }
}

proof fn lemma_le_value_bound(b: Seq<u8>)
    ensures
        le_value(b) < pow256(b.len()),
    decreases b.len(),
{
    if b.len() > 0 {
        lemma_le_value_bound(b.drop_first());
        let x = b[0] as int;
        let r = le_value(b.drop_first()) as int;
        let p = pow256((b.len() - 1) as nat) as int;
        assert(x + 256 * r < 256 * p) by (nonlinear_arith)
            requires
                0 <= x < 256,
                0 <= r < p,
        ;
    }
}

proof fn lemma_pow256_monotone(a: nat, b: nat)
    requires
        a <= b,
    ensures
        pow256(a) <= pow256(b),
    decreases b,
{
    if a < b {
        lemma_pow256_monotone(a, (b - 1) as nat);
    }
}

fn digit_str(d: u64) -> (r: &'static str)
    requires
        d < 10,
    ensures
        r@ == seq![digit_char(d as int)],
{
    proof {
        reveal_strlit("0");
        reveal_strlit("1");
        reveal_strlit("2");
        reveal_strlit("3");
        reveal_strlit("4");
        reveal_strlit("5");
        reveal_strlit("6");
        reveal_strlit("7");
        reveal_strlit("8");
        reveal_strlit("9");
    }
    if d == 0 {
        "0"
    } else if d == 1 {
        "1"
    } else if d == 2 {
        "2"
    } else if d == 3 {
        "3"
    } else if d == 4 {
        "4"
    } else if d == 5 {
        "5"
    } else if d == 6 {
        "6"
    } else if d == 7 {
        "7"
    } else if d == 8 {
        "8"
    } else {
        "9"
    }
}

/// `n` in decimal.
pub fn decimal_string(n: u64) -> (r: String)
    ensures
        r@ == decimal(n as nat),
    decreases n,
{
    if n < 10 {
        String::from_str(digit_str(n))
    } else {
        let mut s = decimal_string(n / 10);
        s.append(digit_str(n % 10));
        s
    }
}

/// The last `width` decimal digits of `n`, zero-padded.
pub fn fixed_digits_string(n: u64, width: u64) -> (r: String)
    ensures
        r@ == fixed_digits(n as nat, width as nat),
    decreases width,
{
    if width == 0 {
        String::new()
    } else {
        let mut s = fixed_digits_string(n / 10, width - 1);
        s.append(digit_str(n % 10));
        s
    }
}

/// The text hashed for a draw.
pub fn seed_string(address: &String, last_minter: &String, token_id: &String, block: &BlockInfo) -> (r:
    String)
    ensures
        r@ == seed_text(address@, last_minter@, token_id@, *block),
{
    proof {
        reveal_strlit("_");
        reveal_strlit(".");
    }
    let tx: u64 = match block.tx_index {
        Some(t) => t as u64,
        None => 0,
    };
    let mut text = address.clone();
    text.append("_");
    text.append(last_minter.as_str());
    text.append("_");
    text.append(token_id.as_str());
    text.append("_");
    text.append(decimal_string(block.height).as_str());
    text.append("_");
    text.append(decimal_string(block.time_nanos / NANOS_PER_SECOND).as_str());
    text.append(".");
    text.append(fixed_digits_string(block.time_nanos % NANOS_PER_SECOND, 9).as_str());
    text.append("_");
    text.append(decimal_string(tx).as_str());
    assert(text@ =~= seed_text(address@, last_minter@, token_id@, *block));
    text
}

/// The integer whose little-endian bytes are the first sixteen of `bytes`.
pub fn le_u128(bytes: &Vec<u8>) -> (r: u128)
    requires
        bytes@.len() >= 16,
    ensures
        r as nat == le_value(bytes@.subrange(0, 16)),
{
    let mut acc: u128 = 0;
    let mut i: usize = 16;
    proof {
        assert(bytes@.subrange(16, 16) =~= Seq::<u8>::empty());
    }
    while i > 0
        invariant
            0 <= i <= 16,
            bytes@.len() >= 16,
            acc as nat == le_value(bytes@.subrange(i as int, 16)),
        decreases i,
    {
        let ghost tail = bytes@.subrange(i as int, 16);
        proof {
            lemma_le_value_bound(tail);
            lemma_pow256_monotone(tail.len(), 15);
            reveal_with_fuel(pow256, 16);
            assert(pow256(15) == 1329227995784915872903807060280344576u128 as nat);
            assert(bytes@.subrange(i - 1, 16).drop_first() =~= tail);
        }
        acc = acc * 256 + bytes[i - 1] as u128;
        i = i - 1;
    }
    acc
}

/// The entropy for a request: Keccak-256 of the joined inputs, first sixteen
/// bytes read little-endian.
pub fn random(block: &BlockInfo, address: &String, last_minter: &String, token_id: &String) -> (r:
    u128)
    ensures
        r as nat == entropy_of(address@, last_minter@, token_id@, *block),
{
    let text = seed_string(address, last_minter, token_id, block);
    let digest = keccak256(&text);
    le_u128(&digest)
}

/// Reduces `entropy` to an index in `[0, range)`; a range of `0` gives `0`.
pub fn reduce_index(entropy: u128, range: usize) -> (r: usize)
    ensures
        r as nat == if range == 0 {
            0
        } else {
            entropy as nat % (range as nat)
        },
        range > 0 ==> r < range,
{
    if range == 0 {
        0
    } else {
        (entropy % (range as u128)) as usize
    }
}

/// An index in `[0, range)` drawn from the request's entropy. A range of `0`
/// gives `0` and does not consult the entropy source.
pub fn range_random(
    block: &BlockInfo,
    address: &String,
    last_minter: &String,
    last_token_id: &String,
    range: usize,
) -> (r: usize)
    ensures
        r as nat == draw_index(address@, last_minter@, last_token_id@, *block, range),
        range == 0 ==> r == 0,
        range > 0 ==> r < range,
{
    if range == 0 {
        return 0;
    }
    let entropy = random(block, address, last_minter, last_token_id);
    reduce_index(entropy, range)
}

} // verus!
