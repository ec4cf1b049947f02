//! What identifies one token: the address of its contract and its
//! number.

use vstd::prelude::*;
use vstd::arithmetic::power::pow;
use vstd::arithmetic::power2::{lemma2_to64, lemma_pow2_adds, pow2};
use ethers::abi::{encode, Token};
use ethers::types::{H160, U256};
use crate::error::ServiceError;
use crate::notation::{
    decimal_digits, decimal_value, hex_bytes, hex_digit_value, hex_digits, is_decimal, is_hex,
    is_hex_digit,
};
use crate::text::chars_of;

verus! {

/// Two to the power 256: the first number that is too large for a token
/// identifier.
pub open spec fn u256_limit() -> nat {
    0x1_0000_0000_0000_0000_0000_0000_0000_0000_0000_0000_0000_0000_0000_0000_0000_0000nat
}

/// Nothing but decimal digits, standing for a number below two to the
/// power 256. The empty text qualifies: it holds no other character, and
/// its value is zero.
pub open spec fn is_u256_digits(s: Seq<char>) -> bool {
    is_decimal(s) && decimal_value(s) < u256_limit()
}

/// A decimal numeral of a number below two to the power 256: one or more
/// decimal digits, leading zeros allowed. The empty text is no numeral.
pub open spec fn is_u256_numeral(s: Seq<char>) -> bool {
    s.len() > 0 && is_u256_digits(s)
}

/// The number that four 64-bit limbs stand for, least significant limb
/// first.
pub open spec fn limbs_value(limbs: Seq<u64>) -> nat {
    (limbs[0] + limbs[1] * 0x1_0000_0000_0000_0000int + limbs[2]
        * 0x1_0000_0000_0000_0000_0000_0000_0000_0000int + limbs[3]
        * 0x1_0000_0000_0000_0000_0000_0000_0000_0000_0000_0000_0000_0000int) as nat
}

/// `n` as a word of 32 bytes, most significant byte first, with zeros in
/// front of a number that needs fewer.
pub open spec fn big_endian_word(n: nat) -> Seq<u8> {
    Seq::new(32, |i: int| ((n / (pow(256, (31 - i) as nat) as nat)) % 256) as u8)
}

/// The number of a token: an unsigned integer of 256 bits, held as four
/// limbs of 64 bits with the least significant first.
#[derive(Debug, Clone, Copy, PartialEq, Eq)]
pub struct TokenId {
    pub limbs: [u64; 4],
}

impl View for TokenId {
    type V = nat;

    open spec fn view(&self) -> nat {
        limbs_value(self.limbs@)
    }
}

/// The limit is two to the power 256, as its name says.
pub proof fn lemma_u256_limit_is_power()
    ensures
        u256_limit() == pow2(256),
{
    lemma2_to64();
    lemma_pow2_adds(64, 64);
    lemma_pow2_adds(128, 128);
    assert(pow2(64) == 0x1_0000_0000_0000_0000int);
    assert(pow2(128) == 0x1_0000_0000_0000_0000_0000_0000_0000_0000int);
    assert(pow2(256) == pow2(128) * pow2(128));
    assert(0x1_0000_0000_0000_0000_0000_0000_0000_0000int
        * 0x1_0000_0000_0000_0000_0000_0000_0000_0000int == u256_limit()) by (nonlinear_arith);
}

/// The limit is tight: the largest limbs stand for the number just below
/// it.
pub proof fn lemma_u256_limit_is_tight()
    ensures
        limbs_value(seq![u64::MAX, u64::MAX, u64::MAX, u64::MAX]) + 1 == u256_limit(),
{
}

/// Every number below the limit is a token number: four limbs stand for
/// it.
pub proof fn lemma_limbs_of_number(n: nat) -> (limbs: Seq<u64>)
    requires
        n < u256_limit(),
    ensures
        limbs.len() == 4,
        limbs_value(limbs) == n,
{
    let base = 0x1_0000_0000_0000_0000int;
    let l0 = n as int % base;
    let q1 = n as int / base;
    let l1 = q1 % base;
    let q2 = q1 / base;
    let l2 = q2 % base;
    let l3 = q2 / base;
    assert(0 <= l3 < base);
    let limbs = seq![l0 as u64, l1 as u64, l2 as u64, l3 as u64];
    assert(limbs[0] == l0 && limbs[1] == l1 && limbs[2] == l2 && limbs[3] == l3);
    limbs
}

/// Every token number is below two to the power 256.
pub proof fn lemma_token_id_bound(id: TokenId)
    ensures
        id@ < u256_limit(),
{
    let l = id.limbs@;
    assert(l[0] < 0x1_0000_0000_0000_0000int);
    assert(l[1] < 0x1_0000_0000_0000_0000int);
    assert(l[2] < 0x1_0000_0000_0000_0000int);
    assert(l[3] < 0x1_0000_0000_0000_0000int);
}

/// Four limbs stand for one number only.
pub proof fn lemma_limbs_value_injective(x: Seq<u64>, y: Seq<u64>)
    requires
        x.len() == 4,
        y.len() == 4,
        limbs_value(x) == limbs_value(y),
    ensures
        x == y,
{
    assert(x[3] == y[3]);
    assert(x[2] == y[2]);
    assert(x[1] == y[1]);
    assert(x[0] == y[0]);
    assert(x =~= y);
}

/// The error of `U256::from_dec_str`.
#[verifier::external_type_specification]
#[verifier::external_body]
pub struct ExFromDecStrErr(ethers::abi::ethereum_types::FromDecStrErr);

/// `U256::from_dec_str` of ethers. It reads the text digit by digit and
/// succeeds exactly when every character is a decimal digit and the number
/// is below two to the power 256; the result is then that number. It
/// reads the empty text as zero.
#[verifier::external_body]
fn u256_from_dec_str(text: &str) -> (r: Result<TokenId, ethers::abi::ethereum_types::FromDecStrErr>)
    ensures
        r is Ok <==> is_u256_digits(text@),
        r matches Ok(id) ==> id@ == decimal_value(text@),
{
    match U256::from_dec_str(text) {
        Ok(value) => Ok(TokenId { limbs: value.0 }),
        Err(e) => Err(e),
    }
}

/// The `Display` form of ethers' `U256`: the number in decimal, without
/// leading zeros.
#[verifier::external_body]
pub(crate) fn u256_to_string(id: &TokenId) -> (text: String)
    ensures
        text@ == decimal_digits(id@),
{
    U256(id.limbs).to_string()
}

/// `ethers::abi::encode` on a single unsigned integer: one word of 32
/// bytes that holds the number, most significant byte first.
#[verifier::external_body]
pub(crate) fn abi_encode_uint(id: &TokenId) -> (word: Vec<u8>)
    ensures
        word@ == big_endian_word(id@),
{
    encode(&[Token::Uint(U256(id.limbs))])
}

impl TokenId {
    /// Reads a token number written in decimal. A text without a digit
    /// is no number, and is refused like any other malformed text.
    pub fn from_dec_str(text: &str) -> (r: Result<TokenId, ServiceError>)
        ensures
            is_u256_numeral(text@) ==> (r matches Ok(id) && id@ == decimal_value(text@)),
            !is_u256_numeral(text@) ==> r == Err::<TokenId, ServiceError>(
                ServiceError::InvalidTokenId,
            ),
    {
        if text.is_empty() {
            return Err(ServiceError::InvalidTokenId);
        }
        match u256_from_dec_str(text) {
            Ok(id) => Ok(id),
            Err(_) => Err(ServiceError::InvalidTokenId),
        }
    }
}

/// The address of a contract: twenty bytes.
#[derive(Debug, Clone, Copy, PartialEq, Eq)]
pub struct Address {
    pub bytes: [u8; 20],
}

impl View for Address {
    type V = Seq<u8>;

    open spec fn view(&self) -> Seq<u8> {
        self.bytes@
    }
}

/// `text` without the prefix `0x`, if it has one.
pub open spec fn strip_hex_prefix(text: Seq<char>) -> Seq<char> {
    if text.len() >= 2 && text[0] == '0' && text[1] == 'x' {
        text.skip(2)
    } else {
        text
    }
}

/// The text of an address: forty hexadecimal digits in either case, with
/// or without `0x` in front.
pub open spec fn is_address_text(text: Seq<char>) -> bool {
    strip_hex_prefix(text).len() == 40 && is_hex(strip_hex_prefix(text))
}

/// The bytes that the text of an address stands for.
pub open spec fn address_bytes(text: Seq<char>) -> Seq<u8> {
    hex_bytes(strip_hex_prefix(text))
}

/// The text that an address is written as: `0x` and forty lower-case
/// hexadecimal digits.
pub open spec fn address_text(bytes: Seq<u8>) -> Seq<char> {
    seq!['0', 'x'] + hex_digits(bytes)
}

/// The `Debug` form of ethers' `H160`, which is what `{:#?}` prints:
/// `0x` followed by two lower-case hexadecimal digits for each of the
/// twenty bytes, first byte first.
#[verifier::external_body]
pub(crate) fn h160_debug(address: &Address) -> (text: String)
    ensures
        text@ == address_text(address@),
{
    format!("{:#?}", H160(address.bytes))
}

/// The value of one hexadecimal digit, if `c` is one.
fn hex_value(c: char) -> (r: Option<u8>)
    ensures
        r is Some <==> is_hex_digit(c),
        r matches Some(v) ==> v == hex_digit_value(c),
{
    if '0' <= c && c <= '9' {
        Some(c as u8 - 48)
    } else if 'a' <= c && c <= 'f' {
        Some(c as u8 - 97 + 10)
    } else if 'A' <= c && c <= 'F' {
        Some(c as u8 - 65 + 10)
    } else {
        None
    }
}

impl Address {
    /// Reads an address from its text.
    pub fn from_hex(text: &str) -> (r: Result<Address, ServiceError>)
        ensures
            is_address_text(text@) ==> (r matches Ok(address) && address@ == address_bytes(text@)),
            !is_address_text(text@) ==> r == Err::<Address, ServiceError>(
                ServiceError::InvalidAddress,
            ),
    {
        let chars = chars_of(text);
        let start: usize = if chars.len() >= 2 && chars[0] == '0' && chars[1] == 'x' {
            2
        } else {
            0
        };
        let ghost body = strip_hex_prefix(text@);
        assert(body =~= chars@.skip(start as int));
        if chars.len() - start != 40 {
            return Err(ServiceError::InvalidAddress);
        }
        let mut bytes = [0u8; 20];
        let mut i: usize = 0;
        while i < 20
            invariant
                i <= 20,
                start <= 2,
                chars.len() == start + 40,
                body == chars@.skip(start as int),
                body == strip_hex_prefix(text@),
                forall|j: int| 0 <= j < 2 * i ==> is_hex_digit(body[j]),
                forall|j: int| 0 <= j < i ==> bytes@[j] == hex_bytes(body)[j],
            decreases 20 - i,
        {
            let high = hex_value(chars[start + 2 * i]);
            let low = hex_value(chars[start + 2 * i + 1]);
            match (high, low) {
                (Some(h), Some(l)) => {
                    bytes[i] = h * 16 + l;
                },
                _ => {
                    assert(!is_hex_digit(body[2 * i]) || !is_hex_digit(body[2 * i + 1]));
                    return Err(ServiceError::InvalidAddress);
                },
            }
            i += 1;
        }
        assert(bytes@ =~= hex_bytes(body));
        Ok(Address { bytes })
    }
}

/// One token: its contract and its number.
#[derive(Debug, Clone, Copy, PartialEq, Eq)]
pub struct TokenRef {
    pub contract_address: Address,
    pub token_id: TokenId,
}

impl View for TokenRef {
    type V = (Seq<u8>, nat);

    open spec fn view(&self) -> (Seq<u8>, nat) {
        (self.contract_address@, self.token_id@)
    }
}

/// What the two texts of a request name: the token, or the reason why
/// they name none. The address is looked at first.
pub open spec fn token_ref_of(address: Seq<char>, token_id: Seq<char>) -> Result<
    (Seq<u8>, nat),
    ServiceError,
> {
    if !is_address_text(address) {
        Err(ServiceError::InvalidAddress)
    } else if !is_u256_numeral(token_id) {
        Err(ServiceError::InvalidTokenId)
    } else {
        Ok((address_bytes(address), decimal_value(token_id)))
    }
}

impl TokenRef {
    /// Reads a token reference from the two texts that a request names it
    /// by.
    pub fn parse(address: &str, token_id: &str) -> (r: Result<TokenRef, ServiceError>)
        ensures
            match r {
                Ok(token) => token_ref_of(address@, token_id@) == Ok::<
                    (Seq<u8>, nat),
                    ServiceError,
                >(token@),
                Err(e) => token_ref_of(address@, token_id@) == Err::<(Seq<u8>, nat), ServiceError>(
                    e,
                ),
            },
    {
        let contract_address = match Address::from_hex(address) {
            Ok(a) => a,
            Err(e) => {
                return Err(e);
            },
        };
        let token_id = match TokenId::from_dec_str(token_id) {
            Ok(id) => id,
            Err(e) => {
                return Err(e);
            },
        };
        Ok(TokenRef { contract_address, token_id })
    }
}

/// Two token references that stand for the same address and number are
/// the same.
pub proof fn lemma_token_ref_view_injective(a: TokenRef, b: TokenRef)
    requires
        a@ == b@,
    ensures
        a == b,
{
    lemma_limbs_value_injective(a.token_id.limbs@, b.token_id.limbs@);
    assert(a.token_id.limbs =~= b.token_id.limbs);
    assert(a.contract_address.bytes =~= b.contract_address.bytes);
}

} // verus!
