//! Large-integer literals: a vault id is written in decimal or, behind `0x`,
//! in hexadecimal, and denotes a number below 2^256.

use alloy_primitives::U256;
use std::str::FromStr;
use vstd::prelude::*;

verus! {

/// 2^64, the weight of the second limb.
pub open spec fn limb_base() -> nat {
    0x1_0000_0000_0000_0000
}

/// 2^256, above every vault id.
pub open spec fn u256_limit() -> nat {
    limb_base() * limb_base() * limb_base() * limb_base()
}

/// The number that four limbs denote, the least significant limb first.
pub open spec fn limbs_value(limbs: Seq<u64>) -> nat {
    (limbs[0] + limb_base() * (limbs[1] + limb_base() * (limbs[2] + limb_base() * limbs[3]))) as nat
}

pub open spec fn is_dec_digit(c: char) -> bool {
    '0' <= c <= '9'
}

pub open spec fn is_hex_digit(c: char) -> bool {
    ||| '0' <= c <= '9'
    ||| 'a' <= c <= 'f'
    ||| 'A' <= c <= 'F'
}

/// What a digit counts for: `a` and `A` count ten.
pub open spec fn digit_value(c: char) -> nat {
    if '0' <= c <= '9' {
        (c as u32 - '0' as u32) as nat
    } else if 'a' <= c <= 'f' {
        (c as u32 - 'a' as u32 + 10) as nat
    } else {
        (c as u32 - 'A' as u32 + 10) as nat
    }
}

/// One or more decimal digits.
pub open spec fn is_decimal_literal(s: Seq<char>) -> bool {
    &&& s.len() > 0
    &&& forall|i: int| 0 <= i < s.len() ==> is_dec_digit(#[trigger] s[i])
}

/// `0x` or `0X`, then one or more hexadecimal digits.
pub open spec fn is_hex_literal(s: Seq<char>) -> bool {
    &&& s.len() > 2
    &&& s[0] == '0'
    &&& (s[1] == 'x' || s[1] == 'X')
    &&& forall|i: int| 2 <= i < s.len() ==> is_hex_digit(#[trigger] s[i])
}

/// A literal in one of the two accepted forms.
pub open spec fn is_numeric_literal(s: Seq<char>) -> bool {
    is_decimal_literal(s) || is_hex_literal(s)
}

/// The number that a run of digits denotes in the given radix, the most
/// significant digit first.
pub open spec fn digits_value(digits: Seq<char>, radix: nat) -> nat
    decreases digits.len(),
{
    if digits.len() == 0 {
        0
    } else {
        digits_value(digits.drop_last(), radix) * radix + digit_value(digits.last())
    }
}

/// The number that a literal denotes.
pub open spec fn literal_value(s: Seq<char>) -> nat {
    if is_hex_literal(s) {
        digits_value(s.skip(2), 16)
    } else {
        digits_value(s, 10)
    }
}

/// A literal that denotes a vault id: in one of the two accepted forms, and
/// below 2^256.
pub open spec fn is_vault_id_literal(s: Seq<char>) -> bool {
    is_numeric_literal(s) && literal_value(s) < u256_limit()
}

/// A vault id: an unsigned 256-bit number, held as four 64-bit limbs with the
/// least significant first.
#[derive(Clone, Copy, Debug, PartialEq, Eq)]
pub struct VaultId {
    pub limbs: [u64; 4],
}

impl View for VaultId {
    type V = nat;

    open spec fn view(&self) -> nat {
        limbs_value(self.limbs@)
    }
}

const DIGIT_0: u8 = 48;

const DIGIT_9: u8 = 57;

const UPPER_A: u8 = 65;

const UPPER_F: u8 = 70;

const UPPER_X: u8 = 88;

const LOWER_A: u8 = 97;

const LOWER_F: u8 = 102;

const LOWER_X: u8 = 120;

/// Says whether the text is a decimal or a `0x` hexadecimal literal.
pub fn is_literal(s: &str) -> (b: bool)
    ensures
        b == is_numeric_literal(s@),
{
    if !s.is_ascii() {
        proof {
            let i = choose|i: int| 0 <= i < s@.len() && !('\0' <= #[trigger] s@[i] <= '\u{7f}');
            assert(!is_dec_digit(s@[i]) && !is_hex_digit(s@[i]));
        }
        return false;
    }
    let bytes = s.as_bytes();
    proof {
        vstd::string::is_ascii_spec_bytes(s);
    }
    assert(bytes@.len() == s@.len());
    assert(forall|i: int| 0 <= i < s@.len() ==> bytes@[i] == #[trigger] s@[i] as u8);
    let n = bytes.len();
    if n == 0 {
        return false;
    }
    let hex = n > 2 && bytes[0] == DIGIT_0 && (bytes[1] == LOWER_X || bytes[1] == UPPER_X);
    let ghost prefixed = s@.len() > 2 && s@[0] == '0' && (s@[1] == 'x' || s@[1] == 'X');
    assert(hex == prefixed) by {
        if n > 2 {
            assert(bytes@[0] == s@[0] as u8 && bytes@[1] == s@[1] as u8);
            assert('\0' <= s@[0] <= '\u{7f}' && '\0' <= s@[1] <= '\u{7f}');
        }
    }
    let mut i: usize = if hex {
        2
    } else {
        0
    };
    while i < n
        invariant
            i <= n,
            0 < n,
            hex == prefixed,
            prefixed == (s@.len() > 2 && s@[0] == '0' && (s@[1] == 'x' || s@[1] == 'X')),
            n == bytes@.len(),
            n == s@.len(),
            vstd::utf8::is_ascii_chars(s@),
            forall|j: int| 0 <= j < s@.len() ==> bytes@[j] == #[trigger] s@[j] as u8,
            hex ==> 2 <= i && forall|j: int| 2 <= j < i ==> is_hex_digit(#[trigger] s@[j]),
            !hex ==> forall|j: int| 0 <= j < i ==> is_dec_digit(#[trigger] s@[j]),
        decreases n - i,
    {
        let b = bytes[i];
        let dec = DIGIT_0 <= b && b <= DIGIT_9;
        let ok = if hex {
            dec || (LOWER_A <= b && b <= LOWER_F) || (UPPER_A <= b && b <= UPPER_F)
        } else {
            dec
        };
        assert('\0' <= s@[i as int] <= '\u{7f}');
        assert(dec == is_dec_digit(s@[i as int]));
        assert(hex ==> ok == is_hex_digit(s@[i as int]));
        if !ok {
            proof {
                if hex {
                    assert(!is_dec_digit(s@[1]));
                }
            }
            return false;
        }
        i += 1;
    }
    true
}

/// Parses a literal with `U256::from_str` and hands its limbs out, the least
/// significant first.
///
/// Claimed of the outside function, on a decimal or a `0x` hexadecimal literal
/// only: it succeeds exactly when the number denoted is below 2^256, and the
/// limbs it returns then denote that number.
#[verifier::external_body]
fn u256_from_literal(s: &str) -> (r: Option<[u64; 4]>)
    requires
        is_numeric_literal(s@),
    ensures
        r is Some <==> literal_value(s@) < u256_limit(),
        r matches Some(limbs) ==> limbs_value(limbs@) == literal_value(s@),
{
    match U256::from_str(s) {
        Ok(v) => Some(v.into_limbs()),
        Err(_) => None,
    }
}

/// Reads a vault id from its literal.
pub fn parse_vault_id(s: &str) -> (r: Option<VaultId>)
    ensures
        r is Some <==> is_vault_id_literal(s@),
        r matches Some(id) ==> id@ == literal_value(s@),
{
    if !is_literal(s) {
        return None;
    }
    match u256_from_literal(s) {
        Some(limbs) => Some(VaultId { limbs }),
        None => None,
    }
}

} // verus!
