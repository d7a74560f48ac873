//! The identification code: eight bits, the low bit first, the last of them
//! making the number of ones even.

use crate::modes::{catalog, Spec, VIS_MAP};
use vstd::prelude::*;
use vstd::string::StringExecFns;

verus! {

/// Why a recording cannot be decoded.
#[derive(Debug, Clone, Copy, PartialEq, Eq, Structural)]
pub enum DecodeError {
    /// The calibration tones were found nowhere in the recording.
    HeaderNotFound,
    /// The samples end before the identification code does.
    CodeCutShort,
    /// The identification code has an odd number of ones.
    InvalidParity,
    /// The identification code stands for no mode of the catalog.
    UnsupportedMode(usize),
}

/// The character of a decimal digit.
pub open spec fn digit_char(digit: nat) -> char {
    if digit == 0 {
        '0'
    } else if digit == 1 {
        '1'
    } else if digit == 2 {
        '2'
    } else if digit == 3 {
        '3'
    } else if digit == 4 {
        '4'
    } else if digit == 5 {
        '5'
    } else if digit == 6 {
        '6'
    } else if digit == 7 {
        '7'
    } else if digit == 8 {
        '8'
    } else {
        '9'
    }
}

/// A number in decimal digits, without leading zeros.
pub open spec fn decimal(n: nat) -> Seq<char>
    decreases n,
{
    if n < 10 {
        seq![digit_char(n)]
    } else {
        decimal(n / 10).push(digit_char(n % 10))
    }
}

/// What a failure is reported as.
pub open spec fn message_of(reason: DecodeError) -> Seq<char> {
    match reason {
        DecodeError::HeaderNotFound => "Couldn't find SSTV header in the given audio file"@,
        DecodeError::CodeCutShort => "Reached end of audio whilst decoding the VIS header"@,
        DecodeError::InvalidParity => "Error decoding VIS header (invalid parity bit)"@,
        DecodeError::UnsupportedMode(code) => "SSTV mode is unsupported (VIS: "@ + decimal(
            code as nat,
        ) + ")"@,
    }
}

fn append_decimal(out: &mut String, n: usize)
    ensures
        final(out)@ == old(out)@ + decimal(n as nat),
    decreases n,
{
    if n >= 10 {
        append_decimal(out, n / 10);
    }
    let digit: usize = n % 10;
    proof {
        reveal_strlit("0");
        reveal_strlit("1");
        reveal_strlit("2");
        reveal_strlit("3");
        reveal_strlit("4");
        reveal_strlit("5");
        reveal_strlit("6");
        reveal_strlit("7");
        reveal_strlit("8");
        reveal_strlit("9");
    }
    let text: &str = if digit == 0 {
        "0"
    } else if digit == 1 {
        "1"
    } else if digit == 2 {
        "2"
    } else if digit == 3 {
        "3"
    } else if digit == 4 {
        "4"
    } else if digit == 5 {
        "5"
    } else if digit == 6 {
        "6"
    } else if digit == 7 {
        "7"
    } else if digit == 8 {
        "8"
    } else {
        "9"
    };
    assert(text@ =~= seq![digit_char(digit as nat)]);
    out.append(text);
    assert(out@ =~= old(out)@ + decimal(n as nat));
}

impl DecodeError {
    /// The failure in words; an unsupported code is given in decimal.
    pub fn message(&self) -> (text: String)
        ensures
            text@ == message_of(*self),
    {
        match self {
            DecodeError::HeaderNotFound => String::from_str(
                "Couldn't find SSTV header in the given audio file",
            ),
            DecodeError::CodeCutShort => String::from_str(
                "Reached end of audio whilst decoding the VIS header",
            ),
            DecodeError::InvalidParity => String::from_str(
                "Error decoding VIS header (invalid parity bit)",
            ),
            DecodeError::UnsupportedMode(code) => {
                let mut text = String::from_str("SSTV mode is unsupported (VIS: ");
                append_decimal(&mut text, *code);
                text.append(")");
                text
            },
        }
    }
}

/// What a bit counts: 1 if set, 0 if not.
pub open spec fn bit_value(bit: bool) -> nat {
    if bit {
        1
    } else {
        0
    }
}

/// Number of ones among the bits.
pub open spec fn ones(bits: Seq<bool>) -> nat
    decreases bits.len(),
{
    if bits.len() == 0 {
        0
    } else {
        ones(bits.drop_last()) + bit_value(bits.last())
    }
}

/// The number that the bits spell with the lowest bit first.
pub open spec fn lsb_first_value(bits: Seq<bool>) -> nat
    decreases bits.len(),
{
    if bits.len() == 0 {
        0
    } else {
        bit_value(bits.first()) + 2 * lsb_first_value(bits.drop_first())
    }
}

/// The number that the bits spell with the highest bit first.
pub open spec fn msb_first_value(bits: Seq<bool>) -> nat
    decreases bits.len(),
{
    if bits.len() == 0 {
        0
    } else {
        2 * msb_first_value(bits.drop_last()) + bit_value(bits.last())
    }
}

/// The order of assembly makes no difference: bits read with the highest
/// first, after they have been reversed, spell the number that they spell
/// with the lowest first as they came.
pub proof fn lemma_bit_order(bits: Seq<bool>)
    ensures
        msb_first_value(bits.reverse()) == lsb_first_value(bits),
    decreases bits.len(),
{
    if bits.len() > 0 {
        let turned = bits.reverse();
        assert(turned.last() == bits.first());
        assert(turned.drop_last() =~= bits.drop_first().reverse());
        lemma_bit_order(bits.drop_first());
    }
}

/// The code that eight received bits carry: the first seven, lowest first.
pub open spec fn vis_code(bits: Seq<bool>) -> nat {
    lsb_first_value(bits.subrange(0, 7))
}

/// What eight received bits lead to: the code of a mode of the catalog, or
/// the reason why not. Parity is looked at first.
pub open spec fn vis_outcome(bits: Seq<bool>) -> Result<nat, DecodeError> {
    if ones(bits) % 2 != 0 {
        Err(DecodeError::InvalidParity)
    } else if catalog(vis_code(bits) as int) is None {
        Err(DecodeError::UnsupportedMode(vis_code(bits) as usize))
    } else {
        Ok(vis_code(bits))
    }
}

/// Seven bits spell a number below 128.
pub proof fn lemma_lsb_first_bound(bits: Seq<bool>)
    ensures
        lsb_first_value(bits) < vstd::arithmetic::power2::pow2(bits.len()),
    decreases bits.len(),
{
    vstd::arithmetic::power2::lemma2_to64();
    if bits.len() > 0 {
        lemma_lsb_first_bound(bits.drop_first());
        vstd::arithmetic::power2::lemma_pow2_unfold(bits.len());
    }
}

/// Whether a code stands for a mode of the catalog.
pub fn in_catalog(code: usize) -> (known: bool)
    ensures
        known == catalog(code as int) is Some,
{
    code == 8 || code == 12 || code == 40 || code == 44 || code == 56 || code == 60 || code == 76
}

/// Reads the code from the eight bits as they were received: the parity of
/// all eight is checked, then the first seven are assembled, and the code is
/// looked up in the catalog.
pub fn read_vis(bits: &[bool]) -> (found: Result<usize, DecodeError>)
    requires
        bits@.len() == 8,
    ensures
        match found {
            Ok(code) => vis_outcome(bits@) == Ok::<nat, DecodeError>(code as nat),
            Err(reason) => vis_outcome(bits@) == Err::<nat, DecodeError>(reason),
        },
{
    let mut sum: usize = 0;
    let mut i: usize = 0;
    while i < 8
        invariant
            i <= 8,
            bits@.len() == 8,
            sum == ones(bits@.subrange(0, i as int)),
            sum <= i,
        decreases 8 - i,
    {
        proof {
            let upto = bits@.subrange(0, i + 1);
            assert(upto.drop_last() =~= bits@.subrange(0, i as int));
            assert(upto.last() == bits@[i as int]);
        }
        if bits[i] {
            sum = sum + 1;
        }
        i = i + 1;
    }
    assert(bits@.subrange(0, 8) =~= bits@);
    if sum % 2 != 0 {
        return Err(DecodeError::InvalidParity);
    }
    let mut value: usize = 0;
    let mut k: usize = 7;
    proof {
        vstd::arithmetic::power2::lemma2_to64();
        assert(bits@.subrange(7, 7).len() == 0);
    }
    while k > 0
        invariant
            k <= 7,
            bits@.len() == 8,
            value == lsb_first_value(bits@.subrange(k as int, 7)),
            value < vstd::arithmetic::power2::pow2((7 - k) as nat),
        decreases k,
    {
        proof {
            vstd::arithmetic::power2::lemma2_to64();
            let from = bits@.subrange(k - 1, 7);
            assert(from.drop_first() =~= bits@.subrange(k as int, 7));
            assert(from.first() == bits@[k - 1]);
            lemma_lsb_first_bound(from);
            vstd::arithmetic::power2::lemma_pow2_strictly_increases((7 - k) as nat, 7);
        }
        k = k - 1;
        value = value * 2 + if bits[k] {
            1
        } else {
            0
        };
    }
    if in_catalog(value) {
        Ok(value)
    } else {
        Err(DecodeError::UnsupportedMode(value))
    }
}

/// Reads the mode from the eight bits of the identification code.
pub fn decode_vis(bits: &[bool]) -> (found: Result<Spec, DecodeError>)
    requires
        bits@.len() == 8,
    ensures
        match found {
            Ok(mode) => vis_outcome(bits@) is Ok && catalog(vis_code(bits@) as int) == Some(mode@),
            Err(reason) => vis_outcome(bits@) == Err::<nat, DecodeError>(reason),
        },
{
    match read_vis(bits) {
        Ok(code) => match VIS_MAP(code) {
            Ok(mode) => Ok(mode),
            Err(_) => Err(DecodeError::UnsupportedMode(code)),
        },
        Err(reason) => Err(reason),
    }
}

} // verus!
