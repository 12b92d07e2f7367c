//! The text forms: the canonical one, six two-digit lowercase hexadecimal
//! octets with colons between them, as in `00:80:41:13:37:ff`, and the
//! bracketed one for diagnostics.

use vstd::prelude::*;
use vstd::string::*;
use crate::address::MacAddress;

verus! {

/// The sixteen hexadecimal digits, lowercase, in order of value.
pub open spec fn hex_digits() -> Seq<char> {
    seq!['0', '1', '2', '3', '4', '5', '6', '7', '8', '9', 'a', 'b', 'c', 'd', 'e', 'f']
}

/// The character at position `i` of the text form of `octets`: every third
/// character is a colon, and the two before it are the high and the low
/// hexadecimal digit of one octet.
pub open spec fn text_char(octets: Seq<u8>, i: int) -> char {
    if i % 3 == 2 {
        ':'
    } else if i % 3 == 0 {
        hex_digits()[octets[i / 3] as int / 16]
    } else {
        hex_digits()[octets[i / 3] as int % 16]
    }
}

/// The first `n` characters of the text form of `octets`.
pub open spec fn text_prefix(octets: Seq<u8>, n: nat) -> Seq<char> {
    Seq::new(n, |i: int| text_char(octets, i))
}

/// The text form of six octets: seventeen characters.
pub open spec fn text_form(octets: Seq<u8>) -> Seq<char> {
    text_prefix(octets, 17)
}

/// The opening of the bracketed form: the type's name and a left bracket.
pub open spec fn debug_opening() -> Seq<char> {
    seq!['M', 'a', 'c', 'A', 'd', 'd', 'r', 'e', 's', 's', '(']
}

/// The bracketed form of six octets: the opening, the text form, and a
/// right bracket, as in `MacAddress(00:80:41:13:37:ff)`.
pub open spec fn debug_form(octets: Seq<u8>) -> Seq<char> {
    debug_opening() + text_form(octets) + seq![')']
}

/// The one-character string for the hexadecimal digit of value `n`.
fn hex_digit(n: u8) -> (digit: &'static str)
    requires
        n < 16,
    ensures
        digit@ == seq![hex_digits()[n as int]],
{
    let digits = "0123456789abcdef";
    proof {
        reveal_strlit("0123456789abcdef");
        assert(digits@ =~= hex_digits());
    }
    let from: usize = n as usize;
    let digit = digits.substring_ascii(from, from + 1);
    assert(digit@ =~= seq![hex_digits()[n as int]]);
    digit
}

impl MacAddress {
    /// The address in its canonical text form.
    pub fn to_string(&self) -> (text: String)
        ensures
            text@ == text_form(self@),
    {
        proof {
            self.lemma_len();
        }
        let mut text = String::new();
        let mut i: usize = 0;
        while i < 6
            invariant
                i <= 6,
                self@.len() == 6,
                text@ == text_prefix(self@, if i == 0 { 0nat } else { (3 * i - 1) as nat }),
            decreases 6 - i,
        {
            if i > 0 {
                text.append(":");
                proof {
                    reveal_strlit(":");
                }
            }
            assert(text@ =~= text_prefix(self@, (3 * i) as nat));
            let b = self.octet(i);
            text.append(hex_digit(b / 16));
            assert(text@ =~= text_prefix(self@, (3 * i + 1) as nat));
            text.append(hex_digit(b % 16));
            assert(text@ =~= text_prefix(self@, (3 * i + 2) as nat));
            i += 1;
        }
        text
    }

    /// The address in its bracketed form, for diagnostics.
    pub fn to_debug_string(&self) -> (text: String)
        ensures
            text@ == debug_form(self@),
    {
        let mut text = String::from_str("MacAddress(");
        proof {
            reveal_strlit("MacAddress(");
            assert(text@ =~= debug_opening());
        }
        let inner = self.to_string();
        text.append(inner.as_str());
        text.append(")");
        proof {
            reveal_strlit(")");
        }
        text
    }
}

} // verus!
