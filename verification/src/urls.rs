//! Percent-encoding, by `urlencoding`.

use vstd::prelude::*;
use vstd::utf8::*;

use crate::text::Text;

verus! {

pub open spec fn is_unreserved(b: u8) -> bool {
    ||| 0x30 <= b <= 0x39
    ||| 0x41 <= b <= 0x5a
    ||| 0x61 <= b <= 0x7a
    ||| b == 0x2d
    ||| b == 0x2e
    ||| b == 0x5f
    ||| b == 0x7e
}

/// The hexadecimal digit of a number below 16, in capitals.
pub open spec fn capital_digit(n: int) -> char {
    if n < 10 {
        (0x30 + n) as char
    } else {
        (0x41 + n - 10) as char
    }
}

/// Letters, digits and `-`, `.`, `_`, `~` stand for themselves; another byte is a
/// percent sign and two hexadecimal digits.
pub open spec fn percent_byte(b: u8) -> Text {
    if is_unreserved(b) {
        seq![b as char]
    } else {
        seq!['%', capital_digit(b as int / 16), capital_digit(b as int % 16)]
    }
}

pub open spec fn percent_bytes(bytes: Seq<u8>) -> Text
    decreases bytes.len(),
{
    if bytes.len() == 0 {
        Seq::empty()
    } else {
        percent_bytes(bytes.drop_last()) + percent_byte(bytes.last())
    }
}

/// `s` in percent-encoding.
pub open spec fn percent_encoded(s: Text) -> Text {
    percent_bytes(encode_utf8(s))
}

/// Calls `urlencoding::encode`, which percent-encodes every byte but the unreserved
/// ones.
#[verifier::external_body]
pub(crate) fn percent_encode(s: &str) -> (r: String)
    ensures
        r@ == percent_encoded(s@),
{
    urlencoding::encode(s).into_owned()
}

} // verus!
