//! Words: numbers and byte strings as text, and texts put together.

use vstd::prelude::*;
use vstd::string::*;

verus! {

/// The decimal digit of a number below ten.
pub open spec fn digit(d: nat) -> char
    recommends
        d < 10,
{
    if d == 0 {
        '0'
    } else if d == 1 {
        '1'
    } else if d == 2 {
        '2'
    } else if d == 3 {
        '3'
    } else if d == 4 {
        '4'
    } else if d == 5 {
        '5'
    } else if d == 6 {
        '6'
    } else if d == 7 {
        '7'
    } else if d == 8 {
        '8'
    } else {
        '9'
    }
}

/// A number in decimal digits, without leading zeros.
pub open spec fn decimal(n: nat) -> Seq<char>
    decreases n,
{
    if n < 10 {
        seq![digit(n)]
    } else {
        decimal(n / 10).push(digit(n % 10))
    }
}

/// The digit of a number below ten, as a text of one letter.
fn digit_text(d: u64) -> (r: &'static str)
    requires
        d < 10,
    ensures
        r@ == seq![digit(d as nat)],
{
    proof {
        reveal_strlit("0");
        reveal_strlit("1");
        reveal_strlit("2");
        reveal_strlit("3");
        reveal_strlit("4");
        reveal_strlit("5");
        reveal_strlit("6");
        reveal_strlit("7");
        reveal_strlit("8");
        reveal_strlit("9");
    }
    let r = if d == 0 {
        "0"
    } else if d == 1 {
        "1"
    } else if d == 2 {
        "2"
    } else if d == 3 {
        "3"
    } else if d == 4 {
        "4"
    } else if d == 5 {
        "5"
    } else if d == 6 {
        "6"
    } else if d == 7 {
        "7"
    } else if d == 8 {
        "8"
    } else {
        "9"
    };
    assert(r@ =~= seq![digit(d as nat)]);
    r
}

/// Writes a number in decimal digits.
pub fn decimal_text(n: u64) -> (r: String)
    ensures
        r@ == decimal(n as nat),
    decreases n,
{
    if n < 10 {
        String::from_str(digit_text(n))
    } else {
        let mut s = decimal_text(n / 10);
        s.append(digit_text(n % 10));
        assert(s@ =~= decimal(n as nat));
        s
    }
}

/// A round that may be missing, in words: `None`, or `Some(3)`.
pub open spec fn option_words(o: Option<u64>) -> Seq<char> {
    match o {
        None => "None"@,
        Some(n) => "Some("@ + decimal(n as nat) + ")"@,
    }
}

/// Writes a round that may be missing.
pub fn option_text(o: Option<u64>) -> (r: String)
    ensures
        r@ == option_words(o),
{
    match o {
        None => String::from_str("None"),
        Some(n) => join3("Some(", decimal_text(n).as_str(), ")"),
    }
}

/// Puts two texts together.
pub fn join2(a: &str, b: &str) -> (r: String)
    ensures
        r@ == a@ + b@,
{
    let mut s = String::from_str(a);
    s.append(b);
    s
}

/// Puts three texts together.
pub fn join3(a: &str, b: &str, c: &str) -> (r: String)
    ensures
        r@ == a@ + b@ + c@,
{
    let mut s = join2(a, b);
    s.append(c);
    s
}

/// Puts four texts together.
pub fn join4(a: &str, b: &str, c: &str, d: &str) -> (r: String)
    ensures
        r@ == a@ + b@ + c@ + d@,
{
    let mut s = join3(a, b, c);
    s.append(d);
    s
}

/// The hexadecimal digit of a number below sixteen, in lower case.
pub open spec fn hex_digit(d: nat) -> char
    recommends
        d < 16,
{
    if d < 10 {
        digit(d)
    } else if d == 10 {
        'a'
    } else if d == 11 {
        'b'
    } else if d == 12 {
        'c'
    } else if d == 13 {
        'd'
    } else if d == 14 {
        'e'
    } else {
        'f'
    }
}

/// A byte string in hexadecimal digits: two for each byte, the high half first, in lower case.
pub open spec fn hex_words(bytes: Seq<u8>) -> Seq<char>
    decreases bytes.len(),
{
    if bytes.len() == 0 {
        Seq::empty()
    } else {
        hex_words(bytes.drop_last()).push(hex_digit(bytes.last() as nat / 16)).push(
            hex_digit(bytes.last() as nat % 16),
        )
    }
}

/// `hummer::coding::hex_encode`: writes each byte as two hexadecimal digits in lower case, the
/// high half first.
#[verifier::external_body]
pub(crate) fn hex_text(bytes: &Vec<u8>) -> (r: String)
    ensures
        r@ == hex_words(bytes@),
{
    hummer::coding::hex_encode(bytes)
}

/// A byte string in hexadecimal digits, set in quotes.
pub open spec fn quoted_hex_words(bytes: Seq<u8>) -> Seq<char> {
    "\""@ + hex_words(bytes) + "\""@
}

/// Writes a byte string in hexadecimal digits, set in quotes.
pub fn quoted_hex_text(bytes: &Vec<u8>) -> (r: String)
    ensures
        r@ == quoted_hex_words(bytes@),
{
    join3("\"", hex_text(bytes).as_str(), "\"")
}

/// One byte as a reader who debugs sees it: a letter or sign of ASCII as it is, the quote and
/// the backslash behind a backslash, the line feed, the carriage return, the tabulator and the
/// zero byte by their usual escapes, and every other byte as `\x` and two hexadecimal digits.
pub open spec fn byte_words(b: u8) -> Seq<char> {
    if b == 0x0a {
        "\\n"@
    } else if b == 0x0d {
        "\\r"@
    } else if b == 0x09 {
        "\\t"@
    } else if b == 0x5c {
        "\\\\"@
    } else if b == 0x22 {
        "\\\""@
    } else if b == 0 {
        "\\0"@
    } else if 0x20 <= b < 0x7f {
        seq![b as char]
    } else {
        "\\x"@.push(hex_digit(b as nat / 16)).push(hex_digit(b as nat % 16))
    }
}

/// The bytes of a byte string as a reader who debugs sees them, one after the other.
pub open spec fn escaped_words(bytes: Seq<u8>) -> Seq<char>
    decreases bytes.len(),
{
    if bytes.len() == 0 {
        Seq::empty()
    } else {
        escaped_words(bytes.drop_last()) + byte_words(bytes.last())
    }
}

/// A byte string as a reader who debugs sees it: the letter `b`, and the bytes in quotes.
pub open spec fn debug_words(bytes: Seq<u8>) -> Seq<char> {
    "b\""@ + escaped_words(bytes) + "\""@
}

/// `Debug` of `bytes::Bytes`, through `format!`: writes the letter `b` and, in quotes, each byte
/// as a letter of ASCII where it is one and by an escape where it is not.
#[verifier::external_body]
pub(crate) fn debug_text(bytes: &Vec<u8>) -> (r: String)
    ensures
        r@ == debug_words(bytes@),
{
    format!("{:?}", bytes::Bytes::copy_from_slice(bytes))
}

} // verus!
