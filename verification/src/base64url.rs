//! The URL-safe base64 alphabet without mandatory padding.
//!
//! Key material leaves the library in this form and message bodies arrive in
//! it. Three bytes are written as four digits of six bits each; a final group
//! of one or two bytes is written as two or three digits whose unused low
//! bits are zero. Readers accept the text with or without the trailing `=`
//! signs that fill the last group up to four characters.

use vstd::prelude::*;
use vstd::string::*;

verus! {

/// The sixty-four digits, in the order of their values.
pub open spec fn alphabet() -> Seq<char> {
    "ABCDEFGHIJKLMNOPQRSTUVWXYZabcdefghijklmnopqrstuvwxyz0123456789-_"@
}

/// The value of a digit, or `None` for a character outside the alphabet.
#[verifier::opaque]
pub open spec fn digit_value(c: char) -> Option<int> {
    if 'A' <= c && c <= 'Z' {
        Some(c as int - 'A' as int)
    } else if 'a' <= c && c <= 'z' {
        Some(c as int - 'a' as int + 26)
    } else if '0' <= c && c <= '9' {
        Some(c as int - '0' as int + 52)
    } else if c == '-' {
        Some(62)
    } else if c == '_' {
        Some(63)
    } else {
        None
    }
}

/// Whether every character of `text` is a digit of the alphabet.
pub open spec fn all_digits(text: Seq<char>) -> bool {
    forall|i: int| 0 <= i < text.len() ==> digit_value(#[trigger] text[i]) is Some
}

/// The four digits that write three bytes.
pub open spec fn write_three(b0: u8, b1: u8, b2: u8) -> Seq<char> {
    let n: int = b0 as int * 65536 + b1 as int * 256 + b2 as int;
    seq![
        alphabet()[n / 262144],
        alphabet()[n / 4096 % 64],
        alphabet()[n / 64 % 64],
        alphabet()[n % 64],
    ]
}

/// The three digits that write a final group of two bytes.
pub open spec fn write_two(b0: u8, b1: u8) -> Seq<char> {
    let n: int = (b0 as int * 256 + b1 as int) * 4;
    seq![alphabet()[n / 4096], alphabet()[n / 64 % 64], alphabet()[n % 64]]
}

/// The two digits that write a final group of one byte.
pub open spec fn write_one(b0: u8) -> Seq<char> {
    let n: int = b0 as int * 16;
    seq![alphabet()[n / 64], alphabet()[n % 64]]
}

/// The digits that write `bytes`, without padding.
pub open spec fn encode_spec(bytes: Seq<u8>) -> Seq<char>
    decreases bytes.len(),
{
    if bytes.len() == 0 {
        Seq::empty()
    } else if bytes.len() == 1 {
        write_one(bytes[0])
    } else if bytes.len() == 2 {
        write_two(bytes[0], bytes[1])
    } else {
        write_three(bytes[0], bytes[1], bytes[2]) + encode_spec(bytes.skip(3))
    }
}

/// The three bytes that four digits write.
pub open spec fn read_four(c0: char, c1: char, c2: char, c3: char) -> Option<Seq<u8>> {
    match (digit_value(c0), digit_value(c1), digit_value(c2), digit_value(c3)) {
        (Some(a), Some(b), Some(c), Some(d)) => {
            let n: int = a * 262144 + b * 4096 + c * 64 + d;
            Some(seq![(n / 65536) as u8, (n / 256 % 256) as u8, (n % 256) as u8])
        },
        _ => None,
    }
}

/// The two bytes that a final group of three digits writes. The two low bits
/// of the last digit must be zero.
pub open spec fn read_three(c0: char, c1: char, c2: char) -> Option<Seq<u8>> {
    match (digit_value(c0), digit_value(c1), digit_value(c2)) {
        (Some(a), Some(b), Some(c)) => if c % 4 == 0 {
            let n: int = (a * 4096 + b * 64 + c) / 4;
            Some(seq![(n / 256) as u8, (n % 256) as u8])
        } else {
            None
        },
        _ => None,
    }
}

/// The byte that a final group of two digits writes. The four low bits of
/// the last digit must be zero.
pub open spec fn read_two(c0: char, c1: char) -> Option<Seq<u8>> {
    match (digit_value(c0), digit_value(c1)) {
        (Some(a), Some(b)) => if b % 16 == 0 {
            Some(seq![((a * 64 + b) / 16) as u8])
        } else {
            None
        },
        _ => None,
    }
}

/// `bytes` in front of what `rest` holds, where it holds anything.
pub open spec fn prepend(bytes: Seq<u8>, rest: Option<Seq<u8>>) -> Option<Seq<u8>> {
    match rest {
        Some(tail) => Some(bytes + tail),
        None => None,
    }
}

/// The bytes that the unpadded `digits` write. There are none where a
/// character is outside the alphabet, where a single digit is left over, or
/// where the unused low bits of the last digit are not zero.
pub open spec fn decode_digits(digits: Seq<char>) -> Option<Seq<u8>>
    decreases digits.len(),
{
    if digits.len() == 0 {
        Some(Seq::empty())
    } else if digits.len() == 1 {
        None
    } else if digits.len() == 2 {
        read_two(digits[0], digits[1])
    } else if digits.len() == 3 {
        read_three(digits[0], digits[1], digits[2])
    } else {
        match read_four(digits[0], digits[1], digits[2], digits[3]) {
            Some(group) => prepend(group, decode_digits(digits.skip(4))),
            None => None,
        }
    }
}

/// `text` without the one or two `=` signs that may end a text whose length
/// is a multiple of four.
pub open spec fn strip_padding(text: Seq<char>) -> Seq<char> {
    let n: int = text.len() as int;
    if n >= 4 && n % 4 == 0 && text[n - 1] == '=' {
        if text[n - 2] == '=' {
            text.take(n - 2)
        } else {
            text.take(n - 1)
        }
    } else {
        text
    }
}

/// The bytes that `text` writes, padded or not.
pub open spec fn decode_spec(text: Seq<char>) -> Option<Seq<u8>> {
    decode_digits(strip_padding(text))
}

/// The alphabet has sixty-four digits, a digit's value is its place in it,
/// and `=` is none of them.
pub proof fn lemma_alphabet()
    ensures
        alphabet().len() == 64,
        forall|v: int| 0 <= v < 64 ==> digit_value(#[trigger] alphabet()[v]) == Some(v),
        forall|c: char| #[trigger]
            digit_value(c) is Some ==> 0 <= digit_value(c)->0 < 64 && alphabet()[digit_value(
                c,
            )->0] == c && '\0' <= c <= '\u{7f}',
        digit_value('=') is None,
{
    reveal(digit_value);
    reveal_strlit("ABCDEFGHIJKLMNOPQRSTUVWXYZabcdefghijklmnopqrstuvwxyz0123456789-_");
}

/// Four digits written from three bytes read back as those bytes.
proof fn lemma_read_write_three(b0: u8, b1: u8, b2: u8)
    ensures
        write_three(b0, b1, b2).len() == 4,
        all_digits(write_three(b0, b1, b2)),
        ({
            let w = write_three(b0, b1, b2);
            read_four(w[0], w[1], w[2], w[3]) == Some(seq![b0, b1, b2])
        }),
{
    lemma_alphabet();
    let x: u32 = b0 as u32;
    let y: u32 = b1 as u32;
    let z: u32 = b2 as u32;
    assert({
        let n: u32 = (x * 65536 + y * 256 + z) as u32;
        let a: u32 = n / 262144;
        let b: u32 = n / 4096 % 64;
        let c: u32 = n / 64 % 64;
        let d: u32 = n % 64;
        &&& n < 16777216
        &&& a < 64
        &&& b < 64
        &&& c < 64
        &&& d < 64
        &&& a * 262144 + b * 4096 + c * 64 + d == n
        &&& n / 65536 == x
        &&& n / 256 % 256 == y
        &&& n % 256 == z
    }) by (bit_vector)
        requires
            x < 256,
            y < 256,
            z < 256,
    ;
}

/// Three digits written from two bytes read back as those bytes.
proof fn lemma_read_write_two(b0: u8, b1: u8)
    ensures
        write_two(b0, b1).len() == 3,
        all_digits(write_two(b0, b1)),
        ({
            let w = write_two(b0, b1);
            read_three(w[0], w[1], w[2]) == Some(seq![b0, b1])
        }),
{
    lemma_alphabet();
    let x: u32 = b0 as u32;
    let y: u32 = b1 as u32;
    assert({
        let n: u32 = ((x * 256 + y) * 4) as u32;
        let a: u32 = n / 4096;
        let b: u32 = n / 64 % 64;
        let c: u32 = n % 64;
        &&& n < 262144
        &&& a < 64
        &&& b < 64
        &&& c < 64
        &&& c % 4 == 0
        &&& a * 4096 + b * 64 + c == n
        &&& n / 4 / 256 == x
        &&& n / 4 % 256 == y
    }) by (bit_vector)
        requires
            x < 256,
            y < 256,
    ;
}

/// Two digits written from one byte read back as that byte.
proof fn lemma_read_write_one(b0: u8)
    ensures
        write_one(b0).len() == 2,
        all_digits(write_one(b0)),
        ({
            let w = write_one(b0);
            read_two(w[0], w[1]) == Some(seq![b0])
        }),
{
    lemma_alphabet();
    let x: u32 = b0 as u32;
    assert({
        let n: u32 = (x * 16) as u32;
        let a: u32 = n / 64;
        let b: u32 = n % 64;
        &&& n < 4096
        &&& a < 64
        &&& b < 64
        &&& b % 16 == 0
        &&& (a * 64 + b) / 16 == x
    }) by (bit_vector)
        requires
            x < 256,
    ;
}

/// Four digits that read as three bytes are the way to write them.
proof fn lemma_write_read_four(c0: char, c1: char, c2: char, c3: char)
    requires
        read_four(c0, c1, c2, c3) is Some,
    ensures
        ({
            let r = read_four(c0, c1, c2, c3)->0;
            r.len() == 3 && write_three(r[0], r[1], r[2]) == seq![c0, c1, c2, c3]
        }),
        ({
            let n: int = digit_value(c0)->0 * 262144 + digit_value(c1)->0 * 4096 + digit_value(
                c2,
            )->0 * 64 + digit_value(c3)->0;
            0 <= n < 16777216 && n / 65536 < 256
        }),
{
    lemma_alphabet();
    let x: u32 = digit_value(c0)->0 as u32;
    let y: u32 = digit_value(c1)->0 as u32;
    let z: u32 = digit_value(c2)->0 as u32;
    let w: u32 = digit_value(c3)->0 as u32;
    assert({
        let n: u32 = (x * 262144 + y * 4096 + z * 64 + w) as u32;
        let b0: u32 = n / 65536;
        let b1: u32 = n / 256 % 256;
        let b2: u32 = n % 256;
        &&& n < 16777216
        &&& b0 < 256
        &&& b1 < 256
        &&& b2 < 256
        &&& b0 * 65536 + b1 * 256 + b2 == n
        &&& n / 262144 == x
        &&& n / 4096 % 64 == y
        &&& n / 64 % 64 == z
        &&& n % 64 == w
    }) by (bit_vector)
        requires
            x < 64,
            y < 64,
            z < 64,
            w < 64,
    ;
    let r = read_four(c0, c1, c2, c3)->0;
    assert(write_three(r[0], r[1], r[2]) =~= seq![c0, c1, c2, c3]);
}

/// Three digits that read as two bytes are the way to write them.
proof fn lemma_write_read_three(c0: char, c1: char, c2: char)
    requires
        read_three(c0, c1, c2) is Some,
    ensures
        ({
            let r = read_three(c0, c1, c2)->0;
            r.len() == 2 && write_two(r[0], r[1]) == seq![c0, c1, c2]
        }),
        ({
            let n: int = (digit_value(c0)->0 * 4096 + digit_value(c1)->0 * 64 + digit_value(
                c2,
            )->0) / 4;
            0 <= n < 65536
        }),
{
    lemma_alphabet();
    let x: u32 = digit_value(c0)->0 as u32;
    let y: u32 = digit_value(c1)->0 as u32;
    let z: u32 = digit_value(c2)->0 as u32;
    assert({
        let m: u32 = ((x * 4096 + y * 64 + z) / 4) as u32;
        let b0: u32 = m / 256;
        let b1: u32 = m % 256;
        let n: u32 = ((b0 * 256 + b1) * 4) as u32;
        &&& m < 65536
        &&& b0 < 256
        &&& b1 < 256
        &&& n < 262144
        &&& n / 4096 == x
        &&& n / 64 % 64 == y
        &&& n % 64 == z
    }) by (bit_vector)
        requires
            x < 64,
            y < 64,
            z < 64,
            z % 4 == 0,
    ;
    let r = read_three(c0, c1, c2)->0;
    assert(write_two(r[0], r[1]) =~= seq![c0, c1, c2]);
}

/// Two digits that read as one byte are the way to write it.
proof fn lemma_write_read_two(c0: char, c1: char)
    requires
        read_two(c0, c1) is Some,
    ensures
        ({
            let r = read_two(c0, c1)->0;
            r.len() == 1 && write_one(r[0]) == seq![c0, c1]
        }),
        0 <= (digit_value(c0)->0 * 64 + digit_value(c1)->0) / 16 < 256,
{
    lemma_alphabet();
    let x: u32 = digit_value(c0)->0 as u32;
    let y: u32 = digit_value(c1)->0 as u32;
    assert({
        let b0: u32 = ((x * 64 + y) / 16) as u32;
        let n: u32 = (b0 * 16) as u32;
        &&& b0 < 256
        &&& n < 4096
        &&& n / 64 == x
        &&& n % 64 == y
    }) by (bit_vector)
        requires
            x < 64,
            y < 64,
            y % 16 == 0,
    ;
    let r = read_two(c0, c1)->0;
    assert(write_one(r[0]) =~= seq![c0, c1]);
}

/// An encoding consists of digits only, four for every three bytes and two
/// or three for what is left.
pub proof fn lemma_encode_shape(bytes: Seq<u8>)
    ensures
        all_digits(encode_spec(bytes)),
        encode_spec(bytes).len() == (4 * bytes.len() + 2) / 3,
    decreases bytes.len(),
{
    if bytes.len() == 1 {
        lemma_read_write_one(bytes[0]);
    } else if bytes.len() == 2 {
        lemma_read_write_two(bytes[0], bytes[1]);
    } else if bytes.len() >= 3 {
        lemma_read_write_three(bytes[0], bytes[1], bytes[2]);
        lemma_encode_shape(bytes.skip(3));
    }
}

/// Bytes that were written can be read back, from the bare digits and from
/// any text that holds them.
pub proof fn law_decode_encode(bytes: Seq<u8>)
    ensures
        decode_digits(encode_spec(bytes)) == Some(bytes),
        decode_spec(encode_spec(bytes)) == Some(bytes),
    decreases bytes.len(),
{
    let text = encode_spec(bytes);
    assert(strip_padding(text) == text) by {
        lemma_alphabet();
        lemma_encode_shape(bytes);
        if text.len() > 0 {
            assert(digit_value(text[text.len() - 1]) is Some);
        }
    }
    if bytes.len() == 0 {
    } else if bytes.len() == 1 {
        lemma_read_write_one(bytes[0]);
        assert(seq![bytes[0]] =~= bytes);
    } else if bytes.len() == 2 {
        lemma_read_write_two(bytes[0], bytes[1]);
        assert(seq![bytes[0], bytes[1]] =~= bytes);
    } else {
        lemma_read_write_three(bytes[0], bytes[1], bytes[2]);
        law_decode_encode(bytes.skip(3));
        assert(text.skip(4) =~= encode_spec(bytes.skip(3)));
        assert(seq![bytes[0], bytes[1], bytes[2]] + bytes.skip(3) =~= bytes);
    }
}

/// Digits that read as some bytes are the one way to write them, and none
/// of them is outside the alphabet.
pub proof fn lemma_encode_decode_digits(digits: Seq<char>)
    requires
        decode_digits(digits) is Some,
    ensures
        encode_spec(decode_digits(digits)->0) == digits,
        all_digits(digits),
    decreases digits.len(),
{
    lemma_alphabet();
    let bytes = decode_digits(digits)->0;
    if digits.len() == 0 {
        assert(encode_spec(bytes) =~= digits);
    } else if digits.len() == 2 {
        lemma_write_read_two(digits[0], digits[1]);
        assert(seq![digits[0], digits[1]] =~= digits);
    } else if digits.len() == 3 {
        lemma_write_read_three(digits[0], digits[1], digits[2]);
        assert(seq![digits[0], digits[1], digits[2]] =~= digits);
    } else if digits.len() >= 4 {
        lemma_write_read_four(digits[0], digits[1], digits[2], digits[3]);
        lemma_encode_decode_digits(digits.skip(4));
        let group = read_four(digits[0], digits[1], digits[2], digits[3])->0;
        let rest = decode_digits(digits.skip(4))->0;
        assert(bytes == group + rest);
        assert(bytes.skip(3) =~= rest);
        assert(seq![digits[0], digits[1], digits[2], digits[3]] + digits.skip(4) =~= digits);
        assert forall|i: int| 0 <= i < digits.len() implies digit_value(#[trigger] digits[i])
            is Some by {
            if i >= 4 {
                assert(digits[i] == digits.skip(4)[i - 4]);
            }
        }
    }
}

/// Text that reads as some bytes is, without its padding, the one way to
/// write them.
pub proof fn law_encode_decode(text: Seq<char>)
    requires
        decode_spec(text) is Some,
    ensures
        encode_spec(decode_spec(text)->0) == strip_padding(text),
{
    lemma_encode_decode_digits(strip_padding(text));
}

/// The digit of value `v`, appended to `out`.
fn push_digit(out: &mut String, v: usize)
    requires
        v < 64,
    ensures
        final(out)@ == old(out)@.push(alphabet()[v as int]),
{
    let table = "ABCDEFGHIJKLMNOPQRSTUVWXYZabcdefghijklmnopqrstuvwxyz0123456789-_";
    proof {
        reveal_strlit("ABCDEFGHIJKLMNOPQRSTUVWXYZabcdefghijklmnopqrstuvwxyz0123456789-_");
    }
    let digit = table.substring_ascii(v, v + 1);
    out.append(digit);
    assert(out@ =~= old(out)@.push(alphabet()[v as int]));
}

/// Appends the four digits that write three bytes.
fn push_three(out: &mut String, b0: u8, b1: u8, b2: u8)
    ensures
        final(out)@ == old(out)@ + write_three(b0, b1, b2),
{
    let n: usize = b0 as usize * 65536 + b1 as usize * 256 + b2 as usize;
    push_digit(out, n / 262144);
    push_digit(out, n / 4096 % 64);
    push_digit(out, n / 64 % 64);
    push_digit(out, n % 64);
    assert(out@ =~= old(out)@ + write_three(b0, b1, b2));
}

/// Appends the three digits that write a final group of two bytes.
fn push_two(out: &mut String, b0: u8, b1: u8)
    ensures
        final(out)@ == old(out)@ + write_two(b0, b1),
{
    let n: usize = (b0 as usize * 256 + b1 as usize) * 4;
    push_digit(out, n / 4096);
    push_digit(out, n / 64 % 64);
    push_digit(out, n % 64);
    assert(out@ =~= old(out)@ + write_two(b0, b1));
}

/// Appends the two digits that write a final group of one byte.
fn push_one(out: &mut String, b0: u8)
    ensures
        final(out)@ == old(out)@ + write_one(b0),
{
    let n: usize = b0 as usize * 16;
    push_digit(out, n / 64);
    push_digit(out, n % 64);
    assert(out@ =~= old(out)@ + write_one(b0));
}

/// Writes `bytes` as unpadded text.
pub fn encode(bytes: &Vec<u8>) -> (text: String)
    ensures
        text@ == encode_spec(bytes@),
{
    let mut out = String::new();
    let len: usize = bytes.len();
    let mut i: usize = 0;
    assert(out@ + encode_spec(bytes@.skip(0)) =~= encode_spec(bytes@)) by {
        assert(bytes@.skip(0) =~= bytes@);
    }
    while len - i >= 3
        invariant
            len == bytes.len(),
            i <= len,
            out@ + encode_spec(bytes@.skip(i as int)) == encode_spec(bytes@),
        decreases len - i,
    {
        let ghost before = out@;
        let ghost rest = bytes@.skip(i as int);
        push_three(&mut out, bytes[i], bytes[i + 1], bytes[i + 2]);
        proof {
            assert(rest.skip(3) =~= bytes@.skip(i + 3));
            assert(out@ + encode_spec(bytes@.skip(i + 3)) =~= before + encode_spec(rest));
        }
        i = i + 3;
    }
    let ghost before = out@;
    if len - i == 1 {
        push_one(&mut out, bytes[i]);
    } else if len - i == 2 {
        push_two(&mut out, bytes[i], bytes[i + 1]);
    } else {
        assert(out@ =~= before + Seq::<char>::empty());
    }
    out
}

/// The value of the digit whose character code is `code`.
fn digit_of_code(code: u8) -> (value: Option<usize>)
    ensures
        match value {
            Some(v) => digit_value(code as char) == Some(v as int) && v < 64,
            None => digit_value(code as char) is None,
        },
{
    reveal(digit_value);
    if code >= 65 && code <= 90 {
        Some((code - 65) as usize)
    } else if code >= 97 && code <= 122 {
        Some((code - 97 + 26) as usize)
    } else if code >= 48 && code <= 57 {
        Some((code - 48 + 52) as usize)
    } else if code == 45 {
        Some(62)
    } else if code == 95 {
        Some(63)
    } else {
        None
    }
}

/// Reads four digits, given by their character codes, and appends the three
/// bytes they write. Returns whether the four are digits.
fn take_four(out: &mut Vec<u8>, c0: u8, c1: u8, c2: u8, c3: u8) -> (ok: bool)
    ensures
        ok == read_four(c0 as char, c1 as char, c2 as char, c3 as char) is Some,
        ok ==> final(out)@ == old(out)@ + read_four(
            c0 as char,
            c1 as char,
            c2 as char,
            c3 as char,
        )->0,
        !ok ==> final(out)@ == old(out)@,
{
    let a = match digit_of_code(c0) {
        Some(v) => v,
        None => {
            return false;
        },
    };
    let b = match digit_of_code(c1) {
        Some(v) => v,
        None => {
            return false;
        },
    };
    let c = match digit_of_code(c2) {
        Some(v) => v,
        None => {
            return false;
        },
    };
    let d = match digit_of_code(c3) {
        Some(v) => v,
        None => {
            return false;
        },
    };
    let n: usize = a * 262144 + b * 4096 + c * 64 + d;
    proof {
        lemma_write_read_four(c0 as char, c1 as char, c2 as char, c3 as char);
    }
    out.push((n / 65536) as u8);
    out.push((n / 256 % 256) as u8);
    out.push((n % 256) as u8);
    assert(out@ =~= old(out)@ + read_four(c0 as char, c1 as char, c2 as char, c3 as char)->0);
    true
}

/// Reads a final group of three digits and appends the two bytes they write.
fn take_three(out: &mut Vec<u8>, c0: u8, c1: u8, c2: u8) -> (ok: bool)
    ensures
        ok == read_three(c0 as char, c1 as char, c2 as char) is Some,
        ok ==> final(out)@ == old(out)@ + read_three(c0 as char, c1 as char, c2 as char)->0,
        !ok ==> final(out)@ == old(out)@,
{
    let a = match digit_of_code(c0) {
        Some(v) => v,
        None => {
            return false;
        },
    };
    let b = match digit_of_code(c1) {
        Some(v) => v,
        None => {
            return false;
        },
    };
    let c = match digit_of_code(c2) {
        Some(v) => v,
        None => {
            return false;
        },
    };
    if c % 4 != 0 {
        return false;
    }
    let n: usize = (a * 4096 + b * 64 + c) / 4;
    proof {
        lemma_write_read_three(c0 as char, c1 as char, c2 as char);
    }
    out.push((n / 256) as u8);
    out.push((n % 256) as u8);
    assert(out@ =~= old(out)@ + read_three(c0 as char, c1 as char, c2 as char)->0);
    true
}

/// Reads a final group of two digits and appends the byte they write.
fn take_two(out: &mut Vec<u8>, c0: u8, c1: u8) -> (ok: bool)
    ensures
        ok == read_two(c0 as char, c1 as char) is Some,
        ok ==> final(out)@ == old(out)@ + read_two(c0 as char, c1 as char)->0,
        !ok ==> final(out)@ == old(out)@,
{
    let a = match digit_of_code(c0) {
        Some(v) => v,
        None => {
            return false;
        },
    };
    let b = match digit_of_code(c1) {
        Some(v) => v,
        None => {
            return false;
        },
    };
    if b % 16 != 0 {
        return false;
    }
    proof {
        lemma_write_read_two(c0 as char, c1 as char);
    }
    out.push(((a * 64 + b) / 16) as u8);
    assert(out@ =~= old(out)@ + read_two(c0 as char, c1 as char)->0);
    true
}

/// Text with a character beyond ASCII writes no bytes.
proof fn lemma_decodable_is_ascii(text: Seq<char>)
    requires
        decode_spec(text) is Some,
    ensures
        forall|i: int| 0 <= i < text.len() ==> '\0' <= #[trigger] text[i] <= '\u{7f}',
{
    lemma_alphabet();
    let digits = strip_padding(text);
    lemma_encode_decode_digits(digits);
    assert forall|i: int| 0 <= i < text.len() implies '\0' <= #[trigger] text[i]
        <= '\u{7f}' by {
        if i < digits.len() {
            assert(digit_value(digits[i]) is Some);
            assert(digits[i] == text[i]);
        }
    }
}

/// The digits of an ASCII text, given by its character codes, up to `end`.
fn take_digits(codes: &[u8], end: usize, Ghost(digits): Ghost<Seq<char>>) -> (bytes: Option<
    Vec<u8>,
>)
    requires
        end <= codes@.len(),
        digits.len() == end,
        forall|k: int| 0 <= k < end ==> #[trigger] digits[k] == codes@[k] as char,
    ensures
        match bytes {
            Some(b) => decode_digits(digits) == Some(b@),
            None => decode_digits(digits) is None,
        },
{
    let mut out: Vec<u8> = Vec::new();
    let mut i: usize = 0;
    assert(decode_digits(digits) == prepend(out@, decode_digits(digits.skip(0)))) by {
        assert(digits.skip(0) =~= digits);
        if let Some(all) = decode_digits(digits) {
            assert(out@ + all =~= all);
        }
    }
    while end - i >= 4
        invariant
            i <= end <= codes@.len(),
            digits.len() == end,
            forall|k: int| 0 <= k < end ==> #[trigger] digits[k] == codes@[k] as char,
            decode_digits(digits) == prepend(out@, decode_digits(digits.skip(i as int))),
        decreases end - i,
    {
        let ghost rest = digits.skip(i as int);
        let ghost before = out@;
        assert(rest[0] == digits[i as int] && rest[1] == digits[i + 1] && rest[2] == digits[i
            + 2] && rest[3] == digits[i + 3]);
        if !take_four(&mut out, codes[i], codes[i + 1], codes[i + 2], codes[i + 3]) {
            return None;
        }
        proof {
            assert(rest.skip(4) =~= digits.skip(i + 4));
            let group = read_four(rest[0], rest[1], rest[2], rest[3])->0;
            if let Some(tail) = decode_digits(digits.skip(i + 4)) {
                assert(before + (group + tail) =~= out@ + tail);
            }
        }
        i = i + 4;
    }
    let ghost rest = digits.skip(i as int);
    let ghost before = out@;
    if end - i == 0 {
        assert(before + Seq::<u8>::empty() =~= before);
        Some(out)
    } else if end - i == 1 {
        None
    } else if end - i == 2 {
        assert(rest[0] == digits[i as int] && rest[1] == digits[i + 1]);
        if take_two(&mut out, codes[i], codes[i + 1]) {
            Some(out)
        } else {
            None
        }
    } else {
        assert(rest[0] == digits[i as int] && rest[1] == digits[i + 1] && rest[2] == digits[i
            + 2]);
        if take_three(&mut out, codes[i], codes[i + 1], codes[i + 2]) {
            Some(out)
        } else {
            None
        }
    }
}

/// Reads `text`, with or without its padding. Returns `None` where `text`
/// is not a way to write any bytes.
pub fn decode(text: &str) -> (bytes: Option<Vec<u8>>)
    ensures
        match bytes {
            Some(b) => decode_spec(text@) == Some(b@),
            None => decode_spec(text@) is None,
        },
{
    if !text.is_ascii() {
        proof {
            if decode_spec(text@) is Some {
                lemma_decodable_is_ascii(text@);
            }
        }
        return None;
    }
    let codes = text.as_bytes();
    proof {
        is_ascii_spec_bytes(text);
    }
    let len: usize = codes.len();
    let mut end: usize = len;
    if len >= 4 && len % 4 == 0 && codes[len - 1] == 61 {
        if codes[len - 2] == 61 {
            end = len - 2;
        } else {
            end = len - 1;
        }
    }
    let ghost digits = strip_padding(text@);
    assert(digits =~= text@.take(end as int));
    assert(forall|k: int| 0 <= k < end ==> #[trigger] digits[k] == codes@[k] as char);
    take_digits(codes, end, Ghost(digits))
}

} // verus!
