//! Channel ids that the library makes up for callers who bring none.
//!
//! An id is made from sixteen bytes of entropy in the way of a random UUID:
//! the version and variant bits are set, and the bytes are written as
//! thirty-two lower-case hexadecimal digits.

use vstd::prelude::*;
use vstd::string::*;

verus! {

/// The number of bytes of entropy that an id is made from.
pub const ENTROPY_LENGTH: usize = 16;

/// The sixteen hexadecimal digits, in the order of their values.
pub open spec fn hex_digits() -> Seq<char> {
    "0123456789abcdef"@
}

/// The bytes in hexadecimal, two digits for each, the high one first.
pub open spec fn hex(bytes: Seq<u8>) -> Seq<char> {
    Seq::new(
        2 * bytes.len(),
        |i: int|
            if i % 2 == 0 {
                hex_digits()[bytes[i / 2] as int / 16]
            } else {
                hex_digits()[bytes[i / 2] as int % 16]
            },
    )
}

/// The entropy with the marks of a random UUID: the high half of the
/// seventh byte is 4, and the two high bits of the ninth are 1 and 0.
pub open spec fn stamped(entropy: Seq<u8>) -> Seq<u8> {
    entropy.update(6, (64 + entropy[6] as int % 16) as u8).update(
        8,
        (128 + entropy[8] as int % 64) as u8,
    )
}

/// The id that is made from sixteen bytes of entropy.
pub open spec fn fresh_id(entropy: Seq<u8>) -> Seq<char> {
    hex(stamped(entropy))
}

/// An id has thirty-two characters, so it is never the empty id, and its
/// thirteenth character is the version digit.
pub proof fn lemma_fresh_id(entropy: Seq<u8>)
    requires
        entropy.len() == ENTROPY_LENGTH,
    ensures
        fresh_id(entropy).len() == 32,
        fresh_id(entropy)[12] == '4',
{
    reveal_strlit("0123456789abcdef");
    let marked = stamped(entropy);
    assert(marked[6] as int / 16 == 4);
}

/// Appends the two hexadecimal digits of a byte.
fn push_hex(out: &mut String, byte: u8)
    ensures
        final(out)@ == old(out)@ + seq![
            hex_digits()[byte as int / 16],
            hex_digits()[byte as int % 16],
        ],
{
    let table = "0123456789abcdef";
    proof {
        reveal_strlit("0123456789abcdef");
    }
    let high: usize = (byte / 16) as usize;
    let low: usize = (byte % 16) as usize;
    out.append(table.substring_ascii(high, high + 1));
    out.append(table.substring_ascii(low, low + 1));
    assert(out@ =~= old(out)@ + seq![
        hex_digits()[byte as int / 16],
        hex_digits()[byte as int % 16],
    ]);
}

/// Makes an id from sixteen bytes of entropy. Returns `None` for any other
/// number of bytes.
pub fn make_channel_id(entropy: &Vec<u8>) -> (id: Option<String>)
    ensures
        match id {
            Some(text) => entropy@.len() == ENTROPY_LENGTH && text@ == fresh_id(entropy@),
            None => entropy@.len() != ENTROPY_LENGTH,
        },
{
    if entropy.len() != ENTROPY_LENGTH {
        return None;
    }
    let ghost marked = stamped(entropy@);
    let mut out = String::new();
    let mut i: usize = 0;
    while i < 16
        invariant
            i <= 16,
            entropy@.len() == 16,
            marked == stamped(entropy@),
            out@ == hex(marked.take(i as int)),
        decreases 16 - i,
    {
        let byte: u8 = if i == 6 {
            64 + entropy[i] % 16
        } else if i == 8 {
            128 + entropy[i] % 64
        } else {
            entropy[i]
        };
        assert(byte == marked[i as int]);
        push_hex(&mut out, byte);
        assert(out@ =~= hex(marked.take(i + 1))) by {
            let before = hex(marked.take(i as int));
            let after = hex(marked.take(i + 1));
            assert(after.len() == before.len() + 2);
            assert forall|k: int| 0 <= k < after.len() implies out@[k] == after[k] by {
                if k < before.len() {
                    assert(marked.take(i as int)[k / 2] == marked.take(i + 1)[k / 2]);
                } else {
                    assert(k / 2 == i);
                }
            }
        }
        i = i + 1;
    }
    assert(marked.take(16) =~= marked);
    Some(out)
}

} // verus!
