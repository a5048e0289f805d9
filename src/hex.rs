//! Hexadecimal rendering of signature bytes: two digits per byte, most
//! significant nibble first, no separators.

use vstd::prelude::*;
use vstd::string::StringExecFns;
use vstd::string::StrSliceExecFns;

verus! {

/// The sixteen hexadecimal digits, in upper or lower case.
pub open spec fn hex_alphabet(upper: bool) -> Seq<char> {
    if upper {
        seq!['0', '1', '2', '3', '4', '5', '6', '7', '8', '9', 'A', 'B', 'C', 'D', 'E', 'F']
    } else {
        seq!['0', '1', '2', '3', '4', '5', '6', '7', '8', '9', 'a', 'b', 'c', 'd', 'e', 'f']
    }
}

/// The digit for a nibble `n` (0 to 15).
pub open spec fn hex_digit(n: int, upper: bool) -> char {
    hex_alphabet(upper)[n]
}

/// The two digits of one byte: high nibble, then low nibble.
pub open spec fn byte_hex(b: u8, upper: bool) -> Seq<char> {
    seq![hex_digit(b as int / 16, upper), hex_digit(b as int % 16, upper)]
}

/// The digits of a byte sequence, byte after byte.
pub open spec fn hex_of(bytes: Seq<u8>, upper: bool) -> Seq<char>
    decreases bytes.len(),
{
    if bytes.len() == 0 {
        Seq::empty()
    } else {
        hex_of(bytes.drop_last(), upper) + byte_hex(bytes.last(), upper)
    }
}

/// Every byte gives two digits.
pub proof fn lemma_hex_of_len(bytes: Seq<u8>, upper: bool)
    ensures
        hex_of(bytes, upper).len() == 2 * bytes.len(),
    decreases bytes.len(),
{
    if bytes.len() > 0 {
        lemma_hex_of_len(bytes.drop_last(), upper);
    }
}

/// The digits of a concatenation are the digits of each part, in order.
pub proof fn lemma_hex_of_concat(a: Seq<u8>, b: Seq<u8>, upper: bool)
    ensures
        hex_of(a + b, upper) == hex_of(a, upper) + hex_of(b, upper),
    decreases b.len(),
{
    if b.len() == 0 {
        assert(a + b =~= a);
        assert(hex_of(a, upper) + hex_of(b, upper) =~= hex_of(a, upper));
    } else {
        lemma_hex_of_concat(a, b.drop_last(), upper);
        assert((a + b).drop_last() =~= a + b.drop_last());
        assert((a + b).last() == b.last());
        assert(hex_of(a + b, upper) =~= hex_of(a, upper) + hex_of(b, upper));
    }
}

/// The digit for nibble `n` as a one-character string.
fn digit_str(n: u8, upper: bool) -> (d: &'static str)
    requires
        n < 16,
    ensures
        d@ == seq![hex_digit(n as int, upper)],
{
    let n = n as usize;
    if upper {
        let digits = "0123456789ABCDEF";
        proof {
            reveal_strlit("0123456789ABCDEF");
        }
        digits.substring_char(n, n + 1)
    } else {
        let digits = "0123456789abcdef";
        proof {
            reveal_strlit("0123456789abcdef");
        }
        digits.substring_char(n, n + 1)
    }
}

/// Append the digits of `bytes` to `out`.
pub fn push_hex(out: &mut String, bytes: &[u8], upper: bool)
    ensures
        final(out)@ == old(out)@ + hex_of(bytes@, upper),
{
    let ghost start = out@;
    let mut i: usize = 0;
    while i < bytes.len()
        invariant
            0 <= i <= bytes@.len(),
            out@ == start + hex_of(bytes@.subrange(0, i as int), upper),
        decreases bytes@.len() - i,
    {
        let b = bytes[i];
        out.append(digit_str(b / 16, upper));
        out.append(digit_str(b % 16, upper));
        proof {
            let done = bytes@.subrange(0, i + 1);
            assert(done.drop_last() =~= bytes@.subrange(0, i as int));
            assert(done.last() == b);
        }
        i = i + 1;
        assert(out@ =~= start + hex_of(bytes@.subrange(0, i as int), upper));
    }
    assert(bytes@.subrange(0, i as int) =~= bytes@);
}

/// The digits of `bytes` as a new string.
pub fn to_hex(bytes: &[u8], upper: bool) -> (text: String)
    ensures
        text@ == hex_of(bytes@, upper),
{
    let mut text = String::new();
    push_hex(&mut text, bytes, upper);
    assert(text@ =~= hex_of(bytes@, upper));
    text
}

} // verus!
