//! Lowercase hexadecimal notation of bytes.

use vstd::prelude::*;

verus! {

/// The lowercase character of a hexadecimal digit.
pub open spec fn hex_digit(n: int) -> char {
    if n < 10 {
        (48 + n) as u8 as char
    } else {
        (87 + n) as u8 as char
    }
}

/// Two hexadecimal digits per byte, in order.
pub open spec fn hex(bytes: Seq<u8>) -> Seq<char>
    decreases bytes.len(),
{
    if bytes.len() == 0 {
        Seq::empty()
    } else {
        hex(bytes.drop_last()) + seq![
            hex_digit(bytes.last() as int / 16),
            hex_digit(bytes.last() as int % 16),
        ]
    }
}

/// The character of a hexadecimal digit.
fn digit_char(n: u8) -> (r: char)
    requires
        n < 16,
    ensures
        r == hex_digit(n as int),
{
    if n < 10 {
        (48 + n) as char
    } else {
        (87 + n) as char
    }
}

/// Encodes the bytes from `from` up to `to` as lowercase hexadecimal.
pub fn hex_range(bytes: &[u8], from: usize, to: usize) -> (r: String)
    requires
        from <= to <= bytes@.len(),
    ensures
        r@ == hex(bytes@.subrange(from as int, to as int)),
{
    let mut out = String::new();
    let mut i: usize = from;
    while i < to
        invariant
            from <= i <= to <= bytes@.len(),
            out@ == hex(bytes@.subrange(from as int, i as int)),
        decreases to - i,
    {
        let b: u8 = bytes[i];
        out.push(digit_char(b / 16));
        out.push(digit_char(b % 16));
        proof {
            let done = bytes@.subrange(from as int, i + 1);
            assert(done.drop_last() =~= bytes@.subrange(from as int, i as int));
            assert(out@ =~= hex(done));
        }
        i += 1;
    }
    out
}

/// Encodes bytes as a lowercase hexadecimal string.
pub fn hex_encode(bytes: &[u8]) -> (r: String)
    ensures
        r@ == hex(bytes@),
{
    assert(bytes@.subrange(0, bytes@.len() as int) =~= bytes@);
    hex_range(bytes, 0, bytes.len())
}

/// The first four bytes of a fingerprint in hexadecimal, for log lines.
pub fn short(fp: &[u8; 32]) -> (r: String)
    ensures
        r@ == hex(fp@.take(4)),
{
    assert(fp@.take(4) =~= fp@.subrange(0, 4));
    hex_range(fp.as_slice(), 0, 4)
}

/// Hexadecimal notation is twice as long as the bytes.
pub proof fn hex_doubles_length(bytes: Seq<u8>)
    ensures
        hex(bytes).len() == 2 * bytes.len(),
    decreases bytes.len(),
{
    if bytes.len() > 0 {
        hex_doubles_length(bytes.drop_last());
    }
}

/// The digits of byte `i` stand at positions `2 * i` and `2 * i + 1`.
pub proof fn hex_digits_of_byte(bytes: Seq<u8>, i: int)
    requires
        0 <= i < bytes.len(),
    ensures
        hex(bytes).len() == 2 * bytes.len(),
        hex(bytes)[2 * i] == hex_digit(bytes[i] as int / 16),
        hex(bytes)[2 * i + 1] == hex_digit(bytes[i] as int % 16),
    decreases bytes.len(),
{
    hex_doubles_length(bytes);
    hex_doubles_length(bytes.drop_last());
    if i < bytes.len() - 1 {
        hex_digits_of_byte(bytes.drop_last(), i);
    }
}

/// The value of a digit '0' to '9' or 'a' to 'f'.
pub open spec fn lower_digit_value(c: char) -> int {
    if '0' <= c && c <= '9' {
        c as u32 - 48
    } else {
        c as u32 - 97 + 10
    }
}

/// The notation consists of digits '0' to '9' and 'a' to 'f', and the two digits at each place
/// stand for the byte there.
pub proof fn hex_is_read_back(bytes: Seq<u8>, i: int)
    requires
        0 <= i < bytes.len(),
    ensures
        hex(bytes).len() == 2 * bytes.len(),
        ({
            let high = hex(bytes)[2 * i];
            let low = hex(bytes)[2 * i + 1];
            &&& ('0' <= high && high <= '9') || ('a' <= high && high <= 'f')
            &&& ('0' <= low && low <= '9') || ('a' <= low && low <= 'f')
            &&& 16 * lower_digit_value(high) + lower_digit_value(low) == bytes[i]
        }),
{
    hex_digits_of_byte(bytes, i);
    lemma_digit(bytes[i] as int / 16);
    lemma_digit(bytes[i] as int % 16);
}

proof fn lemma_digit(n: int)
    requires
        0 <= n < 16,
    ensures
        ('0' <= hex_digit(n) && hex_digit(n) <= '9') || ('a' <= hex_digit(n) && hex_digit(n)
            <= 'f'),
        lower_digit_value(hex_digit(n)) == n,
{
}

/// Different bytes have different notations, and the notation of a whole is that of its parts.
pub proof fn hex_tells_bytes_apart(a: Seq<u8>, b: Seq<u8>)
    ensures
        hex(a) == hex(b) ==> a == b,
        hex(a + b) == hex(a) + hex(b),
{
    lemma_hex_concat(a, b);
    hex_doubles_length(a);
    hex_doubles_length(b);
    if hex(a) == hex(b) {
        assert forall|i: int| 0 <= i < a.len() implies a[i] == b[i] by {
            hex_is_read_back(a, i);
            hex_is_read_back(b, i);
        }
        assert(a =~= b);
    }
}

proof fn lemma_hex_concat(a: Seq<u8>, b: Seq<u8>)
    ensures
        hex(a + b) == hex(a) + hex(b),
    decreases b.len(),
{
    if b.len() == 0 {
        assert(a + b =~= a);
        assert(hex(a) + hex(b) =~= hex(a));
    } else {
        assert((a + b).drop_last() =~= a + b.drop_last());
        lemma_hex_concat(a, b.drop_last());
        assert(hex(a + b) =~= hex(a) + hex(b));
    }
}

} // verus!
