//! Lowercase hex encoding and byte-level text assembly.
//!
//! Export lines are assembled as ASCII bytes and turned into a `String` at
//! the very end, so every formatting step is verified against the byte-level
//! specification.

use vstd::prelude::*;

verus! {

/// ASCII code of the lowercase hex digit for `n < 16`.
pub open spec fn hex_digit(n: u8) -> u8 {
    if n < 10 {
        (0x30 + n) as u8
    } else {
        (0x57 + n) as u8
    }
}

/// Two lowercase hex digits for one byte, high nibble first.
pub open spec fn hex_of_byte(b: u8) -> Seq<u8> {
    seq![hex_digit(b / 16), hex_digit((b % 16) as u8)]
}

/// Lowercase hex encoding of a byte sequence: two digits per byte, no
/// separators.
pub open spec fn hex_of(s: Seq<u8>) -> Seq<u8>
    decreases s.len(),
{
    if s.len() == 0 {
        Seq::empty()
    } else {
        hex_of(s.drop_last()) + hex_of_byte(s.last())
    }
}

/// True when every byte is ASCII.
pub open spec fn is_ascii_bytes(s: Seq<u8>) -> bool {
    forall|i: int| 0 <= i < s.len() ==> s[i] < 0x80
}

pub proof fn lemma_hex_of_ascii(s: Seq<u8>)
    ensures
        is_ascii_bytes(hex_of(s)),
    decreases s.len(),
{
    if s.len() > 0 {
        lemma_hex_of_ascii(s.drop_last());
    }
}

/// The lowercase hex digit for `n < 16`, as executable code.
pub fn hex_digit_ascii(n: u8) -> (r: u8)
    requires
        n < 16,
    ensures
        r == hex_digit(n),
{
    if n < 10 {
        0x30 + n
    } else {
        0x57 + n
    }
}

/// Appends the lowercase hex encoding of `bytes` to `out`.
pub fn push_hex(out: &mut Vec<u8>, bytes: &[u8])
    ensures
        final(out)@ == old(out)@ + hex_of(bytes@),
{
    let mut i: usize = 0;
    while i < bytes.len()
        invariant
            i <= bytes@.len(),
            out@ == old(out)@ + hex_of(bytes@.take(i as int)),
        decreases bytes@.len() - i,
    {
        let b = bytes[i];
        out.push(hex_digit_ascii(b / 16));
        out.push(hex_digit_ascii(b % 16));
        proof {
            assert(bytes@.take(i + 1 as int).drop_last() =~= bytes@.take(i as int));
            assert(out@ =~= old(out)@ + hex_of(bytes@.take(i + 1 as int)));
        }
        i = i + 1;
    }
    proof {
        assert(bytes@.take(bytes@.len() as int) =~= bytes@);
    }
}

/// Appends every byte of `piece` to `out`.
pub fn push_bytes(out: &mut Vec<u8>, piece: &[u8])
    ensures
        final(out)@ == old(out)@ + piece@,
{
    let mut i: usize = 0;
    while i < piece.len()
        invariant
            i <= piece@.len(),
            out@ == old(out)@ + piece@.take(i as int),
        decreases piece@.len() - i,
    {
        out.push(piece[i]);
        proof {
            assert(out@ =~= old(out)@ + piece@.take(i + 1 as int));
        }
        i = i + 1;
    }
    proof {
        assert(piece@.take(piece@.len() as int) =~= piece@);
    }
}

/// Relies on `String::from_utf8`: the returned string's UTF-8 encoding is
/// exactly the input bytes, and ASCII input is always accepted.
#[verifier::external_body]
pub fn ascii_bytes_to_string(v: Vec<u8>) -> (r: String)
    requires
        is_ascii_bytes(v@),
    ensures
        vstd::utf8::encode_utf8(r@) == v@,
        vstd::utf8::is_ascii_chars(r@),
    {
    String::from_utf8(v).unwrap()
}

} // verus!
