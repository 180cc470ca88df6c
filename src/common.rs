//! Hexadecimal rendering of byte strings.

use vstd::prelude::*;

verus! {

/// The ASCII lower-case hexadecimal digit of `n < 16`.
pub open spec fn hex_digit(n: int) -> u8 {
    if n < 10 {
        (0x30 + n) as u8
    } else {
        (0x61 + n - 10) as u8
    }
}

/// Each byte as two hexadecimal digits behind `prefix`, separated by spaces.
pub open spec fn hex_text(data: Seq<u8>, prefix: Seq<u8>) -> Seq<u8>
    decreases data.len(),
{
    if data.len() == 0 {
        seq![]
    } else {
        let last = prefix + seq![hex_digit(data.last() as int / 16), hex_digit(data.last() as int % 16)];
        if data.len() == 1 {
            last
        } else {
            hex_text(data.drop_last(), prefix) + seq![0x20u8] + last
        }
    }
}

/// The characters of an ASCII byte string.
pub open spec fn ascii_chars(bytes: Seq<u8>) -> Seq<char> {
    bytes.map_values(|b: u8| b as char)
}

/// Relies on `String::from_utf8`: ASCII bytes are valid UTF-8, each byte one
/// character, so the conversion succeeds and the unwrap never panics.
#[verifier::external_body]
pub(crate) fn ascii_string(bytes: Vec<u8>) -> (r: String)
    requires
        forall|i: int| 0 <= i < bytes@.len() ==> bytes@[i] < 0x80,
    ensures
        r@ == ascii_chars(bytes@),
{
    String::from_utf8(bytes).unwrap()
}

fn push_hex_digit(text: &mut Vec<u8>, n: u8)
    requires
        n < 16,
    ensures
        final(text)@ == old(text)@.push(hex_digit(n as int)),
        final(text)@.last() < 0x80,
{
    if n < 10 {
        text.push(0x30 + n);
    } else {
        text.push(0x61 + n - 10);
    }
}

/// Appends `hex_text(data, prefix)` to `text`.
pub(crate) fn push_hex_text(text: &mut Vec<u8>, data: &[u8], prefix: &[u8])
    requires
        forall|i: int| 0 <= i < prefix@.len() ==> prefix@[i] < 0x80,
        forall|i: int| 0 <= i < old(text)@.len() ==> old(text)@[i] < 0x80,
    ensures
        final(text)@ == old(text)@ + hex_text(data@, prefix@),
        forall|i: int| 0 <= i < final(text)@.len() ==> final(text)@[i] < 0x80,
{
    let mut i: usize = 0;
    while i < data.len()
        invariant
            0 <= i <= data@.len(),
            forall|k: int| 0 <= k < prefix@.len() ==> prefix@[k] < 0x80,
            text@ == old(text)@ + hex_text(data@.subrange(0, i as int), prefix@),
            forall|k: int| 0 <= k < text@.len() ==> text@[k] < 0x80,
        decreases data@.len() - i,
    {
        let ghost before = text@;
        if i > 0 {
            text.push(0x20);
        }
        let mut j: usize = 0;
        while j < prefix.len()
            invariant
                0 <= j <= prefix@.len(),
                forall|k: int| 0 <= k < prefix@.len() ==> prefix@[k] < 0x80,
                text@ == before + (if i > 0 { seq![0x20u8] } else { seq![] }) + prefix@.subrange(
                    0,
                    j as int,
                ),
                forall|k: int| 0 <= k < text@.len() ==> text@[k] < 0x80,
            decreases prefix@.len() - j,
        {
            text.push(prefix[j]);
            j = j + 1;
            assert(text@ =~= before + (if i > 0 { seq![0x20u8] } else { seq![] })
                + prefix@.subrange(0, j as int));
        }
        push_hex_digit(text, data[i] / 16);
        push_hex_digit(text, data[i] % 16);
        let ghost next = data@.subrange(0, i + 1);
        assert(next.drop_last() =~= data@.subrange(0, i as int));
        assert(prefix@.subrange(0, prefix@.len() as int) =~= prefix@);
        i = i + 1;
        assert(text@ =~= old(text)@ + hex_text(data@.subrange(0, i as int), prefix@));
    }
    assert(data@.subrange(0, data@.len() as int) =~= data@);
}

/// Each byte as two lower-case hexadecimal digits, separated by spaces.
pub fn data_to_hex(data: &[u8]) -> (r: String)
    ensures
        r@ == ascii_chars(hex_text(data@, seq![])),
{
    let mut text: Vec<u8> = Vec::new();
    let prefix: Vec<u8> = Vec::new();
    push_hex_text(&mut text, data, prefix.as_slice());
    assert(text@ =~= hex_text(data@, seq![]));
    ascii_string(text)
}

} // verus!
