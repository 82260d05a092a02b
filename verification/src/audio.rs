//! Audio data handling that does not need an output device.

use vstd::prelude::*;

verus! {

/// The size field of an ID3v2 header: four 7-bit groups, most significant first.
pub open spec fn syncsafe(b6: u8, b7: u8, b8: u8, b9: u8) -> usize {
    ((b6 as usize & 0x7f) << 21) | ((b7 as usize & 0x7f) << 14) | ((b8 as usize & 0x7f) << 7) | (
    b9 as usize & 0x7f)
}

/// Where the audio frames start: after the 10-byte header, the tag body of
/// `syncsafe` bytes and, when the header's footer flag is set, a 10-byte footer.
pub open spec fn id3_end(b: Seq<u8>) -> int {
    10 + syncsafe(b[6], b[7], b[8], b[9]) + (if b[5] & 0x10 != 0 {
        10int
    } else {
        0int
    })
}

/// `b` begins with an ID3v2 header.
pub open spec fn has_id3_header(b: Seq<u8>) -> bool {
    b.len() >= 10 && b[0] == 0x49u8 && b[1] == 0x44u8 && b[2] == 0x33u8
}

/// The bytes after a leading ID3v2 tag: unchanged when there is no header or
/// the tag claims to run past the end.
pub open spec fn without_id3(b: Seq<u8>) -> Seq<u8> {
    if has_id3_header(b) && id3_end(b) <= b.len() {
        b.skip(id3_end(b))
    } else {
        b
    }
}

/// Return the slice of `bytes` following any leading ID3v2 tag (its length is
/// self-describing, a 4-byte syncsafe integer), so a decoder gets raw frames.
pub fn strip_id3v2(bytes: &[u8]) -> (r: &[u8])
    ensures
        r@ == without_id3(bytes@),
{
    if bytes.len() >= 10 && bytes[0] == 0x49u8 && bytes[1] == 0x44u8 && bytes[2] == 0x33u8 {
        let footer: usize = if bytes[5] & 0x10 != 0 {
            10
        } else {
            0
        };
        let (b6, b7, b8, b9) = (bytes[6], bytes[7], bytes[8], bytes[9]);
        let size = ((b6 as usize & 0x7f) << 21) | ((b7 as usize & 0x7f) << 14) | ((b8 as usize
            & 0x7f) << 7) | (b9 as usize & 0x7f);
        assert(size < 0x1000_0000) by (bit_vector)
            requires
                size == ((b6 as usize & 0x7f) << 21) | ((b7 as usize & 0x7f) << 14) | ((b8 as usize
                    & 0x7f) << 7) | (b9 as usize & 0x7f),
        ;
        let end = 10 + size + footer;
        if end <= bytes.len() {
            let (_, rest) = bytes.split_at(end);
            assert(rest@ =~= bytes@.skip(end as int));
            return rest;
        }
    }
    bytes
}

/// Stripping never adds bytes: the result is always a suffix of the input.
pub proof fn lemma_strip_is_suffix(b: Seq<u8>)
    ensures
        without_id3(b).len() <= b.len(),
        without_id3(b) == b.skip(b.len() - without_id3(b).len()),
{
    assert(b.skip(0) =~= b);
}

} // verus!
