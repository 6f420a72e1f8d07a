//! H.264 access units in AVC format, and the wrapper that RDP puts around them.

use ironrdp::pdu::{Decode, ReadCursor};
use ironrdp_egfx::pdu::Avc420BitmapStream;
use vstd::prelude::*;

verus! {

/// The number in the four bytes at `offset`, the most significant byte first.
pub open spec fn be_length(data: Seq<u8>, offset: int) -> nat {
    0x100_0000 * data[offset] as nat + 0x1_0000 * data[offset + 1] as nat + 0x100 * data[offset
        + 2] as nat + data[offset + 3] as nat
}

/// The NAL unit type for slices of an instantaneous decoder refresh picture.
pub open spec fn is_idr(unit_header: u8) -> bool {
    unit_header % 32 == 5
}

/// Whether one of the NAL units that follow each other from `offset` on is an IDR
/// slice. Each unit stands behind its length; an empty or a cut unit ends the
/// search.
pub open spec fn has_idr(data: Seq<u8>, offset: int) -> bool
    decreases data.len() - offset,
{
    if offset < 0 || offset + 4 > data.len() {
        false
    } else {
        let length = be_length(data, offset);
        if length == 0 || offset + 4 + length > data.len() {
            false
        } else {
            is_idr(data[offset + 4]) || has_idr(data, offset + 4 + length)
        }
    }
}

/// Whether the access unit `data` contains an IDR slice, so that a decoder can
/// start with it.
pub fn contains_idr(data: &[u8]) -> (found: bool)
    ensures
        found == has_idr(data@, 0),
{
    let total: usize = data.len();
    let mut offset: usize = 0;
    while offset <= total && total - offset >= 4
        invariant
            offset <= total,
            total == data@.len(),
            has_idr(data@, 0) == has_idr(data@, offset as int),
        decreases total - offset,
    {
        let length: u32 = 0x100_0000 * data[offset] as u32 + 0x1_0000 * data[offset + 1] as u32
            + 0x100 * data[offset + 2] as u32 + data[offset + 3] as u32;
        let start: usize = offset + 4;
        if length == 0 || length as u64 > (total - start) as u64 {
            return false;
        }
        if data[start] % 32 == 5 {
            return true;
        }
        offset = start + length as usize;
    }
    false
}

/// A NAL unit behind its length.
pub open spec fn framed(unit: Seq<u8>) -> Seq<u8> {
    seq![
        (unit.len() / 0x100_0000 % 256) as u8,
        (unit.len() / 0x1_0000 % 256) as u8,
        (unit.len() / 0x100 % 256) as u8,
        (unit.len() % 256) as u8,
    ] + unit
}

/// An access unit: its NAL units, each behind its length.
pub open spec fn access_unit(units: Seq<Seq<u8>>) -> Seq<u8>
    decreases units.len(),
{
    if units.len() == 0 {
        Seq::empty()
    } else {
        framed(units[0]) + access_unit(units.skip(1))
    }
}

/// A search from `offset` on is a search through what stands there.
proof fn lemma_has_idr_skip(data: Seq<u8>, offset: int, base: int)
    requires
        0 <= base <= offset,
        base <= data.len(),
    ensures
        has_idr(data, offset) == has_idr(data.skip(base), offset - base),
    decreases data.len() - offset,
{
    if offset + 4 <= data.len() {
        let length = be_length(data, offset);
        assert(be_length(data.skip(base), offset - base) == length);
        if length > 0 && offset + 4 + length <= data.len() {
            lemma_has_idr_skip(data, (offset + 4 + length) as int, base);
        }
    }
}

/// An access unit is a key frame exactly when one of its NAL units is an IDR slice.
pub proof fn law_key_frame_has_idr_unit(units: Seq<Seq<u8>>)
    requires
        forall|i: int| 0 <= i < units.len() ==> 0 < (#[trigger] units[i]).len() <= u32::MAX,
    ensures
        has_idr(access_unit(units), 0) == exists|i: int|
            0 <= i < units.len() && is_idr(#[trigger] units[i][0]),
    decreases units.len(),
{
    if units.len() > 0 {
        let data = access_unit(units);
        let rest = units.skip(1);
        let length = units[0].len();
        assert forall|i: int| 0 <= i < rest.len() implies 0 < (#[trigger] rest[i]).len()
            <= u32::MAX by {
            assert(rest[i] == units[i + 1]);
        }
        law_key_frame_has_idr_unit(rest);
        assert(0 < units[0].len() <= u32::MAX);
        assert(length == 0x100_0000 * (length / 0x100_0000 % 256) + 0x1_0000 * (length / 0x1_0000
            % 256) + 0x100 * (length / 0x100 % 256) + length % 256) by {
            assert(length / 0x100_0000 < 256);
        }
        assert(be_length(data, 0) == length);
        assert(data.skip(4 + length as int) =~= access_unit(rest));
        lemma_has_idr_skip(data, 4 + length as int, 4 + length as int);
        assert(data[4] == units[0][0]);
        if is_idr(units[0][0]) {
        } else if has_idr(access_unit(rest), 0) {
            let i = choose|i: int| 0 <= i < rest.len() && is_idr(#[trigger] rest[i][0]);
            assert(is_idr(units[i + 1][0]));
        } else {
            assert forall|i: int| 0 <= i < units.len() implies !is_idr(#[trigger] units[i][0]) by {
                if i > 0 {
                    assert(rest[i - 1][0] == units[i][0]);
                }
            }
        }
    }
}

/// What stands behind the wrapper of an AVC420 bitmap stream: a count of regions,
/// a rectangle of eight bytes and two bytes of quality for each region, then the
/// access unit. `None` where the wrapper is cut.
pub open spec fn unwrapped(stream: Seq<u8>) -> Option<Seq<u8>> {
    if stream.len() < 4 {
        None
    } else {
        let wrapper = 4 + 10 * crate::bytes::le_value(stream.take(4));
        if stream.len() < wrapper {
            None
        } else {
            Some(stream.skip(wrapper as int))
        }
    }
}

/// The text of the error with which `Avc420BitmapStream::decode` refuses `stream`.
pub uninterp spec fn unwrap_error(stream: Seq<u8>) -> Seq<char>;

/// Calls `Avc420BitmapStream::decode` of `ironrdp-egfx` and keeps its `data`. The
/// decoder reads the count of regions, then the rectangles, then the quality
/// pairs, and hands out the rest of its input; it refuses a stream that ends
/// before that. Why it refused is text of its own, a function of the stream.
#[verifier::external_body]
pub(crate) fn unwrap_avc420(stream: &[u8]) -> (data: Result<Vec<u8>, String>)
    ensures
        match unwrapped(stream@) {
            Some(bytes) => data matches Ok(data) && data@ == bytes,
            None => data matches Err(text) && text@ == unwrap_error(stream@),
        },
{
    match Avc420BitmapStream::decode(&mut ReadCursor::new(stream)) {
        Ok(bitmap) => Ok(bitmap.data.to_vec()),
        Err(error) => Err(error.to_string()),
    }
}

/// Whether `tail` can hold no NAL unit: it is too short for a length, or its length is
/// zero or reaches past its end.
pub open spec fn no_unit(tail: Seq<u8>) -> bool {
    tail.len() < 4 || ({
        let length = 0x100_0000 * tail[0] + 0x1_0000 * tail[1] + 0x100 * tail[2] + tail[3];
        length == 0 || 4 + length > tail.len()
    })
}

/// An access unit is a key frame exactly when the low five bits of the first byte of one
/// of its NAL units are 5, whatever cut or empty unit comes behind them.
pub proof fn law_key_frame_goes_by_unit_types(units: Seq<Seq<u8>>, tail: Seq<u8>)
    requires
        forall|i: int| 0 <= i < units.len() ==> 0 < (#[trigger] units[i]).len() <= u32::MAX,
        no_unit(tail),
    ensures
        has_idr(access_unit(units) + tail, 0) == exists|i: int|
            0 <= i < units.len() && (#[trigger] units[i])[0] % 32 == 5,
    decreases units.len(),
{
    let data = access_unit(units) + tail;
    if units.len() == 0 {
        assert(data =~= tail);
    } else {
        let rest = units.skip(1);
        let length = units[0].len();
        assert forall|i: int| 0 <= i < rest.len() implies 0 < (#[trigger] rest[i]).len()
            <= u32::MAX by {
            assert(rest[i] == units[i + 1]);
        }
        law_key_frame_goes_by_unit_types(rest, tail);
        assert(0 < units[0].len() <= u32::MAX);
        assert(length == 0x100_0000 * (length / 0x100_0000 % 256) + 0x1_0000 * (length / 0x1_0000
            % 256) + 0x100 * (length / 0x100 % 256) + length % 256) by {
            assert(length / 0x100_0000 < 256);
        }
        assert(be_length(data, 0) == length);
        assert(data.skip(4 + length as int) =~= access_unit(rest) + tail);
        lemma_has_idr_skip(data, 4 + length as int, 4 + length as int);
        assert(data[4] == units[0][0]);
        if units[0][0] % 32 == 5 {
        } else if has_idr(access_unit(rest) + tail, 0) {
            let i = choose|i: int| 0 <= i < rest.len() && (#[trigger] rest[i])[0] % 32 == 5;
            assert(units[i + 1][0] % 32 == 5);
        } else {
            assert forall|i: int| 0 <= i < units.len() implies (#[trigger] units[i])[0] % 32
                != 5 by {
                if i > 0 {
                    assert(rest[i - 1][0] == units[i][0]);
                }
            }
        }
    }
}

/// Behind the wrapper stands the rest of the stream: the first four bytes count the
/// regions, least significant byte first, and each region takes ten bytes.
pub proof fn law_wrapper_takes_its_regions(stream: Seq<u8>, wrapper: int)
    requires
        stream.len() >= 4 ==> wrapper == 4 + 10 * (stream[0] + 0x100 * stream[1] + 0x1_0000
            * stream[2] + 0x100_0000 * stream[3]),
    ensures
        stream.len() < 4 ==> unwrapped(stream) is None,
        stream.len() >= 4 && stream.len() < wrapper ==> unwrapped(stream) is None,
        stream.len() >= 4 && stream.len() >= wrapper ==> unwrapped(stream) == Some(
            stream.skip(wrapper),
        ),
{
    if stream.len() >= 4 {
        crate::bytes::law_bytes_have_weights(stream.take(4));
    }
}

} // verus!
