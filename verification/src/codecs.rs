//! The decoders of IronRDP that the graphics channel goes through.
//!
//! Each decoder keeps state from call to call. What it has been given since it was
//! new is the state that matters: two decoders that were given the same behave the
//! same from then on.

use ironrdp::graphics::clearcodec::ClearCodecDecoder;
use ironrdp::graphics::zgfx::Decompressor;
use vstd::prelude::*;

verus! {

/// The bulk decompressor of `ironrdp-graphics`; nothing of it is visible here.
#[verifier::external_type_specification]
#[verifier::external_body]
pub struct ExDecompressor(ironrdp::graphics::zgfx::Decompressor);

/// The ClearCodec decoder of `ironrdp-graphics`; nothing of it is visible here.
#[verifier::external_type_specification]
#[verifier::external_body]
pub struct ExClearCodecDecoder(ironrdp::graphics::clearcodec::ClearCodecDecoder);

/// The payloads that a decompressor has been given, the first one first.
pub uninterp spec fn bulk_history(decompressor: Decompressor) -> Seq<Seq<u8>>;

/// Whether `payload` is a single segment that is not compressed.
pub open spec fn plain(payload: Seq<u8>) -> bool {
    payload.len() >= 2 && payload[0] == 0xe0 && payload[1] / 32 % 2 == 0
}

/// What `Decompressor::decompress` makes of `payload` after the payloads of
/// `history`: the unfolded bytes, or the text of its error.
pub uninterp spec fn unfolded(history: Seq<Seq<u8>>, payload: Seq<u8>) -> Result<
    Seq<u8>,
    Seq<char>,
>;

/// What `payload` unfolds to after the payloads of `history`: the segment's bytes
/// as they are, where it is a single segment that is not compressed.
pub open spec fn unfolding(history: Seq<Seq<u8>>, payload: Seq<u8>) -> Result<
    Seq<u8>,
    Seq<char>,
> {
    if plain(payload) {
        Ok(payload.skip(2))
    } else {
        unfolded(history, payload)
    }
}

/// Where in its window a decompressor stands that has been given `history`: the
/// number of bytes that the payloads unfolded to, around the window.
pub open spec fn window_position(history: Seq<Seq<u8>>) -> nat
    decreases history.len(),
{
    if history.len() == 0 {
        0
    } else {
        let before = window_position(history.drop_last());
        match crate::zgfx::extent(history.last(), before) {
            Some(extent) => (before + extent.written) % (crate::zgfx::WINDOW as nat),
            None => before,
        }
    }
}

/// The position lies in the window.
pub proof fn lemma_window_position(history: Seq<Seq<u8>>)
    ensures
        window_position(history) < crate::zgfx::WINDOW,
    decreases history.len(),
{
    if history.len() > 0 {
        lemma_window_position(history.drop_last());
    }
}

/// Calls `Decompressor::new` of `ironrdp-graphics`: a decompressor that has been
/// given nothing.
#[verifier::external_body]
pub(crate) fn new_decompressor() -> (decompressor: Decompressor)
    ensures
        bulk_history(decompressor) == Seq::<Seq<u8>>::empty(),
{
    Decompressor::new()
}

/// Calls `Decompressor::decompress` of `ironrdp-graphics`, which appends what the
/// payload unfolds to to `output`. The decompressor walks the tokens of a payload
/// without looking for its end, and neither its bits nor the unfolded bytes may pass
/// what this machine can address, so only payloads that have the shape of bulk data
/// are handed to it. What comes out is a function of all payloads so far; of a
/// single segment that is not compressed, it is the segment's bytes as they are.
#[verifier::external_body]
pub(crate) fn decompress(
    decompressor: &mut Decompressor,
    payload: &[u8],
    output: &mut Vec<u8>,
) -> (outcome: Result<(), String>)
    requires
        old(output)@.len() == 0,
        crate::zgfx::extent(payload@, window_position(bulk_history(*old(decompressor)))) is Some,
    ensures
        bulk_history(*final(decompressor)) == bulk_history(*old(decompressor)).push(payload@),
        plain(payload@) ==> outcome is Ok && final(output)@ == payload@.skip(2),
        !plain(payload@) ==> match unfolded(bulk_history(*old(decompressor)), payload@) {
            Ok(bytes) => outcome is Ok && final(output)@ == bytes,
            Err(text) => outcome matches Err(error) && error@ == text,
        },
{
    match decompressor.decompress(payload, output) {
        Ok(_) => Ok(()),
        Err(error) => Err(error.to_string()),
    }
}

/// The updates that a ClearCodec decoder has been given: the data of each with its
/// width and height.
pub uninterp spec fn clearcodec_history(decoder: ClearCodecDecoder) -> Seq<(Seq<u8>, u16, u16)>;

/// What `ClearCodecDecoder::decode` makes of an update after those of `history`:
/// BGRA pixels, or the text of its error.
pub uninterp spec fn clearcodec_pixels(
    history: Seq<(Seq<u8>, u16, u16)>,
    data: Seq<u8>,
    width: u16,
    height: u16,
) -> Result<Seq<u8>, Seq<char>>;

/// Calls `ClearCodecDecoder::new` of `ironrdp-graphics`: a decoder that has been
/// given nothing.
#[verifier::external_body]
pub(crate) fn new_clearcodec() -> (decoder: ClearCodecDecoder)
    ensures
        clearcodec_history(decoder) == Seq::<(Seq<u8>, u16, u16)>::empty(),
{
    ClearCodecDecoder::new()
}

/// Calls `ClearCodecDecoder::decode` of `ironrdp-graphics`. The pixels are a
/// function of all updates so far, four bytes for each pixel.
#[verifier::external_body]
pub(crate) fn decode_clearcodec(
    decoder: &mut ClearCodecDecoder,
    data: &[u8],
    width: u16,
    height: u16,
) -> (pixels: Result<Vec<u8>, String>)
    ensures
        clearcodec_history(*final(decoder)) == clearcodec_history(*old(decoder)).push(
            (data@, width, height),
        ),
        match clearcodec_pixels(clearcodec_history(*old(decoder)), data@, width, height) {
            Ok(bytes) => pixels matches Ok(pixels) && pixels@ == bytes && pixels@.len() == 4 * (
            width * height),
            Err(text) => pixels matches Err(error) && error@ == text,
        },
{
    decoder.decode(data, width, height).map_err(|error| error.to_string())
}

/// A decompressor begins at the start of its window of 2,500,000 bytes, and each payload
/// takes it on by the bytes that it unfolds to, around the window.
pub proof fn law_window_moves_with_the_bytes(history: Seq<Seq<u8>>, payload: Seq<u8>)
    ensures
        window_position(Seq::empty()) == 0,
        match crate::zgfx::extent(payload, window_position(history)) {
            Some(extent) => window_position(history.push(payload)) == (window_position(history)
                + extent.written) % 2_500_000,
            None => window_position(history.push(payload)) == window_position(history),
        },
{
    assert(history.push(payload).drop_last() =~= history);
}

/// A single segment that is not marked as compressed unfolds to its bytes behind the two
/// of its head, whatever came before; anything else unfolds to what the decompressor says.
pub proof fn law_plain_bytes_stay(history: Seq<Seq<u8>>, payload: Seq<u8>)
    ensures
        payload.len() >= 2 && payload[0] == 0xe0 && payload[1] & 0x20 == 0 ==> unfolding(
            history,
            payload,
        ) == Ok::<Seq<u8>, Seq<char>>(payload.skip(2)),
        payload.len() < 2 || payload[0] != 0xe0 || payload[1] & 0x20 != 0 ==> unfolding(
            history,
            payload,
        ) == unfolded(history, payload),
{
    if payload.len() >= 2 {
        let flags = payload[1];
        assert(flags & 0x20 == 0 <==> flags / 32 % 2 == 0) by (bit_vector);
    }
}

} // verus!
