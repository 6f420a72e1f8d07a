//! The messages of the graphics channel.

use crate::text::push_number;
use ironrdp::pdu::{decode_cursor, ReadCursor};
use ironrdp_egfx::pdu::{CapabilityVersion, GfxPdu, RawCapabilitySet};
use vstd::prelude::*;

verus! {

/// The codec of a bitmap on its way to a surface.
#[derive(Debug, Clone, Copy, PartialEq, Eq, Structural)]
pub enum Codec {
    Uncompressed,
    RemoteFx,
    ClearCodec,
    Planar,
    Avc420,
    Alpha,
    Avc444,
    Avc444v2,
}

impl Codec {
    /// The name of the codec.
    pub open spec fn spec_name(self) -> Seq<char> {
        match self {
            Codec::Uncompressed => "Uncompressed"@,
            Codec::RemoteFx => "RemoteFx"@,
            Codec::ClearCodec => "ClearCodec"@,
            Codec::Planar => "Planar"@,
            Codec::Avc420 => "Avc420"@,
            Codec::Alpha => "Alpha"@,
            Codec::Avc444 => "Avc444"@,
            Codec::Avc444v2 => "Avc444v2"@,
        }
    }

    /// The codec with the number `code`.
    pub open spec fn spec_from_code(code: nat) -> Option<Codec> {
        if code == 0x0 {
            Some(Codec::Uncompressed)
        } else if code == 0x3 {
            Some(Codec::RemoteFx)
        } else if code == 0x8 {
            Some(Codec::ClearCodec)
        } else if code == 0xa {
            Some(Codec::Planar)
        } else if code == 0xb {
            Some(Codec::Avc420)
        } else if code == 0xc {
            Some(Codec::Alpha)
        } else if code == 0xe {
            Some(Codec::Avc444)
        } else if code == 0xf {
            Some(Codec::Avc444v2)
        } else {
            None
        }
    }

    /// The codec with the number `code`.
    pub fn from_code(code: u16) -> (codec: Option<Codec>)
        ensures
            codec == Codec::spec_from_code(code as nat),
    {
        match code {
            0x0 => Some(Codec::Uncompressed),
            0x3 => Some(Codec::RemoteFx),
            0x8 => Some(Codec::ClearCodec),
            0xa => Some(Codec::Planar),
            0xb => Some(Codec::Avc420),
            0xc => Some(Codec::Alpha),
            0xe => Some(Codec::Avc444),
            0xf => Some(Codec::Avc444v2),
            _ => None,
        }
    }

    /// The name of the codec.
    pub fn name(self) -> (name: &'static str)
        ensures
            name@ == self.spec_name(),
    {
        match self {
            Codec::Uncompressed => "Uncompressed",
            Codec::RemoteFx => "RemoteFx",
            Codec::ClearCodec => "ClearCodec",
            Codec::Planar => "Planar",
            Codec::Avc420 => "Avc420",
            Codec::Alpha => "Alpha",
            Codec::Avc444 => "Avc444",
            Codec::Avc444v2 => "Avc444v2",
        }
    }
}

/// A rectangle whose right and bottom edges lie outside of it.
#[derive(Debug, Clone, Copy, PartialEq, Eq, Structural)]
pub struct Area {
    pub left: u16,
    pub top: u16,
    pub right: u16,
    pub bottom: u16,
}

/// A message of the graphics channel, as far as the gateway acts on it.
#[derive(Debug)]
pub enum Pdu {
    CapabilitiesConfirm { version: u32, data: Vec<u8> },
    ResetGraphics { output_width: u32, output_height: u32 },
    CreateSurface { surface_id: u16, width: u16, height: u16 },
    DeleteSurface { surface_id: u16 },
    MapSurfaceToOutput { surface_id: u16, output_x: u32, output_y: u32 },
    StartFrame,
    WireToSurface1 { surface_id: u16, codec: Codec, area: Area, data: Vec<u8> },
    WireToSurface2 { surface_id: u16, context: u32, data: Vec<u8> },
    DeleteEncodingContext { context: u32 },
    EndFrame { frame_id: u32 },
    Other,
}

/// The content of a [`Pdu`].
pub enum PduView {
    CapabilitiesConfirm { version: u32, data: Seq<u8> },
    ResetGraphics { output_width: u32, output_height: u32 },
    CreateSurface { surface_id: u16, width: u16, height: u16 },
    DeleteSurface { surface_id: u16 },
    MapSurfaceToOutput { surface_id: u16, output_x: u32, output_y: u32 },
    StartFrame,
    WireToSurface1 { surface_id: u16, codec: Codec, area: Area, data: Seq<u8> },
    WireToSurface2 { surface_id: u16, context: u32, data: Seq<u8> },
    DeleteEncodingContext { context: u32 },
    EndFrame { frame_id: u32 },
    Other,
}

impl View for Pdu {
    type V = PduView;

    open spec fn view(&self) -> PduView {
        match self {
            Pdu::CapabilitiesConfirm { version, data } => PduView::CapabilitiesConfirm {
                version: *version,
                data: data@,
            },
            Pdu::ResetGraphics { output_width, output_height } => PduView::ResetGraphics {
                output_width: *output_width,
                output_height: *output_height,
            },
            Pdu::CreateSurface { surface_id, width, height } => PduView::CreateSurface {
                surface_id: *surface_id,
                width: *width,
                height: *height,
            },
            Pdu::DeleteSurface { surface_id } => PduView::DeleteSurface { surface_id: *surface_id },
            Pdu::MapSurfaceToOutput { surface_id, output_x, output_y } => {
                PduView::MapSurfaceToOutput {
                    surface_id: *surface_id,
                    output_x: *output_x,
                    output_y: *output_y,
                }
            },
            Pdu::StartFrame => PduView::StartFrame,
            Pdu::WireToSurface1 { surface_id, codec, area, data } => PduView::WireToSurface1 {
                surface_id: *surface_id,
                codec: *codec,
                area: *area,
                data: data@,
            },
            Pdu::WireToSurface2 { surface_id, context, data } => PduView::WireToSurface2 {
                surface_id: *surface_id,
                context: *context,
                data: data@,
            },
            Pdu::DeleteEncodingContext { context } => PduView::DeleteEncodingContext {
                context: *context,
            },
            Pdu::EndFrame { frame_id } => PduView::EndFrame { frame_id: *frame_id },
            Pdu::Other => PduView::Other,
        }
    }
}

/// The contents of a list of messages.
pub open spec fn pdu_views(pdus: Seq<Pdu>) -> Seq<PduView> {
    pdus.map_values(|pdu: Pdu| pdu@)
}

/// Why a payload of the graphics channel could not be handled.
#[derive(Debug)]
pub enum EgfxError {
    /// The payload has not the shape of bulk data.
    BulkShape,
    /// The decompressor refused the payload.
    Bulk(String),
    /// A message that resets the graphics is cut.
    ShortReset,
    /// A message could not be read.
    Pdu(String),
    /// The wrapper of an AVC420 bitmap stream could not be read.
    Avc420(String),
}

/// The content of an [`EgfxError`].
pub enum EgfxErrorView {
    BulkShape,
    Bulk(Seq<char>),
    ShortReset,
    Pdu(Seq<char>),
    Avc420(Seq<char>),
}

impl View for EgfxError {
    type V = EgfxErrorView;

    open spec fn view(&self) -> EgfxErrorView {
        match self {
            EgfxError::BulkShape => EgfxErrorView::BulkShape,
            EgfxError::Bulk(text) => EgfxErrorView::Bulk(text@),
            EgfxError::ShortReset => EgfxErrorView::ShortReset,
            EgfxError::Pdu(text) => EgfxErrorView::Pdu(text@),
            EgfxError::Avc420(text) => EgfxErrorView::Avc420(text@),
        }
    }
}

/// A message as `ironrdp-egfx` has it; nothing of it is visible here.
#[verifier::external_type_specification]
#[verifier::external_body]
pub struct ExGfxPdu(ironrdp_egfx::pdu::GfxPdu);

/// What a message holds, as far as the gateway acts on it.
pub uninterp spec fn pdu_content(pdu: GfxPdu) -> PduView;

/// What decoding a [`GfxPdu`] from the start of `bytes` gives: the message and the
/// number of bytes that it takes, or the text of the error.
pub uninterp spec fn pdu_read(bytes: Seq<u8>) -> Result<(PduView, nat), Seq<char>>;

/// Whether `bytes` start with a message that resets the graphics, of which less
/// than its 340 bytes are there.
pub open spec fn short_reset(bytes: Seq<u8>) -> bool {
    2 <= bytes.len() < 340 && crate::bytes::le_value(bytes.take(2)) == 0xe
}

/// The number in the two bytes at `offset`.
pub open spec fn u16_at(bytes: Seq<u8>, offset: int) -> u16 {
    crate::bytes::le_field(bytes, offset, 2) as u16
}

/// The number in the four bytes at `offset`.
pub open spec fn u32_at(bytes: Seq<u8>, offset: int) -> u32 {
    crate::bytes::le_field(bytes, offset, 4) as u32
}

/// Whether `bytes` start with the header of the message `number`, and the first
/// `size` bytes of the message are there.
pub open spec fn begins(bytes: Seq<u8>, number: nat, size: nat) -> bool {
    bytes.len() >= size && crate::bytes::le_field(bytes, 0, 2) == number
        && crate::bytes::le_field(bytes, 4, 4) >= 8
}

/// Whether the byte at `offset` is a known pixel format.
pub open spec fn has_format(bytes: Seq<u8>, offset: int) -> bool {
    0x20 <= bytes[offset] <= 0x21
}

/// The bitmap message at the start of `bytes`: the surface, the codec, a pixel format,
/// the area, and the data behind its length.
pub open spec fn wire1(bytes: Seq<u8>) -> Option<(PduView, nat)> {
    let codec = Codec::spec_from_code(crate::bytes::le_field(bytes, 10, 2));
    let length = crate::bytes::le_field(bytes, 21, 4);
    if begins(bytes, 0x1, 25 + length) && codec is Some && has_format(bytes, 12) {
        let area = Area {
            left: u16_at(bytes, 13),
            top: u16_at(bytes, 15),
            right: u16_at(bytes, 17),
            bottom: u16_at(bytes, 19),
        };
        let data = bytes.subrange(25, 25 + length as int);
        let surface_id = u16_at(bytes, 8);
        Some(
            (PduView::WireToSurface1 { surface_id, codec: codec->0, area, data }, 25 + length),
        )
    } else {
        None
    }
}

/// The progressive message at the start of `bytes`: the surface, the codec, the
/// context, a pixel format, and the data behind its length.
pub open spec fn wire2(bytes: Seq<u8>) -> Option<(PduView, nat)> {
    let length = crate::bytes::le_field(bytes, 17, 4);
    if begins(bytes, 0x2, 21 + length) && u16_at(bytes, 10) == 9 && has_format(bytes, 16) {
        let data = bytes.subrange(21, 21 + length as int);
        let surface_id = u16_at(bytes, 8);
        Some(
            (
                PduView::WireToSurface2 { surface_id, context: u32_at(bytes, 12), data },
                21 + length,
            ),
        )
    } else {
        None
    }
}

/// The confirmed capability set at the start of `bytes`: its version, and its body
/// behind the length.
pub open spec fn confirm(bytes: Seq<u8>) -> Option<(PduView, nat)> {
    let length = crate::bytes::le_field(bytes, 12, 4);
    if begins(bytes, 0x13, 16 + length) {
        let data = bytes.subrange(16, 16 + length as int);
        Some(
            (PduView::CapabilitiesConfirm { version: u32_at(bytes, 8), data }, 16 + length),
        )
    } else {
        None
    }
}

/// The message at the start of `bytes` that resets the graphics: the size of the
/// output, and at most sixteen monitors of twenty bytes, each with a flag at its end
/// that says whether it is the primary one. It is padded to 340 bytes.
pub open spec fn reset(bytes: Seq<u8>) -> Option<(PduView, nat)> {
    let output_width = u32_at(bytes, 8);
    let output_height = u32_at(bytes, 12);
    let monitors = u32_at(bytes, 16);
    if begins(bytes, 0xe, 340) && output_width <= 32_766 && output_height <= 32_766 && monitors
        <= 16 && (forall|i: int| 0 <= i < monitors ==> #[trigger] u32_at(bytes, 36 + 20 * i) <= 1) {
        Some((PduView::ResetGraphics { output_width, output_height }, 340))
    } else {
        None
    }
}

/// The message of fixed size without a list at the start of `bytes`.
pub open spec fn fixed(bytes: Seq<u8>) -> Option<(PduView, nat)> {
    if begins(bytes, 0x3, 14) {
        Some((PduView::DeleteEncodingContext { context: u32_at(bytes, 10) }, 14))
    } else if begins(bytes, 0x9, 15) && has_format(bytes, 14) {
        let surface_id = u16_at(bytes, 8);
        let width = u16_at(bytes, 10);
        Some((PduView::CreateSurface { surface_id, width, height: u16_at(bytes, 12) }, 15))
    } else if begins(bytes, 0xa, 10) {
        Some((PduView::DeleteSurface { surface_id: u16_at(bytes, 8) }, 10))
    } else if begins(bytes, 0xb, 16) {
        Some((PduView::StartFrame, 16))
    } else if begins(bytes, 0xc, 12) {
        Some((PduView::EndFrame { frame_id: u32_at(bytes, 8) }, 12))
    } else if begins(bytes, 0xf, 20) {
        let surface_id = u16_at(bytes, 8);
        let output_x = u32_at(bytes, 12);
        Some(
            (PduView::MapSurfaceToOutput { surface_id, output_x, output_y: u32_at(bytes, 16) }, 20),
        )
    } else {
        None
    }
}

/// The message at the start of `bytes` and the number of bytes that it takes, where
/// it is whole and one of those whose layout is written down here.
pub open spec fn laid_out(bytes: Seq<u8>) -> Option<(PduView, nat)> {
    if wire1(bytes) is Some {
        wire1(bytes)
    } else if wire2(bytes) is Some {
        wire2(bytes)
    } else if confirm(bytes) is Some {
        confirm(bytes)
    } else if reset(bytes) is Some {
        reset(bytes)
    } else {
        fixed(bytes)
    }
}

/// The message at the start of `bytes` and the number of bytes that it takes, or the
/// text of the error with which it is refused.
pub open spec fn message_at(bytes: Seq<u8>) -> Result<(PduView, nat), Seq<char>> {
    match laid_out(bytes) {
        Some(message) => Ok(message),
        None => pdu_read(bytes),
    }
}

/// Calls `decode_cursor` of `ironrdp-core` for the `GfxPdu` of `ironrdp-egfx` and
/// takes down how far its cursor went: at least over the header, and never past
/// the end. A message that resets the graphics is read with its padding, which the
/// decoder takes to be there. What a message holds and why it is refused is a
/// function of the bytes; [`laid_out`] says it of most messages that are whole.
#[verifier::external_body]
fn decode_pdu(bytes: &[u8]) -> (decoded: Result<(GfxPdu, usize), String>)
    requires
        !short_reset(bytes@),
    ensures
        match laid_out(bytes@) {
            Some((content, taken)) => decoded matches Ok((pdu, count)) && pdu_content(pdu)
                == content && count == taken,
            None => match pdu_read(bytes@) {
                Ok((content, taken)) => decoded matches Ok((pdu, count)) && pdu_content(pdu)
                    == content && count == taken && 8 <= count <= bytes@.len(),
                Err(text) => decoded matches Err(error) && error@ == text,
            },
        },
{
    let mut cursor = ReadCursor::new(bytes);
    match decode_cursor::<GfxPdu>(&mut cursor) {
        Ok(pdu) => Ok((pdu, cursor.pos())),
        Err(error) => Err(error.to_string()),
    }
}

/// The parts of a message that carries data.
enum DataPdu {
    Confirm(u32, Vec<u8>),
    Wire1(u16, u16, Area, Vec<u8>),
    Wire2(u16, u32, Vec<u8>),
}

/// Takes a `GfxPdu` of `ironrdp-egfx` that carries data apart, field by field, and
/// hands any other back. The codec is handed out as its number.
#[verifier::external_body]
fn data_pdu(pdu: GfxPdu) -> (parts: Result<DataPdu, GfxPdu>)
    ensures
        match pdu_content(pdu) {
            PduView::CapabilitiesConfirm { version, data } => parts matches Ok(
                DataPdu::Confirm(number, bytes),
            ) && number == version && bytes@ == data,
            PduView::WireToSurface1 { surface_id, codec, area, data } => parts matches Ok(
                DataPdu::Wire1(surface, code, place, bytes),
            ) && surface == surface_id && Codec::spec_from_code(code as nat) == Some(codec) && place
                == area && bytes@ == data,
            PduView::WireToSurface2 { surface_id, context, data } => parts matches Ok(
                DataPdu::Wire2(surface, number, bytes),
            ) && surface == surface_id && number == context && bytes@ == data,
            _ => parts == Err::<DataPdu, GfxPdu>(pdu),
        },
{
    match pdu {
        GfxPdu::CapabilitiesConfirm(p) => Ok(DataPdu::Confirm(p.0.version.0, p.0.data)),
        GfxPdu::WireToSurface1(p) => {
            let r = p.destination_rectangle;
            let area = Area { left: r.left, top: r.top, right: r.right, bottom: r.bottom };
            Ok(DataPdu::Wire1(p.surface_id, p.codec_id.into(), area, p.bitmap_data))
        },
        GfxPdu::WireToSurface2(p) => Ok(DataPdu::Wire2(p.surface_id, p.codec_context_id, p.bitmap_data)),
        other => Err(other),
    }
}

/// Takes a `GfxPdu` of `ironrdp-egfx` without data apart, field by field. The
/// messages that the gateway does not act on all become [`Pdu::Other`].
#[verifier::external_body]
fn plain_pdu(pdu: GfxPdu) -> (parts: Pdu)
    requires
        !(pdu_content(pdu) is CapabilitiesConfirm),
        !(pdu_content(pdu) is WireToSurface1),
        !(pdu_content(pdu) is WireToSurface2),
    ensures
        parts@ == pdu_content(pdu),
{
    match pdu {
        GfxPdu::ResetGraphics(p) => Pdu::ResetGraphics { output_width: p.width, output_height: p.height },
        GfxPdu::CreateSurface(p) => Pdu::CreateSurface { surface_id: p.surface_id, width: p.width, height: p.height },
        GfxPdu::DeleteSurface(p) => Pdu::DeleteSurface { surface_id: p.surface_id },
        GfxPdu::MapSurfaceToOutput(p) => Pdu::MapSurfaceToOutput { surface_id: p.surface_id, output_x: p.output_origin_x, output_y: p.output_origin_y },
        GfxPdu::StartFrame(_) => Pdu::StartFrame,
        GfxPdu::DeleteEncodingContext(p) => Pdu::DeleteEncodingContext { context: p.codec_context_id },
        GfxPdu::EndFrame(p) => Pdu::EndFrame { frame_id: p.frame_id },
        _ => Pdu::Other,
    }
}

/// The message that a `GfxPdu` holds.
fn convert(pdu: GfxPdu) -> (converted: Pdu)
    ensures
        converted@ == pdu_content(pdu),
{
    match data_pdu(pdu) {
        Ok(DataPdu::Confirm(version, data)) => Pdu::CapabilitiesConfirm { version, data },
        Ok(DataPdu::Wire1(surface_id, code, area, data)) => match Codec::from_code(code) {
            Some(codec) => Pdu::WireToSurface1 { surface_id, codec, area, data },
            None => Pdu::Other,
        },
        Ok(DataPdu::Wire2(surface_id, context, data)) => Pdu::WireToSurface2 {
            surface_id,
            context,
            data,
        },
        Err(pdu) => plain_pdu(pdu),
    }
}

/// The messages that follow each other in `bytes`, or why one of them is refused.
pub open spec fn pdus_in(bytes: Seq<u8>) -> Result<Seq<PduView>, EgfxErrorView>
    decreases bytes.len(),
{
    if bytes.len() == 0 {
        Ok(Seq::empty())
    } else if short_reset(bytes) {
        Err(EgfxErrorView::ShortReset)
    } else {
        match message_at(bytes) {
            Err(text) => Err(EgfxErrorView::Pdu(text)),
            Ok((content, taken)) => if 0 < taken <= bytes.len() {
                match pdus_in(bytes.skip(taken as int)) {
                    Err(error) => Err(error),
                    Ok(rest) => Ok(seq![content] + rest),
                }
            } else {
                Ok(seq![content])
            },
        }
    }
}

/// Reads the messages that follow each other in `bytes`.
pub fn read_pdus(bytes: &[u8]) -> (pdus: Result<Vec<Pdu>, EgfxError>)
    ensures
        match pdus_in(bytes@) {
            Ok(contents) => pdus matches Ok(pdus) && pdu_views(pdus@) == contents,
            Err(error) => pdus matches Err(found) && found@ == error,
        },
{
    let total: usize = bytes.len();
    let mut at: usize = 0;
    let mut pdus: Vec<Pdu> = Vec::new();
    proof {
        assert(bytes@.skip(0) =~= bytes@);
        assert(pdu_views(pdus@) =~= Seq::<PduView>::empty());
        if pdus_in(bytes@) is Ok {
            assert(pdu_views(pdus@) + pdus_in(bytes@)->Ok_0 =~= pdus_in(bytes@)->Ok_0);
        }
    }
    while at < total
        invariant
            at <= total,
            total == bytes@.len(),
            match pdus_in(bytes@.skip(at as int)) {
                Ok(rest) => pdus_in(bytes@) == Ok::<Seq<PduView>, EgfxErrorView>(
                    pdu_views(pdus@) + rest,
                ),
                Err(error) => pdus_in(bytes@) == Err::<Seq<PduView>, EgfxErrorView>(error),
            },
        decreases total - at,
    {
        let rest = vstd::slice::slice_subrange(bytes, at, total);
        proof {
            assert(rest@ =~= bytes@.skip(at as int));
        }
        if 2 <= total - at && total - at < 340 && crate::bytes::read_le(rest, 0, 2) == 0xe {
            proof {
                assert(rest@.take(2) =~= rest@.subrange(0, 2));
            }
            return Err(EgfxError::ShortReset);
        }
        proof {
            if rest@.len() >= 2 {
                assert(rest@.take(2) =~= rest@.subrange(0, 2));
            }
        }
        match decode_pdu(rest) {
            Err(text) => {
                return Err(EgfxError::Pdu(text));
            },
            Ok((pdu, taken)) => {
                let ghost before = pdu_views(pdus@);
                let ghost content = pdu_content(pdu);
                pdus.push(convert(pdu));
                proof {
                    assert(pdu_views(pdus@) =~= before.push(content));
                    assert(rest@.skip(taken as int) =~= bytes@.skip(at + taken));
                    let tail = pdus_in(bytes@.skip(at + taken));
                    if tail is Ok {
                        assert(before + (seq![content] + tail->Ok_0) =~= pdu_views(pdus@)
                            + tail->Ok_0);
                    }
                }
                at = at + taken;
            },
        }
    }
    proof {
        assert(bytes@.skip(total as int).len() == 0);
        assert(pdu_views(pdus@) + Seq::<PduView>::empty() =~= pdu_views(pdus@));
    }
    Ok(pdus)
}

/// The version of the capability set that says that AVC420 is to be had.
pub const CAPABILITY_V8_1: u32 = 0x8_0105;

/// How many bytes the body of a capability set of a known version has at least.
pub open spec fn capability_size(version: u32) -> Option<nat> {
    if version == 0xa_0100 {
        Some(16)
    } else if version == 0x8_0004 || version == CAPABILITY_V8_1 || version == 0xa_0002 || version
        == 0xa_0200 || version == 0xa_0301 || version == 0xa_0400 || version == 0xa_0502 || version
        == 0xa_0600 || version == 0xa_0601 || version == 0xa_0701 {
        Some(4)
    } else {
        None
    }
}

/// The text of the error with which `RawCapabilitySet::parsed` refuses a body.
pub uninterp spec fn capability_error(version: u32, data: Seq<u8>) -> Seq<char>;

/// What a capability set is taken for: its version where that is known, nothing
/// where it is not, or the text of an error where its body is too short.
pub open spec fn capability_in(version: u32, data: Seq<u8>) -> Result<Option<u32>, Seq<char>> {
    match capability_size(version) {
        None => Ok(None),
        Some(size) => if data.len() >= size {
            Ok(Some(version))
        } else {
            Err(capability_error(version, data))
        },
    }
}

/// Calls `RawCapabilitySet::parsed` of `ironrdp-egfx` and takes down the version of
/// the set. It knows eleven versions, each with a least size of its body. Why it
/// refuses a body is text of its own, a function of the arguments.
#[verifier::external_body]
fn parse_capability(version: u32, data: &[u8]) -> (parsed: Result<Option<u32>, String>)
    ensures
        match capability_size(version) {
            None => parsed matches Ok(known) && known is None,
            Some(size) => if data@.len() >= size {
                parsed matches Ok(known) && known == Some(version)
            } else {
                parsed matches Err(error) && error@ == capability_error(version, data@)
            },
        },
{
    match RawCapabilitySet::new(CapabilityVersion(version), data.to_vec()).parsed() {
        Ok(set) => Ok(set.map(|set| set.version().0)),
        Err(error) => Err(error.to_string()),
    }
}

/// How the capability set of `version` is called when it was taken for `parsed`.
pub open spec fn label_of(version: u32, parsed: Result<Option<u32>, Seq<char>>) -> Seq<char> {
    match parsed {
        Ok(Some(known)) => if known == CAPABILITY_V8_1 {
            "V8.1"@
        } else {
            "CapabilityVersion("@ + crate::text::digits(known as nat, 10) + ")"@
        },
        Ok(None) => "unknown 0x"@ + crate::text::digits(version as nat, 16),
        Err(text) => "malformed ("@ + text + ")"@,
    }
}

/// The content of a parsed capability set.
pub open spec fn parsed_view(parsed: Result<Option<u32>, String>) -> Result<
    Option<u32>,
    Seq<char>,
> {
    match parsed {
        Ok(known) => Ok(known),
        Err(text) => Err(text@),
    }
}

/// How the capability set of `version` is called when it was taken for `parsed`.
pub fn capability_label(version: u32, parsed: Result<Option<u32>, String>) -> (label: String)
    ensures
        label@ == label_of(version, parsed_view(parsed)),
{
    match parsed {
        Ok(Some(known)) => {
            if known == CAPABILITY_V8_1 {
                "V8.1".to_owned()
            } else {
                let mut label = "CapabilityVersion(".to_owned();
                push_number(&mut label, known as u64, 10);
                label.append(")");
                label
            }
        },
        Ok(None) => {
            let mut label = "unknown 0x".to_owned();
            push_number(&mut label, version as u64, 16);
            label
        },
        Err(text) => {
            let mut label = "malformed (".to_owned();
            label.append(text.as_str());
            label.append(")");
            label
        },
    }
}

/// How the capability set of `version` with the body `data` is called.
pub fn capability_name(version: u32, data: &[u8]) -> (label: String)
    ensures
        label@ == label_of(version, capability_in(version, data@)),
{
    capability_label(version, parse_capability(version, data))
}

/// The codecs have these numbers, and no others.
pub proof fn law_codec_numbers(code: nat)
    ensures
        Codec::spec_from_code(code) == Some(Codec::Uncompressed) <==> code == 0,
        Codec::spec_from_code(code) == Some(Codec::RemoteFx) <==> code == 3,
        Codec::spec_from_code(code) == Some(Codec::ClearCodec) <==> code == 8,
        Codec::spec_from_code(code) == Some(Codec::Planar) <==> code == 10,
        Codec::spec_from_code(code) == Some(Codec::Avc420) <==> code == 11,
        Codec::spec_from_code(code) == Some(Codec::Alpha) <==> code == 12,
        Codec::spec_from_code(code) == Some(Codec::Avc444) <==> code == 14,
        Codec::spec_from_code(code) == Some(Codec::Avc444v2) <==> code == 15,
{
}

/// The name of a codec is how it is written.
pub proof fn law_codec_names()
    ensures
        Codec::Uncompressed.spec_name() == "Uncompressed"@,
        Codec::RemoteFx.spec_name() == "RemoteFx"@,
        Codec::ClearCodec.spec_name() == "ClearCodec"@,
        Codec::Planar.spec_name() == "Planar"@,
        Codec::Avc420.spec_name() == "Avc420"@,
        Codec::Alpha.spec_name() == "Alpha"@,
        Codec::Avc444.spec_name() == "Avc444"@,
        Codec::Avc444v2.spec_name() == "Avc444v2"@,
{
}

/// The content of messages is what they carry.
pub proof fn law_message_content(pdus: Seq<Pdu>, at: int)
    requires
        0 <= at < pdus.len(),
    ensures
        pdu_views(pdus).len() == pdus.len(),
        match pdus[at] {
            Pdu::CapabilitiesConfirm { version, data } => pdu_views(pdus)[at]
                == PduView::CapabilitiesConfirm { version, data: data@ },
            Pdu::ResetGraphics { output_width, output_height } => pdu_views(pdus)[at]
                == PduView::ResetGraphics { output_width, output_height },
            Pdu::CreateSurface { surface_id, width, height } => pdu_views(pdus)[at]
                == PduView::CreateSurface { surface_id, width, height },
            Pdu::DeleteSurface { surface_id } => pdu_views(pdus)[at] == PduView::DeleteSurface {
                surface_id,
            },
            Pdu::MapSurfaceToOutput { surface_id, output_x, output_y } => pdu_views(pdus)[at]
                == PduView::MapSurfaceToOutput { surface_id, output_x, output_y },
            Pdu::StartFrame => pdu_views(pdus)[at] == PduView::StartFrame,
            Pdu::WireToSurface1 { surface_id, codec, area, data } => pdu_views(pdus)[at]
                == PduView::WireToSurface1 { surface_id, codec, area, data: data@ },
            Pdu::WireToSurface2 { surface_id, context, data } => pdu_views(pdus)[at]
                == PduView::WireToSurface2 { surface_id, context, data: data@ },
            Pdu::DeleteEncodingContext { context } => pdu_views(pdus)[at]
                == PduView::DeleteEncodingContext { context },
            Pdu::EndFrame { frame_id } => pdu_views(pdus)[at] == PduView::EndFrame { frame_id },
            Pdu::Other => pdu_views(pdus)[at] == PduView::Other,
        },
{
}

/// Messages are read one behind the other: the first one, as long as it is, and then those
/// in the bytes behind it. Where one of them is refused, all are.
pub proof fn law_messages_are_read_in_order(bytes: Seq<u8>, content: PduView, taken: nat)
    requires
        message_at(bytes) == Ok::<(PduView, nat), Seq<char>>((content, taken)),
        0 < taken <= bytes.len(),
        bytes.len() < 340 ==> !(bytes.len() >= 2 && bytes[0] == 0xe && bytes[1] == 0),
    ensures
        match pdus_in(bytes.skip(taken as int)) {
            Ok(rest) => pdus_in(bytes) matches Ok(all) && all.len() == rest.len() + 1 && all[0]
                == content && all.skip(1) == rest,
            Err(error) => pdus_in(bytes) == Err::<Seq<PduView>, EgfxErrorView>(error),
        },
{
    lemma_short_reset(bytes);
    if let Ok(rest) = pdus_in(bytes.skip(taken as int)) {
        assert((seq![content] + rest).skip(1) =~= rest);
    }
}

/// No bytes hold no messages; bytes that begin with a message that is refused are refused
/// with its error, and those that begin with a cut reset are refused for that.
pub proof fn law_unreadable_bytes_are_refused(bytes: Seq<u8>)
    ensures
        bytes.len() == 0 ==> pdus_in(bytes) == Ok::<Seq<PduView>, EgfxErrorView>(Seq::empty()),
        2 <= bytes.len() < 340 && bytes[0] == 0xe && bytes[1] == 0 ==> pdus_in(bytes) == Err::<
            Seq<PduView>,
            EgfxErrorView,
        >(EgfxErrorView::ShortReset),
        bytes.len() > 0 && !(2 <= bytes.len() < 340 && bytes[0] == 0xe && bytes[1] == 0) && (
        message_at(bytes) is Err) ==> pdus_in(bytes) == Err::<Seq<PduView>, EgfxErrorView>(
            EgfxErrorView::Pdu(message_at(bytes)->Err_0),
        ),
{
    lemma_short_reset(bytes);
}

/// A cut reset is told by its first two bytes and its length.
proof fn lemma_short_reset(bytes: Seq<u8>)
    ensures
        short_reset(bytes) <==> 2 <= bytes.len() < 340 && bytes[0] == 0xe && bytes[1] == 0,
{
    if bytes.len() >= 2 {
        crate::bytes::law_bytes_have_weights(bytes.take(2));
    }
}

/// The fields of short messages stand at these places, least significant byte first,
/// behind a head of eight bytes with the number of the message and a length.
pub proof fn law_short_messages_are_read(bytes: Seq<u8>)
    requires
        bytes.len() >= 20,
        bytes[1] == 0,
        bytes[4] >= 8,
    ensures
        ({
            let a = (bytes[8] + 0x100 * bytes[9]) as u16;
            let b = (bytes[10] + 0x100 * bytes[11]) as u16;
            let c = (bytes[12] + 0x100 * bytes[13]) as u16;
            let first = (bytes[8] + 0x100 * bytes[9] + 0x1_0000 * bytes[10] + 0x100_0000
                * bytes[11]) as u32;
            let x = (bytes[12] + 0x100 * bytes[13] + 0x1_0000 * bytes[14] + 0x100_0000
                * bytes[15]) as u32;
            let y = (bytes[16] + 0x100 * bytes[17] + 0x1_0000 * bytes[18] + 0x100_0000
                * bytes[19]) as u32;
            &&& bytes[0] == 0x9 && 0x20 <= bytes[14] <= 0x21 ==> message_at(bytes) == Ok::<
                (PduView, nat),
                Seq<char>,
            >((PduView::CreateSurface { surface_id: a, width: b, height: c }, 15))
            &&& bytes[0] == 0xa ==> message_at(bytes) == Ok::<(PduView, nat), Seq<char>>(
                (PduView::DeleteSurface { surface_id: a }, 10),
            )
            &&& bytes[0] == 0xb ==> message_at(bytes) == Ok::<(PduView, nat), Seq<char>>(
                (PduView::StartFrame, 16),
            )
            &&& bytes[0] == 0xc ==> message_at(bytes) == Ok::<(PduView, nat), Seq<char>>(
                (PduView::EndFrame { frame_id: first }, 12),
            )
            &&& bytes[0] == 0xf ==> message_at(bytes) == Ok::<(PduView, nat), Seq<char>>(
                (PduView::MapSurfaceToOutput { surface_id: a, output_x: x, output_y: y }, 20),
            )
        }),
{
    crate::bytes::law_bytes_have_weights(bytes.subrange(0, 2));
    crate::bytes::law_bytes_have_weights(bytes.subrange(4, 8));
    crate::bytes::law_bytes_have_weights(bytes.subrange(8, 10));
    crate::bytes::law_bytes_have_weights(bytes.subrange(10, 12));
    crate::bytes::law_bytes_have_weights(bytes.subrange(12, 14));
    crate::bytes::law_bytes_have_weights(bytes.subrange(8, 12));
    crate::bytes::law_bytes_have_weights(bytes.subrange(12, 16));
    crate::bytes::law_bytes_have_weights(bytes.subrange(16, 20));
}

/// How a capability set is told from what it was taken for.
pub proof fn law_capability_labels(version: u32, known: u32, text: Seq<char>)
    ensures
        label_of(version, Ok(Some(0x8_0105u32))) == "V8.1"@,
        known != 0x8_0105 ==> label_of(version, Ok(Some(known))) == "CapabilityVersion("@
            + crate::text::digits(known as nat, 10) + ")"@,
        label_of(version, Ok(None)) == "unknown 0x"@ + crate::text::digits(version as nat, 16),
        label_of(version, Err(text)) == "malformed ("@ + text + ")"@,
{
}

/// The content of an error is what it says.
pub proof fn law_error_content(error: EgfxError)
    ensures
        match error {
            EgfxError::BulkShape => error@ == EgfxErrorView::BulkShape,
            EgfxError::Bulk(text) => error@ == EgfxErrorView::Bulk(text@),
            EgfxError::ShortReset => error@ == EgfxErrorView::ShortReset,
            EgfxError::Pdu(text) => error@ == EgfxErrorView::Pdu(text@),
            EgfxError::Avc420(text) => error@ == EgfxErrorView::Avc420(text@),
        },
{
}

} // verus!
