//! What holds of the graphics channel as a whole.

use crate::outcome::{
    BitmapRegion, EgfxView, NoticeView, Outcome, QueueDepth, Response, SurfaceInfo,
};
use crate::pdu::{Area, Codec, EgfxErrorView, PduView};
use crate::protocol::{ControlView, EventView, PacketView, VideoCodec, VIDEO_HEADER_LEN};
use vstd::prelude::*;

verus! {

/// An AVC420 bitmap stream: a wrapper of `count` regions, and the access unit.
pub open spec fn avc420_stream(count: u32, regions: Seq<u8>, unit: Seq<u8>) -> Seq<u8> {
    crate::bytes::le_bytes(count as nat, 4) + regions + unit
}

/// Removing the wrapper of an AVC420 bitmap stream leaves the access unit.
pub proof fn law_wrapper_is_removed(count: u32, regions: Seq<u8>, unit: Seq<u8>)
    requires
        regions.len() == 10 * count,
    ensures
        crate::avc::unwrapped(avc420_stream(count, regions, unit)) == Some(unit),
{
    let stream = avc420_stream(count, regions, unit);
    crate::bytes::lemma_le_bytes_len(count as nat, 4);
    crate::bytes::lemma_le_ranges();
    crate::bytes::law_le_bytes_read_back(count as nat, 4);
    assert(stream.take(4) =~= crate::bytes::le_bytes(count as nat, 4));
    assert(stream.skip(4 + 10 * count as int) =~= unit);
}

/// The picture that an AVC420 bitmap makes.
pub open spec fn avc420_picture(
    state: EgfxView,
    surface_id: u16,
    area: Area,
    unit: Seq<u8>,
) -> PacketView {
    PacketView {
        codec: VideoCodec::Avc420,
        key_frame: crate::avc::has_idr(unit, 0),
        timestamp_us: 0,
        surface_id,
        x: area.left,
        y: area.top,
        width: crate::outcome::cut_length(area.left, area.right),
        height: crate::outcome::cut_length(area.top, area.bottom),
        output_x: state.surface(surface_id).output_x,
        output_y: state.surface(surface_id).output_y,
        data: unit,
    }
}

/// An H.264 access unit reaches the browser as it is: an AVC420 bitmap makes one
/// picture, and whatever its timestamp, what stands behind the header of the
/// encoded packet is the access unit, byte for byte.
pub proof fn law_access_unit_passes_unchanged(
    state: EgfxView,
    surface_id: u16,
    area: Area,
    count: u32,
    regions: Seq<u8>,
    unit: Seq<u8>,
    timestamp_us: u64,
)
    requires
        regions.len() == 10 * count,
    ensures
        crate::outcome::pdu_outcome(
            state,
            PduView::WireToSurface1 {
                surface_id,
                codec: Codec::Avc420,
                area,
                data: avc420_stream(count, regions, unit),
            },
        ) == (
            Outcome::event(
                state,
                EventView::Video(avc420_picture(state, surface_id, area, unit)),
            ),
            Ok::<Option<Response>, EgfxErrorView>(None),
        ),
        (PacketView {
            timestamp_us,
            ..avc420_picture(state, surface_id, area, unit)
        }).encoded().skip(VIDEO_HEADER_LEN as int) == unit,
{
    law_wrapper_is_removed(count, regions, unit);
    let packet = PacketView { timestamp_us, ..avc420_picture(state, surface_id, area, unit) };
    crate::protocol::lemma_header_len(packet);
    assert(packet.encoded().skip(VIDEO_HEADER_LEN as int) =~= unit);
}

/// An AVC420 bitmap message in bytes, with `length` in its header.
pub open spec fn wire1_message(
    length: u32,
    surface_id: u16,
    format: u8,
    area: Area,
    data: Seq<u8>,
) -> Seq<u8> {
    crate::bytes::le_bytes(1, 2) + crate::bytes::le_bytes(0, 2) + crate::bytes::le_bytes(
        length as nat,
        4,
    ) + crate::bytes::le_bytes(surface_id as nat, 2) + crate::bytes::le_bytes(0xb, 2)
        + seq![format] + crate::bytes::le_bytes(area.left as nat, 2) + crate::bytes::le_bytes(
        area.top as nat,
        2,
    ) + crate::bytes::le_bytes(area.right as nat, 2) + crate::bytes::le_bytes(
        area.bottom as nat,
        2,
    ) + crate::bytes::le_bytes(data.len(), 4) + data
}

/// An AVC420 bitmap message is read back from its bytes, whatever length, of eight or
/// more, its header gives.
pub proof fn law_bitmap_message_reads_back(
    length: u32,
    surface_id: u16,
    format: u8,
    area: Area,
    data: Seq<u8>,
)
    requires
        length >= 8,
        0x20 <= format <= 0x21,
        data.len() <= u32::MAX,
    ensures
        crate::pdu::message_at(wire1_message(length, surface_id, format, area, data)) == Ok::<
            (PduView, nat),
            Seq<char>,
        >(
            (
                PduView::WireToSurface1 { surface_id, codec: Codec::Avc420, area, data },
                wire1_message(length, surface_id, format, area, data).len(),
            ),
        ),
{
    let bytes = wire1_message(length, surface_id, format, area, data);
    crate::bytes::lemma_le_ranges();
    crate::bytes::lemma_le_bytes_len(1, 2);
    crate::bytes::lemma_le_bytes_len(0, 2);
    crate::bytes::lemma_le_bytes_len(length as nat, 4);
    crate::bytes::lemma_le_bytes_len(surface_id as nat, 2);
    crate::bytes::lemma_le_bytes_len(0xb, 2);
    crate::bytes::lemma_le_bytes_len(area.left as nat, 2);
    crate::bytes::lemma_le_bytes_len(area.top as nat, 2);
    crate::bytes::lemma_le_bytes_len(area.right as nat, 2);
    crate::bytes::lemma_le_bytes_len(area.bottom as nat, 2);
    crate::bytes::lemma_le_bytes_len(data.len(), 4);
    assert(bytes.subrange(0, 2) =~= crate::bytes::le_bytes(1, 2));
    assert(bytes.subrange(4, 8) =~= crate::bytes::le_bytes(length as nat, 4));
    assert(bytes.subrange(8, 10) =~= crate::bytes::le_bytes(surface_id as nat, 2));
    assert(bytes.subrange(10, 12) =~= crate::bytes::le_bytes(0xb, 2));
    assert(bytes.subrange(13, 15) =~= crate::bytes::le_bytes(area.left as nat, 2));
    assert(bytes.subrange(15, 17) =~= crate::bytes::le_bytes(area.top as nat, 2));
    assert(bytes.subrange(17, 19) =~= crate::bytes::le_bytes(area.right as nat, 2));
    assert(bytes.subrange(19, 21) =~= crate::bytes::le_bytes(area.bottom as nat, 2));
    assert(bytes.subrange(21, 25) =~= crate::bytes::le_bytes(data.len(), 4));
    crate::bytes::law_le_bytes_read_back(1, 2);
    crate::bytes::law_le_bytes_read_back(length as nat, 4);
    crate::bytes::law_le_bytes_read_back(surface_id as nat, 2);
    crate::bytes::law_le_bytes_read_back(0xb, 2);
    crate::bytes::law_le_bytes_read_back(area.left as nat, 2);
    crate::bytes::law_le_bytes_read_back(area.top as nat, 2);
    crate::bytes::law_le_bytes_read_back(area.right as nat, 2);
    crate::bytes::law_le_bytes_read_back(area.bottom as nat, 2);
    crate::bytes::law_le_bytes_read_back(data.len(), 4);
    assert(bytes.subrange(25, 25 + data.len() as int) =~= data);
}

/// From the payload to the picture: where a payload unfolds to one AVC420 bitmap
/// message, the channel makes exactly the picture of its access unit.
pub proof fn law_payload_to_picture(
    state: EgfxView,
    payload: Seq<u8>,
    length: u32,
    surface_id: u16,
    format: u8,
    area: Area,
    count: u32,
    regions: Seq<u8>,
    unit: Seq<u8>,
)
    requires
        crate::zgfx::extent(payload, crate::codecs::window_position(state.bulk)) is Some,
        crate::codecs::unfolding(state.bulk, payload) == Ok::<Seq<u8>, Seq<char>>(
            wire1_message(
                length,
                surface_id,
                format,
                area,
                avc420_stream(count, regions, unit),
            ),
        ),
        length >= 8,
        0x20 <= format <= 0x21,
        regions.len() == 10 * count,
        4 + regions.len() + unit.len() <= u32::MAX,
    ensures
        crate::outcome::payload_outcome(state, payload) == (
            Outcome::event(
                EgfxView { bulk: state.bulk.push(payload), ..state },
                EventView::Video(avc420_picture(state, surface_id, area, unit)),
            ),
            Ok::<Seq<Response>, EgfxErrorView>(Seq::empty()),
        ),
{
    let data = avc420_stream(count, regions, unit);
    let bytes = wire1_message(length, surface_id, format, area, data);
    let content = PduView::WireToSurface1 { surface_id, codec: Codec::Avc420, area, data };
    let fed = EgfxView { bulk: state.bulk.push(payload), ..state };
    crate::bytes::lemma_le_bytes_len(count as nat, 4);
    law_bitmap_message_reads_back(length, surface_id, format, area, data);
    law_access_unit_passes_unchanged(fed, surface_id, area, count, regions, unit, 0);
    assert(avc420_picture(fed, surface_id, area, unit) == avc420_picture(
        state,
        surface_id,
        area,
        unit,
    ));
    crate::bytes::lemma_le_bytes_len(1, 2);
    crate::bytes::lemma_le_ranges();
    crate::bytes::law_le_bytes_read_back(1, 2);
    assert(bytes.take(2) =~= crate::bytes::le_bytes(1, 2));
    assert(bytes.len() > 0);
    assert(bytes.skip(bytes.len() as int).len() == 0);
    assert(seq![content] + Seq::<PduView>::empty() =~= seq![content]);
    reveal_with_fuel(crate::pdu::pdus_in, 2);
    assert(crate::pdu::pdus_in(bytes) == Ok::<Seq<PduView>, EgfxErrorView>(seq![content]));
    assert(seq![content].skip(1) =~= Seq::<PduView>::empty());
    reveal_with_fuel(crate::outcome::pdus_outcome, 2);
    let first = crate::outcome::pdu_outcome(fed, content).0;
    assert(first.followed_by(Outcome::silent(first.state)) =~= first);
    assert(Seq::<Response>::empty() + Seq::<Response>::empty() =~= Seq::<Response>::empty());
}

/// Bytes that are put into a single segment as they are can be unfolded, whatever
/// came before, and unfold to themselves.
pub proof fn law_plain_segment_unfolds(history: Seq<Seq<u8>>, bytes: Seq<u8>)
    requires
        bytes.len() <= crate::zgfx::OUTPUT_LIMIT,
    ensures
        crate::zgfx::extent(
            seq![0xe0u8, 0x04u8] + bytes,
            crate::codecs::window_position(history),
        ) is Some,
        crate::codecs::unfolding(history, seq![0xe0u8, 0x04u8] + bytes) == Ok::<
            Seq<u8>,
            Seq<char>,
        >(bytes),
{
    let payload = seq![0xe0u8, 0x04u8] + bytes;
    let segment = payload.skip(1);
    assert(segment.skip(1) =~= bytes);
    assert(payload.skip(2) =~= bytes);
    assert(crate::zgfx::segments(payload) == Some(seq![segment]));
    assert(seq![segment].skip(1) =~= Seq::<Seq<u8>>::empty());
    reveal_with_fuel(crate::zgfx::segments_extent, 2);
}

/// A whole message that resets the graphics, within the limits of the format, resizes
/// the output to the size that it gives, and nothing else comes of it.
pub proof fn law_reset_message_resizes(state: EgfxView, bytes: Seq<u8>)
    requires
        bytes.len() == 340,
        crate::pdu::reset(bytes) is Some,
    ensures
        ({
            let width = crate::pdu::u32_at(bytes, 8);
            let height = crate::pdu::u32_at(bytes, 12);
            let pdu = PduView::ResetGraphics { output_width: width, output_height: height };
            &&& crate::pdu::pdus_in(bytes) == Ok::<Seq<PduView>, EgfxErrorView>(seq![pdu])
            &&& crate::outcome::pdu_outcome(state, pdu).0.events == seq![
                EventView::Control(ControlView::Resize { width, height }),
            ]
        }),
{
    let content = PduView::ResetGraphics {
        output_width: crate::pdu::u32_at(bytes, 8),
        output_height: crate::pdu::u32_at(bytes, 12),
    };
    assert(bytes.skip(340).len() == 0);
    reveal_with_fuel(crate::pdu::pdus_in, 2);
    assert(seq![content] + Seq::<PduView>::empty() =~= seq![content]);
}

/// The frames that end in `pdus`, in order.
pub open spec fn ended_frames(pdus: Seq<PduView>) -> Seq<u32>
    decreases pdus.len(),
{
    if pdus.len() == 0 {
        Seq::empty()
    } else {
        let rest = ended_frames(pdus.skip(1));
        match pdus[0] {
            PduView::EndFrame { frame_id } => seq![frame_id] + rest,
            _ => rest,
        }
    }
}

/// The frame that a response acknowledges.
pub open spec fn acknowledged(response: Response) -> Option<u32> {
    match response {
        Response::Acknowledge { frame_id, .. } => Some(frame_id),
        Response::Advertise { .. } => None,
    }
}

/// Whether `responses` acknowledge `frames`, one by one.
pub open spec fn acknowledges(responses: Seq<Response>, frames: Seq<u32>) -> bool {
    &&& responses.len() == frames.len()
    &&& forall|i: int|
        0 <= i < responses.len() ==> acknowledged(#[trigger] responses[i]) == Some(frames[i])
}

/// Each frame that ends is acknowledged, once, in order, and nothing else is
/// answered; the count of frames grows by their number.
pub proof fn law_frames_are_acknowledged(state: EgfxView, pdus: Seq<PduView>)
    requires
        crate::outcome::pdus_outcome(state, pdus).1 is Ok,
    ensures
        acknowledges(crate::outcome::pdus_outcome(state, pdus).1->Ok_0, ended_frames(pdus)),
        crate::outcome::pdus_outcome(state, pdus).0.state.total_frames == (state.total_frames
            + ended_frames(pdus).len()) % 0x1_0000_0000,
    decreases pdus.len(),
{
    if pdus.len() > 0 {
        let (first, answer) = crate::outcome::pdu_outcome(state, pdus[0]);
        law_frames_are_acknowledged(first.state, pdus.skip(1));
        lemma_only_end_frame_answers(state, pdus[0]);
    }
}

/// Only the end of a frame is answered, and only it changes the count of frames.
proof fn lemma_only_end_frame_answers(state: EgfxView, pdu: PduView)
    ensures
        match pdu {
            PduView::EndFrame { frame_id } => {
                &&& crate::outcome::pdu_outcome(state, pdu).1 matches Ok(Some(response))
                &&& acknowledged(response) == Some(frame_id)
                &&& crate::outcome::pdu_outcome(state, pdu).0.state.total_frames == (
                state.total_frames + 1) % 0x1_0000_0000
            },
            _ => {
                &&& crate::outcome::pdu_outcome(state, pdu).1 matches Ok(answer) ==> answer is None
                &&& crate::outcome::pdu_outcome(state, pdu).0.state.total_frames
                    == state.total_frames
            },
        },
{
}

/// A frame that begins and ends leaves the queue as it was, as long as it could be
/// counted.
pub proof fn law_frame_leaves_queue(state: EgfxView, frame_id: u32)
    requires
        state.queued_frames < u32::MAX,
    ensures
        crate::outcome::pdus_outcome(
            state,
            seq![PduView::StartFrame, PduView::EndFrame { frame_id }],
        ).0.state.queued_frames == state.queued_frames,
{
    let pdus = seq![PduView::StartFrame, PduView::EndFrame { frame_id }];
    assert(pdus.skip(1) =~= seq![PduView::EndFrame { frame_id }]);
    assert(pdus.skip(1).skip(1) =~= Seq::<PduView>::empty());
    reveal_with_fuel(crate::outcome::pdus_outcome, 3);
}

/// Whether `event` is a warning.
pub open spec fn is_warning(event: EventView) -> bool {
    event matches EventView::Control(message) && message is Warning
}

/// How many of `events` are warnings.
pub open spec fn warnings(events: Seq<EventView>) -> nat
    decreases events.len(),
{
    if events.len() == 0 {
        0
    } else {
        warnings(events.drop_last()) + if is_warning(events.last()) {
            1nat
        } else {
            0nat
        }
    }
}

/// How many warnings about codecs a channel has left.
pub open spec fn warnings_left(state: EgfxView) -> nat {
    (if state.warned_unsupported_codec {
        0nat
    } else {
        1nat
    }) + (if state.warned_progressive_codec {
        0nat
    } else {
        1nat
    })
}

/// The warnings of two runs of events.
proof fn lemma_warnings_join(first: Seq<EventView>, second: Seq<EventView>)
    ensures
        warnings(first + second) == warnings(first) + warnings(second),
    decreases second.len(),
{
    if second.len() == 0 {
        assert(first + second =~= first);
    } else {
        assert((first + second).drop_last() =~= first + second.drop_last());
        lemma_warnings_join(first, second.drop_last());
    }
}

/// Whatever one message does, it uses up a warning for each that comes out.
proof fn lemma_message_warnings(state: EgfxView, pdu: PduView)
    ensures
        warnings(crate::outcome::pdu_outcome(state, pdu).0.events) + warnings_left(
            crate::outcome::pdu_outcome(state, pdu).0.state,
        ) == warnings_left(state),
{
    let outcome = crate::outcome::pdu_outcome(state, pdu).0;
    reveal_with_fuel(warnings, 2);
    if pdu is WireToSurface2 {
        assert(outcome.events =~= crate::outcome::progressive_warning(state).events);
    }
    assert(outcome.events.len() <= 1);
    assert(outcome.events.len() == 1 ==> outcome.events.drop_last() =~= Seq::<EventView>::empty());
}

/// The browser is warned at most once of an unsupported codec and at most once of
/// progressive updates, however many messages follow.
pub proof fn law_codec_warnings_are_given_once(state: EgfxView, pdus: Seq<PduView>)
    ensures
        warnings(crate::outcome::pdus_outcome(state, pdus).0.events) + warnings_left(
            crate::outcome::pdus_outcome(state, pdus).0.state,
        ) == warnings_left(state),
    decreases pdus.len(),
{
    reveal_with_fuel(warnings, 1);
    if pdus.len() > 0 {
        let (first, answer) = crate::outcome::pdu_outcome(state, pdus[0]);
        lemma_message_warnings(state, pdus[0]);
        if answer is Ok {
            let rest = crate::outcome::pdus_outcome(first.state, pdus.skip(1)).0;
            law_codec_warnings_are_given_once(first.state, pdus.skip(1));
            lemma_warnings_join(first.events, rest.events);
        }
    }
}

/// There is no renderer to fall back on: whatever a progressive update holds, no
/// picture comes of it. The first one is told to the browser, those behind it are not,
/// and nothing but that is remembered.
pub proof fn law_progressive_is_told_and_not_rendered(
    state: EgfxView,
    surface_id: u16,
    context: u32,
    data: Seq<u8>,
)
    ensures
        ({
            let (outcome, answer) = crate::outcome::pdu_outcome(
                state,
                PduView::WireToSurface2 { surface_id, context, data },
            );
            let warning = EventView::Control(
                ControlView::Warning {
                    message: "server selected RemoteFX Progressive instead of AVC420"@,
                },
            );
            &&& answer == Ok::<Option<Response>, EgfxErrorView>(None)
            &&& outcome.events == if state.warned_progressive_codec {
                Seq::empty()
            } else {
                seq![warning]
            }
            &&& outcome.state == EgfxView { warned_progressive_codec: true, ..state }
        }),
{
    let outcome = crate::outcome::update_outcome(state, surface_id);
    assert(outcome.events =~= crate::outcome::progressive_warning(state).events);
}

/// Pictures are made of bitmaps only: a message that makes one is an AVC420 or a
/// ClearCodec bitmap.
pub proof fn law_pictures_come_of_bitmaps(state: EgfxView, pdu: PduView, at: int)
    requires
        0 <= at < crate::outcome::pdu_outcome(state, pdu).0.events.len(),
        crate::outcome::pdu_outcome(state, pdu).0.events[at] is Video,
    ensures
        pdu matches PduView::WireToSurface1 { codec, .. } && (codec == Codec::Avc420 || codec
            == Codec::ClearCodec),
{
}

/// Only an AVC420 bitmap whose wrapper is cut fails; whatever else goes wrong with a
/// message, the messages behind it are still handled.
pub proof fn law_only_cut_wrappers_fail(state: EgfxView, pdu: PduView)
    ensures
        crate::outcome::pdu_outcome(state, pdu).1 is Err <==> (pdu matches PduView::WireToSurface1 {
            codec,
            data,
            ..
        } && codec == Codec::Avc420 && crate::avc::unwrapped(data) is None),
        crate::outcome::pdu_outcome(state, pdu).1 matches Err(error) ==> error is Avc420
            && crate::outcome::pdu_outcome(state, pdu).0 == Outcome::silent(state),
{
}

/// Messages fail only at the wrapper of an AVC420 bitmap.
proof fn lemma_messages_fail_at_wrappers(state: EgfxView, pdus: Seq<PduView>)
    ensures
        crate::outcome::pdus_outcome(state, pdus).1 matches Err(error) ==> error is Avc420,
    decreases pdus.len(),
{
    if pdus.len() > 0 {
        let (first, answer) = crate::outcome::pdu_outcome(state, pdus[0]);
        law_only_cut_wrappers_fail(state, pdus[0]);
        if answer is Ok {
            lemma_messages_fail_at_wrappers(first.state, pdus.skip(1));
        }
    }
}

/// A payload that cannot be unfolded or read does nothing: no event, no notice, and
/// nothing is forgotten or learned but that the decompressor was given it.
pub proof fn law_refused_payload_does_nothing(state: EgfxView, payload: Seq<u8>)
    requires
        crate::outcome::payload_outcome(state, payload).1 matches Err(error) && !(error is Avc420),
    ensures
        crate::outcome::payload_outcome(state, payload).0.events.len() == 0,
        crate::outcome::payload_outcome(state, payload).0.notices.len() == 0,
        (EgfxView {
            bulk: state.bulk,
            ..crate::outcome::payload_outcome(state, payload).0.state
        }) == state,
{
    let fed = EgfxView { bulk: state.bulk.push(payload), ..state };
    if let Ok(bytes) = crate::codecs::unfolding(state.bulk, payload) {
        if let Ok(pdus) = crate::pdu::pdus_in(bytes) {
            lemma_messages_fail_at_wrappers(fed, pdus);
        }
    }
}

/// A reset forgets every surface and what the decoder was given, and lets decoding
/// failures be noticed again; frames and warnings stay counted.
pub proof fn law_reset_forgets(state: EgfxView, output_width: u32, output_height: u32)
    ensures
        crate::outcome::pdu_outcome(
            state,
            PduView::ResetGraphics { output_width, output_height },
        ).0.state == (EgfxView {
            queued_frames: state.queued_frames,
            total_frames: state.total_frames,
            warned_unsupported_codec: state.warned_unsupported_codec,
            warned_progressive_codec: state.warned_progressive_codec,
            bulk: state.bulk,
            ..EgfxView::initial()
        }),
{
}

/// A picture lies where its surface was last mapped to, and mapping one surface
/// moves no other.
pub proof fn law_pictures_follow_mapping(
    state: EgfxView,
    surface_id: u16,
    output_x: u32,
    output_y: u32,
    other: u16,
)
    requires
        other != surface_id,
    ensures
        ({
            let mapped = crate::outcome::pdu_outcome(
                state,
                PduView::MapSurfaceToOutput { surface_id, output_x, output_y },
            ).0.state;
            &&& mapped.surface(surface_id) == SurfaceInfo {
                output_x,
                output_y,
                ..state.surface(surface_id)
            }
            &&& mapped.surface(other) == state.surface(other)
        }),
{
}

/// A surface that was deleted is as one that was never made; the others stay.
pub proof fn law_deleted_surface_is_gone(state: EgfxView, surface_id: u16, other: u16)
    requires
        other != surface_id,
    ensures
        ({
            let deleted = crate::outcome::pdu_outcome(
                state,
                PduView::DeleteSurface { surface_id },
            ).0.state;
            &&& deleted.surface(surface_id) == EgfxView::initial().surface(surface_id)
            &&& deleted.surface(other) == state.surface(other)
        }),
{
}

/// Whether `packet` lies where `state` shows the surface `surface_id`: at the place that
/// the surface was given, and at the origin where there is no such surface.
pub open spec fn lies_on_surface(packet: PacketView, state: EgfxView, surface_id: u16) -> bool {
    &&& packet.surface_id == surface_id
    &&& state.surfaces.contains_key(surface_id) ==> packet.output_x
        == state.surfaces[surface_id].output_x && packet.output_y
        == state.surfaces[surface_id].output_y
    &&& !state.surfaces.contains_key(surface_id) ==> packet.output_x == 0 && packet.output_y == 0
}

/// Any picture of a part of a surface carries the codec, the key frame flag, the part and
/// the data that it is made of, and lies where the surface is shown.
pub proof fn law_picture_carries_its_parts(
    state: EgfxView,
    codec: VideoCodec,
    key_frame: bool,
    surface_id: u16,
    region: BitmapRegion,
    data: Seq<u8>,
)
    ensures
        crate::outcome::picture(state, codec, key_frame, surface_id, region, data) matches
            EventView::Video(packet) && packet.codec == codec && packet.key_frame == key_frame
            && packet.x == region.x && packet.y == region.y && packet.width == region.width
            && packet.height == region.height && packet.data == data && lies_on_surface(
            packet,
            state,
            surface_id,
        ),
{
}

/// An AVC420 bitmap makes one picture and changes nothing. The picture is what stands
/// behind the wrapper, whose first four bytes count its regions of ten bytes each, byte
/// for byte. It begins at the left and top edges of the area and ends at the right and
/// bottom ones; where an edge is on the wrong side, it has no extent. It lies where its
/// surface is shown. A bitmap that ends inside the wrapper makes nothing and is refused.
pub proof fn law_avc420_bitmap_makes_one_picture(
    state: EgfxView,
    surface_id: u16,
    area: Area,
    data: Seq<u8>,
    wrapper: int,
)
    requires
        data.len() >= 4 ==> wrapper == 4 + 10 * (data[0] + 0x100 * data[1] + 0x1_0000 * data[2]
            + 0x100_0000 * data[3]),
    ensures
        ({
            let (outcome, answer) = crate::outcome::pdu_outcome(
                state,
                PduView::WireToSurface1 { surface_id, codec: Codec::Avc420, area, data },
            );
            let whole = data.len() >= 4 && data.len() >= wrapper;
            &&& outcome.state == state
            &&& outcome.notices.len() == 0
            &&& whole ==> {
                &&& answer == Ok::<Option<Response>, EgfxErrorView>(None)
                &&& outcome.events.len() == 1
                &&& outcome.events[0] matches EventView::Video(packet)
                &&& packet.codec == VideoCodec::Avc420
                &&& packet.data == data.skip(wrapper)
                &&& packet.key_frame == crate::avc::has_idr(data.skip(wrapper), 0)
                &&& packet.x == area.left && packet.y == area.top
                &&& area.left <= area.right ==> packet.x + packet.width == area.right
                &&& area.left > area.right ==> packet.width == 0
                &&& area.top <= area.bottom ==> packet.y + packet.height == area.bottom
                &&& area.top > area.bottom ==> packet.height == 0
                &&& lies_on_surface(packet, state, surface_id)
            }
            &&& !whole ==> outcome.events.len() == 0 && answer matches Err(EgfxErrorView::Avc420(_))
        }),
{
    crate::avc::law_wrapper_takes_its_regions(data, wrapper);
}

/// The picture of an AVC420 bitmap is a key frame exactly when one of the NAL units of its
/// access unit has the type 5 in the low bits of its first byte, whatever cut or empty
/// unit comes behind them.
pub proof fn law_key_frames_are_flagged(
    state: EgfxView,
    surface_id: u16,
    area: Area,
    count: u32,
    regions: Seq<u8>,
    units: Seq<Seq<u8>>,
    tail: Seq<u8>,
)
    requires
        regions.len() == 10 * count,
        forall|i: int| 0 <= i < units.len() ==> 0 < (#[trigger] units[i]).len() <= u32::MAX,
        crate::avc::no_unit(tail),
    ensures
        ({
            let unit = crate::avc::access_unit(units) + tail;
            let outcome = crate::outcome::pdu_outcome(
                state,
                PduView::WireToSurface1 {
                    surface_id,
                    codec: Codec::Avc420,
                    area,
                    data: avc420_stream(count, regions, unit),
                },
            ).0;
            &&& outcome.events.len() == 1
            &&& outcome.events[0] matches EventView::Video(packet)
            &&& packet.data == unit
            &&& packet.key_frame == exists|i: int|
                0 <= i < units.len() && (#[trigger] units[i])[0] % 32 == 5
        }),
{
    let unit = crate::avc::access_unit(units) + tail;
    crate::avc::law_key_frame_goes_by_unit_types(units, tail);
    law_access_unit_passes_unchanged(state, surface_id, area, count, regions, unit, 0);
}

/// A ClearCodec bitmap feeds the decoder with its data and its size and makes at most one
/// picture: what the decoder makes of it after the updates so far, in the browser's order
/// of colours. It begins at the left and top edges of the area and ends at the right and
/// bottom ones, around sixteen bits where an edge is on the wrong side. Where the decoder
/// fails, that is noticed once.
pub proof fn law_clearcodec_bitmap_is_decoded(
    state: EgfxView,
    surface_id: u16,
    area: Area,
    data: Seq<u8>,
    width: u16,
    height: u16,
    at: int,
)
    requires
        area.left <= area.right ==> area.left + width == area.right,
        area.left > area.right ==> area.left + width == area.right + 0x1_0000,
        area.top <= area.bottom ==> area.top + height == area.bottom,
        area.top > area.bottom ==> area.top + height == area.bottom + 0x1_0000,
        0 <= at,
    ensures
        ({
            let (outcome, answer) = crate::outcome::pdu_outcome(
                state,
                PduView::WireToSurface1 { surface_id, codec: Codec::ClearCodec, area, data },
            );
            let after = outcome.state;
            &&& answer == Ok::<Option<Response>, EgfxErrorView>(None)
            &&& after.clearcodec == state.clearcodec.push((data, width, height))
            &&& after.surfaces == state.surfaces && after.bulk == state.bulk
            &&& after.queued_frames == state.queued_frames && after.total_frames
                == state.total_frames
            &&& after.warned_unsupported_codec == state.warned_unsupported_codec
            &&& after.warned_progressive_codec == state.warned_progressive_codec
            &&& match crate::codecs::clearcodec_pixels(state.clearcodec, data, width, height) {
                Ok(pixels) => {
                    &&& after.warned_clearcodec_error == state.warned_clearcodec_error
                    &&& outcome.notices.len() == 0
                    &&& outcome.events.len() == 1
                    &&& outcome.events[0] matches EventView::Video(packet)
                    &&& packet.codec == VideoCodec::RgbaClearCodec && !packet.key_frame
                    &&& packet.x == area.left && packet.y == area.top
                    &&& packet.width == width && packet.height == height
                    &&& lies_on_surface(packet, state, surface_id)
                    &&& packet.data.len() == pixels.len()
                    &&& 4 * at + 4 <= pixels.len() ==> packet.data[4 * at] == pixels[4 * at + 2]
                        && packet.data[4 * at + 1] == pixels[4 * at + 1] && packet.data[4 * at + 2]
                        == pixels[4 * at] && packet.data[4 * at + 3] == pixels[4 * at + 3]
                },
                Err(text) => {
                    &&& after.warned_clearcodec_error
                    &&& outcome.events.len() == 0
                    &&& state.warned_clearcodec_error ==> outcome.notices.len() == 0
                    &&& !state.warned_clearcodec_error ==> outcome.notices == seq![
                        NoticeView::ClearCodecFailed(text),
                    ]
                },
            }
        }),
{
    if let Ok(pixels) = crate::codecs::clearcodec_pixels(state.clearcodec, data, width, height) {
        crate::pixels::law_exchange_moves_bytes(pixels, at);
    }
}

/// An update that was decoded is passed on, whatever the part of the surface and whatever
/// the decoder said: its pixels as one picture there, or a notice of the first failure.
pub proof fn law_decoded_updates_are_passed_on(
    state: EgfxView,
    surface_id: u16,
    region: BitmapRegion,
    decoded: Result<Seq<u8>, Seq<char>>,
    at: int,
)
    requires
        0 <= at,
    ensures
        ({
            let outcome = crate::outcome::clearcodec_outcome(state, surface_id, region, decoded);
            match decoded {
                Ok(pixels) => {
                    &&& outcome.state == state
                    &&& outcome.notices.len() == 0
                    &&& outcome.events.len() == 1
                    &&& outcome.events[0] matches EventView::Video(packet)
                    &&& packet.codec == VideoCodec::RgbaClearCodec && !packet.key_frame
                    &&& packet.x == region.x && packet.y == region.y
                    &&& packet.width == region.width && packet.height == region.height
                    &&& lies_on_surface(packet, state, surface_id)
                    &&& packet.data.len() == pixels.len()
                    &&& 4 * at + 4 <= pixels.len() ==> packet.data[4 * at] == pixels[4 * at + 2]
                        && packet.data[4 * at + 1] == pixels[4 * at + 1] && packet.data[4 * at + 2]
                        == pixels[4 * at] && packet.data[4 * at + 3] == pixels[4 * at + 3]
                    &&& at < pixels.len() < at / 4 * 4 + 4 ==> packet.data[at] == pixels[at]
                },
                Err(text) => {
                    &&& outcome.state == EgfxView { warned_clearcodec_error: true, ..state }
                    &&& outcome.events.len() == 0
                    &&& state.warned_clearcodec_error ==> outcome.notices.len() == 0
                    &&& !state.warned_clearcodec_error ==> outcome.notices == seq![
                        NoticeView::ClearCodecFailed(text),
                    ]
                },
            }
        }),
{
    if let Ok(pixels) = decoded {
        crate::pixels::law_exchange_moves_bytes(pixels, at);
    } else {
        assert(EgfxView { warned_clearcodec_error: true, ..state }.warned_clearcodec_error);
    }
}

/// A bitmap of any other codec makes no picture; the first one is told to the browser by
/// the name of its codec, and nothing else is remembered.
pub proof fn law_other_codecs_are_told(
    state: EgfxView,
    surface_id: u16,
    codec: Codec,
    area: Area,
    data: Seq<u8>,
)
    requires
        codec != Codec::Avc420,
        codec != Codec::ClearCodec,
    ensures
        ({
            let (outcome, answer) = crate::outcome::pdu_outcome(
                state,
                PduView::WireToSurface1 { surface_id, codec, area, data },
            );
            &&& answer == Ok::<Option<Response>, EgfxErrorView>(None)
            &&& outcome.notices.len() == 0
            &&& outcome.state == EgfxView { warned_unsupported_codec: true, ..state }
            &&& state.warned_unsupported_codec ==> outcome.events.len() == 0
            &&& !state.warned_unsupported_codec ==> outcome.events == seq![
                EventView::Control(
                    ControlView::Warning {
                        message: "server sent unsupported EGFX codec "@ + codec.spec_name(),
                    },
                ),
            ]
        }),
{
}

/// What the decoder of ClearCodec updates was given is forgotten when the graphics are
/// reset, and never otherwise: a ClearCodec bitmap adds its own update to it, and any
/// other message leaves it as it is.
pub proof fn law_only_reset_forgets_updates(state: EgfxView, pdu: PduView)
    ensures
        ({
            let after = crate::outcome::pdu_outcome(state, pdu).0.state.clearcodec;
            match pdu {
                PduView::ResetGraphics { .. } => after.len() == 0,
                PduView::WireToSurface1 { codec, data, .. } => if codec == Codec::ClearCodec {
                    &&& after.len() == state.clearcodec.len() + 1
                    &&& after.last().0 == data
                    &&& after.drop_last() == state.clearcodec
                } else {
                    after == state.clearcodec
                },
                _ => after == state.clearcodec,
            }
        }),
{
    if let PduView::WireToSurface1 { surface_id, codec, area, data } = pdu {
        if codec == Codec::ClearCodec {
            let width = crate::outcome::wrapped_length(area.left, area.right);
            let height = crate::outcome::wrapped_length(area.top, area.bottom);
            assert(state.clearcodec.push((data, width, height)).drop_last() =~= state.clearcodec);
        }
    }
}

/// From frame to frame, and over any messages without a reset, what the decoder was given
/// stays what it was, with more behind it: a later update is decoded after all of the
/// earlier ones.
pub proof fn law_updates_are_kept_over_frames(state: EgfxView, pdus: Seq<PduView>)
    requires
        forall|i: int| 0 <= i < pdus.len() ==> !(#[trigger] pdus[i] is ResetGraphics),
    ensures
        ({
            let after = crate::outcome::pdus_outcome(state, pdus).0.state.clearcodec;
            &&& after.len() >= state.clearcodec.len()
            &&& after.take(state.clearcodec.len() as int) == state.clearcodec
        }),
    decreases pdus.len(),
{
    let kept = state.clearcodec.len() as int;
    if pdus.len() == 0 {
        assert(state.clearcodec.take(kept) =~= state.clearcodec);
    } else {
        let (first, answer) = crate::outcome::pdu_outcome(state, pdus[0]);
        law_only_reset_forgets_updates(state, pdus[0]);
        assert(!(pdus[0] is ResetGraphics));
        let middle = first.state.clearcodec;
        assert(middle.take(kept) =~= state.clearcodec);
        if answer is Ok {
            let rest = pdus.skip(1);
            assert forall|i: int| 0 <= i < rest.len() implies !(#[trigger] rest[i]
                is ResetGraphics) by {
                assert(rest[i] == pdus[i + 1]);
            }
            law_updates_are_kept_over_frames(first.state, rest);
            let after = crate::outcome::pdus_outcome(first.state, rest).0.state.clearcodec;
            assert(after.take(kept) =~= after.take(middle.len() as int).take(kept));
        }
    }
}

/// The start and the end of a frame change nothing but the two counters of frames: the
/// start puts one frame into the queue, as far as it can be counted, and the end takes one
/// out and adds one to all frames.
pub proof fn law_frames_change_only_counters(state: EgfxView, frame_id: u32)
    ensures
        ({
            let (outcome, answer) = crate::outcome::pdu_outcome(state, PduView::StartFrame);
            &&& answer == Ok::<Option<Response>, EgfxErrorView>(None)
            &&& outcome.events.len() == 0 && outcome.notices.len() == 0
            &&& state.queued_frames < u32::MAX ==> outcome.state.queued_frames
                == state.queued_frames + 1
            &&& state.queued_frames == u32::MAX ==> outcome.state.queued_frames == u32::MAX
            &&& outcome.state == EgfxView {
                queued_frames: outcome.state.queued_frames,
                ..state
            }
        }),
        ({
            let (outcome, answer) = crate::outcome::pdu_outcome(
                state,
                PduView::EndFrame { frame_id },
            );
            let after = outcome.state;
            &&& outcome.events.len() == 0 && outcome.notices.len() == 0
            &&& state.queued_frames > 0 ==> after.queued_frames == state.queued_frames - 1
            &&& state.queued_frames == 0 ==> after.queued_frames == 0
            &&& after.total_frames == (state.total_frames + 1) % 0x1_0000_0000
            &&& after == EgfxView {
                queued_frames: after.queued_frames,
                total_frames: after.total_frames,
                ..state
            }
            &&& answer matches Ok(Some(Response::Acknowledge {
                queue_depth,
                frame_id: acknowledged,
                total_frames_decoded,
            }))
            &&& acknowledged == frame_id
            &&& total_frames_decoded == after.total_frames
            &&& queue_depth == QueueDepth::Unavailable <==> after.queued_frames == 0
            &&& queue_depth == QueueDepth::Suspend <==> after.queued_frames == u32::MAX
            &&& queue_depth matches QueueDepth::AvailableBytes(depth) ==> depth
                == after.queued_frames
        }),
{
}

/// A surface that is made has the size that it was made with and lies at the origin; for
/// every other number, the channel knows the surface that it knew, or none as before.
/// Nothing else changes, and nothing comes out.
pub proof fn law_made_surface_joins_the_others(
    state: EgfxView,
    surface_id: u16,
    width: u16,
    height: u16,
    other: u16,
)
    requires
        other != surface_id,
    ensures
        ({
            let (outcome, answer) = crate::outcome::pdu_outcome(
                state,
                PduView::CreateSurface { surface_id, width, height },
            );
            let after = outcome.state;
            &&& answer == Ok::<Option<Response>, EgfxErrorView>(None)
            &&& outcome.events.len() == 0 && outcome.notices.len() == 0
            &&& after.surfaces.contains_key(surface_id)
            &&& after.surfaces[surface_id].width == width && after.surfaces[surface_id].height
                == height
            &&& after.surfaces[surface_id].output_x == 0 && after.surfaces[surface_id].output_y == 0
            &&& after.surfaces.contains_key(other) == state.surfaces.contains_key(other)
            &&& state.surfaces.contains_key(other) ==> after.surfaces[other]
                == state.surfaces[other]
            &&& after == EgfxView { surfaces: after.surfaces, ..state }
        }),
{
}

/// A surface that is deleted is not known any more; every other one is as it was. Nothing
/// else changes, and nothing comes out.
pub proof fn law_deleted_surface_leaves_the_others(state: EgfxView, surface_id: u16, other: u16)
    requires
        other != surface_id,
    ensures
        ({
            let (outcome, answer) = crate::outcome::pdu_outcome(
                state,
                PduView::DeleteSurface { surface_id },
            );
            let after = outcome.state;
            &&& answer == Ok::<Option<Response>, EgfxErrorView>(None)
            &&& outcome.events.len() == 0 && outcome.notices.len() == 0
            &&& !after.surfaces.contains_key(surface_id)
            &&& after.surfaces.contains_key(other) == state.surfaces.contains_key(other)
            &&& state.surfaces.contains_key(other) ==> after.surfaces[other]
                == state.surfaces[other]
            &&& after == EgfxView { surfaces: after.surfaces, ..state }
        }),
{
}

/// A surface that is mapped lies at the place that it was given and keeps its size; one
/// that was not there is then, without extent. Every other one is as it was. Nothing else
/// changes, and nothing comes out.
pub proof fn law_mapped_surface_moves_alone(
    state: EgfxView,
    surface_id: u16,
    output_x: u32,
    output_y: u32,
    other: u16,
)
    requires
        other != surface_id,
    ensures
        ({
            let (outcome, answer) = crate::outcome::pdu_outcome(
                state,
                PduView::MapSurfaceToOutput { surface_id, output_x, output_y },
            );
            let after = outcome.state;
            &&& answer == Ok::<Option<Response>, EgfxErrorView>(None)
            &&& outcome.events.len() == 0 && outcome.notices.len() == 0
            &&& after.surfaces.contains_key(surface_id)
            &&& after.surfaces[surface_id].output_x == output_x
            &&& after.surfaces[surface_id].output_y == output_y
            &&& state.surfaces.contains_key(surface_id) ==> after.surfaces[surface_id].width
                == state.surfaces[surface_id].width && after.surfaces[surface_id].height
                == state.surfaces[surface_id].height
            &&& !state.surfaces.contains_key(surface_id) ==> after.surfaces[surface_id].width == 0
                && after.surfaces[surface_id].height == 0
            &&& after.surfaces.contains_key(other) == state.surfaces.contains_key(other)
            &&& state.surfaces.contains_key(other) ==> after.surfaces[other]
                == state.surfaces[other]
            &&& after == EgfxView { surfaces: after.surfaces, ..state }
        }),
{
}

/// Whether `pdu` makes, deletes or maps the surface `surface_id`, or forgets all of them.
pub open spec fn concerns_surface(pdu: PduView, surface_id: u16) -> bool {
    match pdu {
        PduView::ResetGraphics { .. } => true,
        PduView::CreateSurface { surface_id: made, .. } => made == surface_id,
        PduView::DeleteSurface { surface_id: deleted } => deleted == surface_id,
        PduView::MapSurfaceToOutput { surface_id: mapped, .. } => mapped == surface_id,
        _ => false,
    }
}

/// Over any messages that do not make, delete, map or reset it, a surface stays where and
/// what it is.
pub proof fn law_surfaces_stay_over_messages(state: EgfxView, pdus: Seq<PduView>, surface_id: u16)
    requires
        forall|i: int| 0 <= i < pdus.len() ==> !concerns_surface(#[trigger] pdus[i], surface_id),
    ensures
        ({
            let after = crate::outcome::pdus_outcome(state, pdus).0.state.surfaces;
            &&& after.contains_key(surface_id) == state.surfaces.contains_key(surface_id)
            &&& state.surfaces.contains_key(surface_id) ==> after[surface_id]
                == state.surfaces[surface_id]
        }),
    decreases pdus.len(),
{
    if pdus.len() > 0 {
        let (first, answer) = crate::outcome::pdu_outcome(state, pdus[0]);
        assert(!concerns_surface(pdus[0], surface_id));
        if answer is Ok {
            let rest = pdus.skip(1);
            assert forall|i: int| 0 <= i < rest.len() implies !concerns_surface(
                #[trigger] rest[i],
                surface_id,
            ) by {
                assert(rest[i] == pdus[i + 1]);
            }
            law_surfaces_stay_over_messages(first.state, rest, surface_id);
        }
    }
}

/// A picture lands at its surface's place: after a surface was mapped, and whatever
/// messages that do not concern it came between, an AVC420 bitmap for it makes one picture
/// at that place.
pub proof fn law_pictures_land_where_surfaces_were_mapped(
    state: EgfxView,
    surface_id: u16,
    output_x: u32,
    output_y: u32,
    between: Seq<PduView>,
    area: Area,
    count: u32,
    regions: Seq<u8>,
    unit: Seq<u8>,
)
    requires
        regions.len() == 10 * count,
        forall|i: int|
            0 <= i < between.len() ==> !concerns_surface(#[trigger] between[i], surface_id),
    ensures
        ({
            let mapped = crate::outcome::pdu_outcome(
                state,
                PduView::MapSurfaceToOutput { surface_id, output_x, output_y },
            ).0.state;
            let later = crate::outcome::pdus_outcome(mapped, between).0.state;
            let events = crate::outcome::pdu_outcome(
                later,
                PduView::WireToSurface1 {
                    surface_id,
                    codec: Codec::Avc420,
                    area,
                    data: avc420_stream(count, regions, unit),
                },
            ).0.events;
            &&& events.len() == 1
            &&& events[0] matches EventView::Video(packet)
            &&& packet.output_x == output_x
            &&& packet.output_y == output_y
            &&& packet.data == unit
        }),
{
    let mapped = crate::outcome::pdu_outcome(
        state,
        PduView::MapSurfaceToOutput { surface_id, output_x, output_y },
    ).0.state;
    law_surfaces_stay_over_messages(mapped, between, surface_id);
    let later = crate::outcome::pdus_outcome(mapped, between).0.state;
    law_access_unit_passes_unchanged(later, surface_id, area, count, regions, unit, 0);
}

/// A reset forgets every surface, gives the decoder a fresh start, and tells the browser
/// the size of the output; frames, warnings and the payloads so far are not touched.
pub proof fn law_reset_starts_over(
    state: EgfxView,
    output_width: u32,
    output_height: u32,
    surface_id: u16,
)
    ensures
        ({
            let (outcome, answer) = crate::outcome::pdu_outcome(
                state,
                PduView::ResetGraphics { output_width, output_height },
            );
            let after = outcome.state;
            &&& answer == Ok::<Option<Response>, EgfxErrorView>(None)
            &&& outcome.notices.len() == 0
            &&& outcome.events == seq![
                EventView::Control(
                    ControlView::Resize { width: output_width, height: output_height },
                ),
            ]
            &&& !after.surfaces.contains_key(surface_id)
            &&& after.clearcodec.len() == 0
            &&& !after.warned_clearcodec_error
            &&& after.queued_frames == state.queued_frames && after.total_frames
                == state.total_frames
            &&& after.warned_unsupported_codec == state.warned_unsupported_codec
            &&& after.warned_progressive_codec == state.warned_progressive_codec
            &&& after.bulk == state.bulk
        }),
{
}

/// A confirmed capability set is told to the browser and changes nothing. A known version
/// with a whole body is `V8.1` where it is the one that was offered, and otherwise told by
/// its number; an unknown one is told by its number in base sixteen.
pub proof fn law_confirmed_capabilities_are_told(state: EgfxView, version: u32, data: Seq<u8>)
    ensures
        ({
            let (outcome, answer) = crate::outcome::pdu_outcome(
                state,
                PduView::CapabilitiesConfirm { version, data },
            );
            let known = version == 0x8_0004 || version == 0x8_0105 || version == 0xa_0002 || version
                == 0xa_0100 || version == 0xa_0200 || version == 0xa_0301 || version == 0xa_0400
                || version == 0xa_0502 || version == 0xa_0600 || version == 0xa_0601 || version
                == 0xa_0701;
            let whole = data.len() >= if version == 0xa_0100 {
                16int
            } else {
                4int
            };
            let decimal = crate::text::digits(version as nat, 10);
            let hexadecimal = crate::text::digits(version as nat, 16);
            &&& crate::text::number_in(decimal, 10) == version
            &&& crate::text::number_in(hexadecimal, 16) == version
            &&& answer == Ok::<Option<Response>, EgfxErrorView>(None)
            &&& outcome.state == state
            &&& outcome.notices.len() == 0
            &&& outcome.events.len() == 1
            &&& outcome.events[0] matches EventView::Control(
                ControlView::EgfxNegotiated { capability },
            )
            &&& known && whole && version == 0x8_0105 ==> capability == "V8.1"@
            &&& known && whole && version != 0x8_0105 ==> capability == "CapabilityVersion("@
                + decimal + ")"@
            &&& !known ==> capability == "unknown 0x"@ + hexadecimal
            &&& known && !whole ==> capability == "malformed ("@ + crate::pdu::capability_error(
                version,
                data,
            ) + ")"@
        }),
{
    crate::text::law_digits_read_back(version as nat, 10);
    crate::text::law_digits_read_back(version as nat, 16);
}

/// Messages that the gateway does not act on do nothing, and no message touches the
/// payloads that were unfolded.
pub proof fn law_other_messages_do_nothing(state: EgfxView, pdu: PduView)
    ensures
        crate::outcome::pdu_outcome(state, pdu).0.state.bulk == state.bulk,
        pdu is Other || pdu is DeleteEncodingContext ==> ({
            let (outcome, answer) = crate::outcome::pdu_outcome(state, pdu);
            &&& outcome.state == state
            &&& outcome.events.len() == 0 && outcome.notices.len() == 0
            &&& answer == Ok::<Option<Response>, EgfxErrorView>(None)
        }),
{
}

/// A progressive update for a surface that is not there is noticed by the number of the
/// surface, each time; one for a surface that is there is not.
pub proof fn law_unknown_surfaces_are_noticed(
    state: EgfxView,
    surface_id: u16,
    context: u32,
    data: Seq<u8>,
)
    ensures
        ({
            let notices = crate::outcome::pdu_outcome(
                state,
                PduView::WireToSurface2 { surface_id, context, data },
            ).0.notices;
            &&& state.surfaces.contains_key(surface_id) ==> notices.len() == 0
            &&& !state.surfaces.contains_key(surface_id) ==> notices =~= seq![
                NoticeView::UnknownSurface(surface_id),
            ]
        }),
{
}

/// A channel on which nothing has happened knows no surface and no frame, has warned of
/// nothing, and neither of its decoders was given anything.
pub proof fn law_channel_begins_empty(surface_id: u16)
    ensures
        ({
            let state = EgfxView::initial();
            &&& !state.surfaces.contains_key(surface_id)
            &&& state.queued_frames == 0 && state.total_frames == 0
            &&& !state.warned_clearcodec_error && !state.warned_unsupported_codec
            &&& !state.warned_progressive_codec
            &&& state.bulk.len() == 0 && state.clearcodec.len() == 0
        }),
{
}

/// No messages do nothing, and one message alone does what it does.
pub proof fn law_one_message_is_handled(state: EgfxView, pdu: PduView)
    ensures
        crate::outcome::pdus_outcome(state, Seq::empty()).0.state == state,
        crate::outcome::pdus_outcome(state, Seq::empty()).0.events.len() == 0,
        crate::outcome::pdus_outcome(state, Seq::empty()).0.notices.len() == 0,
        crate::outcome::pdus_outcome(state, Seq::empty()).1 == Ok::<Seq<Response>, EgfxErrorView>(
            Seq::empty(),
        ),
        crate::outcome::pdus_outcome(state, seq![pdu]).0 == crate::outcome::pdu_outcome(
            state,
            pdu,
        ).0,
        match crate::outcome::pdu_outcome(state, pdu).1 {
            Err(error) => crate::outcome::pdus_outcome(state, seq![pdu]).1 == Err::<
                Seq<Response>,
                EgfxErrorView,
            >(error),
            Ok(None) => crate::outcome::pdus_outcome(state, seq![pdu]).1 == Ok::<
                Seq<Response>,
                EgfxErrorView,
            >(Seq::empty()),
            Ok(Some(response)) => crate::outcome::pdus_outcome(state, seq![pdu]).1 == Ok::<
                Seq<Response>,
                EgfxErrorView,
            >(seq![response]),
        },
{
    reveal_with_fuel(crate::outcome::pdus_outcome, 2);
    assert(seq![pdu].skip(1) =~= Seq::<PduView>::empty());
    let (first, answer) = crate::outcome::pdu_outcome(state, pdu);
    crate::outcome::lemma_silence_last(first);
    if let Ok(Some(response)) = answer {
        assert(seq![response] + Seq::<Response>::empty() =~= seq![response]);
    } else if answer is Ok {
        assert(Seq::<Response>::empty() + Seq::<Response>::empty() =~= Seq::<Response>::empty());
    }
}

/// Two runs of messages in a row are one run: where the first one fails, it is all there
/// is; otherwise the second one goes on from where the first one left the channel, with its
/// events, notices and answers behind those of the first, or with its failure.
pub proof fn law_messages_are_handled_in_order(
    state: EgfxView,
    first: Seq<PduView>,
    second: Seq<PduView>,
)
    ensures
        ({
            let whole = crate::outcome::pdus_outcome(state, first + second);
            let early = crate::outcome::pdus_outcome(state, first);
            let late = crate::outcome::pdus_outcome(early.0.state, second);
            match early.1 {
                Err(error) => whole == early,
                Ok(answers) => {
                    &&& whole.0.state == late.0.state
                    &&& whole.0.events == early.0.events + late.0.events
                    &&& whole.0.notices == early.0.notices + late.0.notices
                    &&& match late.1 {
                        Err(error) => whole.1 == Err::<Seq<Response>, EgfxErrorView>(error),
                        Ok(more) => whole.1 == Ok::<Seq<Response>, EgfxErrorView>(answers + more),
                    }
                },
            }
        }),
    decreases first.len(),
{
    let late_all = crate::outcome::pdus_outcome(state, second);
    if first.len() == 0 {
        assert(first + second =~= second);
        assert(Seq::<EventView>::empty() + late_all.0.events =~= late_all.0.events);
        assert(Seq::<NoticeView>::empty() + late_all.0.notices =~= late_all.0.notices);
        if let Ok(more) = late_all.1 {
            assert(Seq::<Response>::empty() + more =~= more);
        }
    } else {
        let rest = first.skip(1);
        assert((first + second)[0] == first[0]);
        assert((first + second).skip(1) =~= rest + second);
        let (head, answer) = crate::outcome::pdu_outcome(state, first[0]);
        if let Ok(response) = answer {
            law_messages_are_handled_in_order(head.state, rest, second);
            let early = crate::outcome::pdus_outcome(head.state, rest);
            let late = crate::outcome::pdus_outcome(early.0.state, second);
            assert(head.events + (early.0.events + late.0.events) =~= (head.events
                + early.0.events) + late.0.events);
            assert(head.notices + (early.0.notices + late.0.notices) =~= (head.notices
                + early.0.notices) + late.0.notices);
            if early.1 is Ok && late.1 is Ok {
                let given = crate::outcome::answer_list(response);
                assert(given + (early.1->Ok_0 + late.1->Ok_0) =~= (given + early.1->Ok_0)
                    + late.1->Ok_0);
            }
        }
    }
}

/// A payload of one plain segment does what the messages in its bytes do, and is
/// remembered by the decompressor; where they cannot all be read, none of them is handled.
pub proof fn law_plain_payload_is_its_messages(state: EgfxView, bytes: Seq<u8>)
    requires
        bytes.len() <= isize::MAX / 2,
    ensures
        ({
            let payload = seq![0xe0u8, 0x04u8] + bytes;
            let (outcome, answer) = crate::outcome::payload_outcome(state, payload);
            let fed = EgfxView { bulk: state.bulk.push(payload), ..state };
            match crate::pdu::pdus_in(bytes) {
                Ok(pdus) => (outcome, answer) == crate::outcome::pdus_outcome(fed, pdus),
                Err(error) => {
                    &&& outcome.state == fed
                    &&& outcome.events.len() == 0 && outcome.notices.len() == 0
                    &&& answer == Err::<Seq<Response>, EgfxErrorView>(error)
                },
            }
        }),
{
    law_plain_segment_unfolds(state.bulk, bytes);
}

/// Any payload that has the shape of bulk data is handed to the decompressor once, after
/// all payloads before it, and does what the messages in the unfolded bytes do. One
/// without the shape is refused and forgotten.
pub proof fn law_payload_is_unfolded_once(state: EgfxView, payload: Seq<u8>)
    ensures
        ({
            let (outcome, answer) = crate::outcome::payload_outcome(state, payload);
            let fed = EgfxView { bulk: state.bulk.push(payload), ..state };
            let shaped = crate::zgfx::extent(
                payload,
                crate::codecs::window_position(state.bulk),
            ) is Some;
            &&& !shaped ==> outcome.state == state && answer == Err::<
                Seq<Response>,
                EgfxErrorView,
            >(EgfxErrorView::BulkShape)
            &&& shaped ==> outcome.state.bulk == state.bulk.push(payload)
            &&& shaped ==> match crate::codecs::unfolding(state.bulk, payload) {
                Err(text) => outcome.state == fed && answer == Err::<Seq<Response>, EgfxErrorView>(
                    EgfxErrorView::Bulk(text),
                ),
                Ok(bytes) => crate::pdu::pdus_in(bytes) matches Ok(pdus) ==> (outcome, answer)
                    == crate::outcome::pdus_outcome(fed, pdus),
            }
        }),
{
    let fed = EgfxView { bulk: state.bulk.push(payload), ..state };
    if let Ok(bytes) = crate::codecs::unfolding(state.bulk, payload) {
        if let Ok(pdus) = crate::pdu::pdus_in(bytes) {
            lemma_messages_keep_payloads(fed, pdus);
        }
    }
}

/// Messages leave the payloads that were unfolded.
proof fn lemma_messages_keep_payloads(state: EgfxView, pdus: Seq<PduView>)
    ensures
        crate::outcome::pdus_outcome(state, pdus).0.state.bulk == state.bulk,
    decreases pdus.len(),
{
    if pdus.len() > 0 {
        let (first, answer) = crate::outcome::pdu_outcome(state, pdus[0]);
        law_other_messages_do_nothing(state, pdus[0]);
        if answer is Ok {
            lemma_messages_keep_payloads(first.state, pdus.skip(1));
        }
    }
}

} // verus!
