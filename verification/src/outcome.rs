//! What the messages of the graphics channel mean: what each does to the channel,
//! what comes out of it, and what it is answered.

use crate::pdu::{Area, Codec, EgfxErrorView, PduView};
use crate::protocol::{ControlView, EventView, PacketView, VideoCodec};
use vstd::prelude::*;

verus! {

/// A surface of the server and where on the output it is shown.
#[derive(Debug, Clone, Copy, PartialEq, Eq, Structural)]
pub struct SurfaceInfo {
    pub width: u16,
    pub height: u16,
    pub output_x: u32,
    pub output_y: u32,
}

/// A part of a surface.
#[derive(Debug, Clone, Copy, PartialEq, Eq, Structural)]
pub struct BitmapRegion {
    pub x: u16,
    pub y: u16,
    pub width: u16,
    pub height: u16,
}

/// The queue depth that a frame acknowledgement reports.
#[derive(Debug, Clone, Copy, PartialEq, Eq, Structural)]
pub enum QueueDepth {
    Unavailable,
    AvailableBytes(u32),
    Suspend,
}

impl QueueDepth {
    /// The queue depth that is written as `value`.
    pub open spec fn spec_from_u32(value: u32) -> QueueDepth {
        if value == 0 {
            QueueDepth::Unavailable
        } else if value == u32::MAX {
            QueueDepth::Suspend
        } else {
            QueueDepth::AvailableBytes(value)
        }
    }

    /// The queue depth that is written as `value`.
    pub fn from_u32(value: u32) -> (depth: QueueDepth)
        ensures
            depth == QueueDepth::spec_from_u32(value),
    {
        if value == 0 {
            QueueDepth::Unavailable
        } else if value == u32::MAX {
            QueueDepth::Suspend
        } else {
            QueueDepth::AvailableBytes(value)
        }
    }
}

/// A message for the server.
#[derive(Debug, Clone, Copy, PartialEq, Eq, Structural)]
pub enum Response {
    /// The one capability set that the gateway has to offer.
    Advertise { version: u32, flags: u32 },
    /// A frame was taken in.
    Acknowledge { queue_depth: QueueDepth, frame_id: u32, total_frames_decoded: u32 },
}

/// Something that went wrong and is worth a line in the log.
#[derive(Debug)]
pub enum Notice {
    ClearCodecFailed(String),
    UnknownSurface(u16),
}

/// The content of a [`Notice`].
pub enum NoticeView {
    ClearCodecFailed(Seq<char>),
    UnknownSurface(u16),
}

impl View for Notice {
    type V = NoticeView;

    open spec fn view(&self) -> NoticeView {
        match self {
            Notice::ClearCodecFailed(text) => NoticeView::ClearCodecFailed(text@),
            Notice::UnknownSurface(surface_id) => NoticeView::UnknownSurface(*surface_id),
        }
    }
}

/// The contents of a run of notices.
pub open spec fn notice_views(notices: Seq<Notice>) -> Seq<NoticeView> {
    notices.map_values(|notice: Notice| notice@)
}

/// What the graphics channel knows, but for the clock.
#[verifier::ext_equal]
pub struct EgfxView {
    pub surfaces: Map<u16, SurfaceInfo>,
    pub queued_frames: u32,
    pub total_frames: u32,
    pub warned_clearcodec_error: bool,
    pub warned_unsupported_codec: bool,
    pub warned_progressive_codec: bool,
    /// The payloads that were unfolded.
    pub bulk: Seq<Seq<u8>>,
    /// The ClearCodec updates that were decoded.
    pub clearcodec: Seq<(Seq<u8>, u16, u16)>,
}

impl EgfxView {
    /// A channel on which nothing has happened.
    pub open spec fn initial() -> EgfxView {
        EgfxView {
            surfaces: Map::empty(),
            queued_frames: 0,
            total_frames: 0,
            warned_clearcodec_error: false,
            warned_unsupported_codec: false,
            warned_progressive_codec: false,
            bulk: Seq::empty(),
            clearcodec: Seq::empty(),
        }
    }

    /// The surface with the number `surface_id`; one that was never made is empty
    /// and lies at the origin.
    pub open spec fn surface(self, surface_id: u16) -> SurfaceInfo {
        if self.surfaces.contains_key(surface_id) {
            self.surfaces[surface_id]
        } else {
            SurfaceInfo { width: 0, height: 0, output_x: 0, output_y: 0 }
        }
    }
}

/// What happens on the graphics channel. The events are without timestamps: those
/// depend on the clock.
#[verifier::ext_equal]
pub struct Outcome {
    pub state: EgfxView,
    pub events: Seq<EventView>,
    pub notices: Seq<NoticeView>,
}

impl Outcome {
    /// Nothing comes out, and the channel is left as `state`.
    pub open spec fn silent(state: EgfxView) -> Outcome {
        Outcome { state, events: Seq::empty(), notices: Seq::empty() }
    }

    /// One event comes out, and the channel is left as `state`.
    pub open spec fn event(state: EgfxView, event: EventView) -> Outcome {
        Outcome { state, events: seq![event], notices: Seq::empty() }
    }

    /// One notice comes out, and the channel is left as `state`.
    pub open spec fn notice(state: EgfxView, notice: NoticeView) -> Outcome {
        Outcome { state, events: Seq::empty(), notices: seq![notice] }
    }

    /// This, and then `next`.
    pub open spec fn followed_by(self, next: Outcome) -> Outcome {
        Outcome {
            state: next.state,
            events: self.events + next.events,
            notices: self.notices + next.notices,
        }
    }
}

/// A picture without its timestamp: a part of a surface, with the place on the
/// output at which `state` shows the surface.
pub open spec fn picture(
    state: EgfxView,
    codec: VideoCodec,
    key_frame: bool,
    surface_id: u16,
    region: BitmapRegion,
    data: Seq<u8>,
) -> EventView {
    EventView::Video(
        PacketView {
            codec,
            key_frame,
            timestamp_us: 0,
            surface_id,
            x: region.x,
            y: region.y,
            width: region.width,
            height: region.height,
            output_x: state.surface(surface_id).output_x,
            output_y: state.surface(surface_id).output_y,
            data,
        },
    )
}

/// What becomes of a ClearCodec update that was decoded to `decoded`: a picture with
/// red and blue in the browser's order, or a notice about the first failure since
/// the graphics were reset.
pub open spec fn clearcodec_outcome(
    state: EgfxView,
    surface_id: u16,
    region: BitmapRegion,
    decoded: Result<Seq<u8>, Seq<char>>,
) -> Outcome {
    match decoded {
        Ok(pixels) => Outcome::event(
            state,
            picture(
                state,
                VideoCodec::RgbaClearCodec,
                false,
                surface_id,
                region,
                crate::pixels::red_blue_exchanged(pixels),
            ),
        ),
        Err(text) => if state.warned_clearcodec_error {
            Outcome::silent(state)
        } else {
            Outcome::notice(
                EgfxView { warned_clearcodec_error: true, ..state },
                NoticeView::ClearCodecFailed(text),
            )
        },
    }
}

/// The text that tells the browser of a codec that the gateway cannot pass on.
pub open spec fn unsupported_text(codec: Codec) -> Seq<char> {
    "server sent unsupported EGFX codec "@ + codec.spec_name()
}

/// The first time that a codec comes up which the gateway cannot pass on, the
/// browser is told; after that, nothing happens.
pub open spec fn unsupported_outcome(state: EgfxView, codec: Codec) -> Outcome {
    if state.warned_unsupported_codec {
        Outcome::silent(state)
    } else {
        Outcome::event(
            EgfxView { warned_unsupported_codec: true, ..state },
            EventView::Control(ControlView::Warning { message: unsupported_text(codec) }),
        )
    }
}

/// The first time that the server sends a progressive update, the browser is told.
pub open spec fn progressive_warning(state: EgfxView) -> Outcome {
    if state.warned_progressive_codec {
        Outcome::silent(state)
    } else {
        Outcome::event(
            EgfxView { warned_progressive_codec: true, ..state },
            EventView::Control(
                ControlView::Warning {
                    message: "server selected RemoteFX Progressive instead of AVC420"@,
                },
            ),
        )
    }
}

/// The difference of two edges in sixteen bits, around where it is negative.
pub open spec fn wrapped_length(start: u16, end: u16) -> u16 {
    if start <= end {
        (end - start) as u16
    } else {
        (0x1_0000 + end - start) as u16
    }
}

/// The difference of two edges, none where it would be negative.
pub open spec fn cut_length(start: u16, end: u16) -> u16 {
    if start <= end {
        (end - start) as u16
    } else {
        0
    }
}

/// What becomes of a bitmap for a surface.
pub open spec fn bitmap_outcome(
    state: EgfxView,
    surface_id: u16,
    codec: Codec,
    area: Area,
    data: Seq<u8>,
) -> (Outcome, Result<Option<Response>, EgfxErrorView>) {
    if codec == Codec::ClearCodec {
        let width = wrapped_length(area.left, area.right);
        let height = wrapped_length(area.top, area.bottom);
        let fed = EgfxView { clearcodec: state.clearcodec.push((data, width, height)), ..state };
        let region = BitmapRegion { x: area.left, y: area.top, width, height };
        let decoded = crate::codecs::clearcodec_pixels(state.clearcodec, data, width, height);
        (clearcodec_outcome(fed, surface_id, region, decoded), Ok(None))
    } else if codec == Codec::Avc420 {
        match crate::avc::unwrapped(data) {
            None => (
                Outcome::silent(state),
                Err(EgfxErrorView::Avc420(crate::avc::unwrap_error(data))),
            ),
            Some(unit) => {
                let region = BitmapRegion {
                    x: area.left,
                    y: area.top,
                    width: cut_length(area.left, area.right),
                    height: cut_length(area.top, area.bottom),
                };
                let key_frame = crate::avc::has_idr(unit, 0);
                (
                    Outcome::event(
                        state,
                        picture(state, VideoCodec::Avc420, key_frame, surface_id, region, unit),
                    ),
                    Ok(None),
                )
            },
        }
    } else {
        (unsupported_outcome(state, codec), Ok(None))
    }
}

/// What becomes of a progressive update: it is not rendered, only told. One for a
/// surface that is not there is noticed besides.
pub open spec fn update_outcome(state: EgfxView, surface_id: u16) -> Outcome {
    let warned = progressive_warning(state);
    if state.surfaces.contains_key(surface_id) {
        warned
    } else {
        warned.followed_by(
            Outcome::notice(warned.state, NoticeView::UnknownSurface(surface_id)),
        )
    }
}

/// The channel after the end of a frame: one frame less in the queue, one more in
/// all.
pub open spec fn frame_ended(state: EgfxView) -> EgfxView {
    EgfxView {
        queued_frames: if state.queued_frames > 0 {
            (state.queued_frames - 1) as u32
        } else {
            0
        },
        total_frames: if state.total_frames < u32::MAX {
            (state.total_frames + 1) as u32
        } else {
            0
        },
        ..state
    }
}

/// What a message of the server does: what happens, and what it is answered.
pub open spec fn pdu_outcome(state: EgfxView, pdu: PduView) -> (
    Outcome,
    Result<Option<Response>, EgfxErrorView>,
) {
    match pdu {
        PduView::CapabilitiesConfirm { version, data } => (
            Outcome::event(
                state,
                EventView::Control(
                    ControlView::EgfxNegotiated {
                        capability: crate::pdu::label_of(
                            version,
                            crate::pdu::capability_in(version, data),
                        ),
                    },
                ),
            ),
            Ok(None),
        ),
        PduView::ResetGraphics { output_width, output_height } => (
            Outcome::event(
                EgfxView {
                    surfaces: Map::empty(),
                    clearcodec: Seq::empty(),
                    warned_clearcodec_error: false,
                    ..state
                },
                EventView::Control(
                    ControlView::Resize { width: output_width, height: output_height },
                ),
            ),
            Ok(None),
        ),
        PduView::CreateSurface { surface_id, width, height } => (
            Outcome::silent(
                EgfxView {
                    surfaces: state.surfaces.insert(
                        surface_id,
                        SurfaceInfo { width, height, output_x: 0, output_y: 0 },
                    ),
                    ..state
                },
            ),
            Ok(None),
        ),
        PduView::DeleteSurface { surface_id } => (
            Outcome::silent(
                EgfxView { surfaces: state.surfaces.remove(surface_id), ..state },
            ),
            Ok(None),
        ),
        PduView::MapSurfaceToOutput { surface_id, output_x, output_y } => (
            Outcome::silent(
                EgfxView {
                    surfaces: state.surfaces.insert(
                        surface_id,
                        SurfaceInfo { output_x, output_y, ..state.surface(surface_id) },
                    ),
                    ..state
                },
            ),
            Ok(None),
        ),
        PduView::StartFrame => (
            Outcome::silent(
                EgfxView {
                    queued_frames: if state.queued_frames < u32::MAX {
                        (state.queued_frames + 1) as u32
                    } else {
                        u32::MAX
                    },
                    ..state
                },
            ),
            Ok(None),
        ),
        PduView::WireToSurface1 { surface_id, codec, area, data } => bitmap_outcome(
            state,
            surface_id,
            codec,
            area,
            data,
        ),
        PduView::WireToSurface2 { surface_id, .. } => (
            update_outcome(state, surface_id),
            Ok(None),
        ),
        PduView::DeleteEncodingContext { .. } => (Outcome::silent(state), Ok(None)),
        PduView::EndFrame { frame_id } => {
            let ended = frame_ended(state);
            (
                Outcome::silent(ended),
                Ok(
                    Some(
                        Response::Acknowledge {
                            queue_depth: QueueDepth::spec_from_u32(ended.queued_frames),
                            frame_id,
                            total_frames_decoded: ended.total_frames,
                        },
                    ),
                ),
            )
        },
        PduView::Other => (Outcome::silent(state), Ok(None)),
    }
}

/// What messages that follow each other do. Where one fails, those behind it are
/// left, and so are the answers of those in front of it.
pub open spec fn pdus_outcome(state: EgfxView, pdus: Seq<PduView>) -> (
    Outcome,
    Result<Seq<Response>, EgfxErrorView>,
)
    decreases pdus.len(),
{
    if pdus.len() == 0 {
        (Outcome::silent(state), Ok(Seq::empty()))
    } else {
        let (first, answer) = pdu_outcome(state, pdus[0]);
        match answer {
            Err(error) => (first, Err(error)),
            Ok(response) => {
                let (rest, answers) = pdus_outcome(first.state, pdus.skip(1));
                (
                    first.followed_by(rest),
                    match answers {
                        Err(error) => Err(error),
                        Ok(responses) => Ok(answer_list(response) + responses),
                    },
                )
            },
        }
    }
}

/// One answer or none, as a list.
pub open spec fn answer_list(response: Option<Response>) -> Seq<Response> {
    match response {
        None => Seq::empty(),
        Some(response) => seq![response],
    }
}

/// What a payload of the channel does: it is unfolded, read as messages, and these
/// are handled only when all of them could be read.
pub open spec fn payload_outcome(state: EgfxView, payload: Seq<u8>) -> (
    Outcome,
    Result<Seq<Response>, EgfxErrorView>,
) {
    if crate::zgfx::extent(payload, crate::codecs::window_position(state.bulk)) is None {
        (Outcome::silent(state), Err(EgfxErrorView::BulkShape))
    } else {
        let fed = EgfxView { bulk: state.bulk.push(payload), ..state };
        match crate::codecs::unfolding(state.bulk, payload) {
            Err(text) => (Outcome::silent(fed), Err(EgfxErrorView::Bulk(text))),
            Ok(bytes) => match crate::pdu::pdus_in(bytes) {
                Err(error) => (Outcome::silent(fed), Err(error)),
                Ok(pdus) => pdus_outcome(fed, pdus),
            },
        }
    }
}

/// Silence and then an outcome is that outcome.
pub proof fn lemma_silence_first(state: EgfxView, outcome: Outcome)
    ensures
        Outcome::silent(state).followed_by(outcome) == outcome,
{
    assert(Outcome::silent(state).followed_by(outcome) =~= outcome);
}

/// An outcome and then silence is that outcome.
pub proof fn lemma_silence_last(outcome: Outcome)
    ensures
        outcome.followed_by(Outcome::silent(outcome.state)) == outcome,
{
    assert(outcome.followed_by(Outcome::silent(outcome.state)) =~= outcome);
}

/// It does not matter how three outcomes in a row are grouped.
pub proof fn lemma_followed_by_associates(first: Outcome, second: Outcome, third: Outcome)
    ensures
        first.followed_by(second.followed_by(third)) == first.followed_by(second).followed_by(
            third,
        ),
{
    assert(first.followed_by(second.followed_by(third)) =~= first.followed_by(second).followed_by(
        third,
    ));
}

/// A queue depth says the number it is written as; zero and the largest number have a
/// meaning of their own.
pub proof fn law_queue_depth_says_its_number(value: u32)
    ensures
        QueueDepth::spec_from_u32(value) == QueueDepth::Unavailable <==> value == 0,
        QueueDepth::spec_from_u32(value) == QueueDepth::Suspend <==> value == 0xffff_ffff,
        QueueDepth::spec_from_u32(value) matches QueueDepth::AvailableBytes(number) ==> number
            == value,
{
}

/// The length of a ClearCodec area leads from its start to its end, around sixteen bits;
/// that of an AVC420 area leads from its start to its end or is none.
pub proof fn law_lengths_lead_to_the_end(start: u16, end: u16)
    ensures
        (start + wrapped_length(start, end)) % 0x1_0000 == end,
        start <= end ==> start + cut_length(start, end) == end,
        start > end ==> cut_length(start, end) == 0,
{
}

} // verus!
