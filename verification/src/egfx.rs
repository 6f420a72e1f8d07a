//! The graphics channel: bulk data in, pictures for the browser out.

use crate::avc::{contains_idr, unwrap_avc420};
use crate::clock::{micros_since, next_stamp};
use crate::codecs::{decode_clearcodec, decompress, new_clearcodec, new_decompressor};
use crate::outcome;
use crate::outcome::{
    BitmapRegion, EgfxView, Notice, NoticeView, Outcome, QueueDepth, Response, SurfaceInfo,
};
use crate::pdu::{
    capability_name, read_pdus, Area, Codec, EgfxError, EgfxErrorView, Pdu, CAPABILITY_V8_1,
};
use crate::pixels::bgra_to_rgba;
use crate::protocol::{
    ControlMsg, ControlView, EventView, GatewayEvent, VideoCodec, VideoPacket,
};
use crate::stamps;
use crate::zgfx::{measure, WINDOW};
use ironrdp::graphics::clearcodec::ClearCodecDecoder;
use ironrdp::graphics::zgfx::Decompressor;
use std::collections::BTreeMap;
use std::time::Instant;
use vstd::prelude::*;

verus! {

/// How many bytes of memory the buffer for unfolded data keeps between payloads.
pub const MAX_RETAINED_DECOMPRESSED_CAPACITY: usize = 8_388_608;

/// The flags of the capability set that is advertised: AVC420, and a small cache.
pub const ADVERTISED_FLAGS: u32 = 0x12;

/// What the graphics channel has for others, in the order in which it came up.
pub struct Effects {
    /// For the browser.
    pub events: Vec<GatewayEvent>,
    /// For the log.
    pub notices: Vec<Notice>,
}

impl Effects {
    /// Nothing yet.
    pub fn new() -> (effects: Effects)
        ensures
            effects.events@.len() == 0,
            effects.notices@.len() == 0,
    {
        Effects { events: Vec::new(), notices: Vec::new() }
    }

    /// The contents of the events.
    pub open spec fn event_views(self) -> Seq<EventView> {
        crate::protocol::event_views(self.events@)
    }

    /// The contents of the notices.
    pub open spec fn notice_views(self) -> Seq<NoticeView> {
        outcome::notice_views(self.notices@)
    }

    /// Adds an event.
    fn event(&mut self, event: GatewayEvent)
        ensures
            final(self).event_views() == old(self).event_views().push(event@),
            final(self).notice_views() == old(self).notice_views(),
    {
        self.events.push(event);
        proof {
            assert(self.event_views() =~= old(self).event_views().push(event@));
        }
    }

    /// Adds a notice.
    fn notice(&mut self, notice: Notice)
        ensures
            final(self).event_views() == old(self).event_views(),
            final(self).notice_views() == old(self).notice_views().push(notice@),
    {
        self.notices.push(notice);
        proof {
            assert(self.notice_views() =~= old(self).notice_views().push(notice@));
        }
    }
}

/// `std`'s `Vec::capacity`: how many bytes fit into the memory that `buffer` has.
/// It depends on the allocator; at least the bytes that are there fit.
#[verifier::external_body]
fn capacity_of(buffer: &Vec<u8>) -> (capacity: usize)
    ensures
        capacity >= buffer@.len(),
{
    buffer.capacity()
}

/// `std`'s `Vec::shrink_to`: gives memory back, down to room for `capacity` bytes,
/// and leaves the content as it is.
#[verifier::external_body]
fn shrink(buffer: &mut Vec<u8>, capacity: usize)
    ensures
        final(buffer)@ == old(buffer)@,
{
    buffer.shrink_to(capacity)
}

/// The graphics channel.
pub struct EgfxPassthrough {
    decompressor: Decompressor,
    window_position: u64,
    clearcodec: ClearCodecDecoder,
    decompressed: Vec<u8>,
    surfaces: BTreeMap<u16, SurfaceInfo>,
    queued_frames: u32,
    total_frames: u32,
    clock: Instant,
    last_timestamp_us: u64,
    warned_clearcodec_error: bool,
    warned_unsupported_codec: bool,
    warned_progressive_codec: bool,
}

impl View for EgfxPassthrough {
    type V = EgfxView;

    closed spec fn view(&self) -> EgfxView {
        EgfxView {
            surfaces: self.surfaces@,
            queued_frames: self.queued_frames,
            total_frames: self.total_frames,
            warned_clearcodec_error: self.warned_clearcodec_error,
            warned_unsupported_codec: self.warned_unsupported_codec,
            warned_progressive_codec: self.warned_progressive_codec,
            bulk: crate::codecs::bulk_history(self.decompressor),
            clearcodec: crate::codecs::clearcodec_history(self.clearcodec),
        }
    }
}

impl EgfxPassthrough {
    /// Whether the window position is that of the decompressor.
    pub closed spec fn wf(self) -> bool {
        self.window_position == crate::codecs::window_position(self@.bulk)
    }

    /// The timestamp of the last picture.
    pub closed spec fn stamp(self) -> u64 {
        self.last_timestamp_us
    }

    /// What the timestamps go by.
    pub closed spec fn clock(self) -> Instant {
        self.clock
    }

    /// Whether `after` and `effects_after` are what `outcome` makes of this channel
    /// and of `effects`.
    pub open spec fn performed(
        self,
        after: EgfxPassthrough,
        effects: Effects,
        effects_after: Effects,
        outcome: Outcome,
    ) -> bool {
        &&& after@ == outcome.state
        &&& after.clock() == self.clock()
        &&& stamps::emitted(
            self.clock(),
            self.stamp(),
            after.stamp(),
            effects.event_views(),
            effects_after.event_views(),
            outcome.events,
        )
        &&& effects_after.notice_views() == effects.notice_views() + outcome.notices
    }

    /// A channel on which nothing has happened.
    pub fn new() -> (channel: EgfxPassthrough)
        ensures
            channel.wf(),
            channel@ == EgfxView::initial(),
            call_ensures(Instant::now, (), channel.clock()),
            channel.stamp() == 0,
    {
        EgfxPassthrough {
            decompressor: new_decompressor(),
            window_position: 0,
            clearcodec: new_clearcodec(),
            decompressed: Vec::new(),
            surfaces: BTreeMap::new(),
            queued_frames: 0,
            total_frames: 0,
            clock: Instant::now(),
            last_timestamp_us: 0,
            warned_clearcodec_error: false,
            warned_unsupported_codec: false,
            warned_progressive_codec: false,
        }
    }

    /// Takes the next timestamp.
    fn next_timestamp_us(&mut self) -> (timestamp_us: u64)
        requires
            old(self).wf(),
        ensures
            final(self).wf(),
            final(self)@ == old(self)@,
            final(self).clock() == old(self).clock(),
            final(self).stamp() == timestamp_us,
            crate::clock::follows(old(self).clock(), old(self).stamp(), timestamp_us),
    {
        let timestamp_us: u64 = next_stamp(self.last_timestamp_us, micros_since(&self.clock));
        self.last_timestamp_us = timestamp_us;
        timestamp_us
    }

    /// Tells the browser something about the session.
    fn control(&self, message: ControlMsg, effects: &mut Effects)
        ensures
            self.performed(
                *self,
                *old(effects),
                *final(effects),
                Outcome::event(self@, EventView::Control(message@)),
            ),
    {
        let ghost content = EventView::Control(message@);
        effects.event(GatewayEvent::Control(message));
        proof {
            stamps::lemma_emitted_one(
                self.clock(),
                self.stamp(),
                self.stamp(),
                old(effects).event_views(),
                content,
            );
            assert(effects.notice_views() =~= old(effects).notice_views() + Seq::<
                NoticeView,
            >::empty());
        }
    }

    /// The surface with the number `surface_id`, where there is one.
    fn known_surface(&self, surface_id: u16) -> (surface: Option<SurfaceInfo>)
        ensures
            match surface {
                Some(surface) => self@.surfaces.contains_key(surface_id)
                    && self@.surfaces[surface_id] == surface,
                None => !self@.surfaces.contains_key(surface_id),
            },
    {
        match self.surfaces.get(&surface_id) {
            Some(surface) => Some(*surface),
            None => None,
        }
    }

    /// The surface with the number `surface_id`; one that was never made is empty
    /// and lies at the origin.
    fn surface(&self, surface_id: u16) -> (surface: SurfaceInfo)
        ensures
            surface == self@.surface(surface_id),
    {
        match self.known_surface(surface_id) {
            Some(surface) => surface,
            None => SurfaceInfo { width: 0, height: 0, output_x: 0, output_y: 0 },
        }
    }

    /// Sends a picture to the browser.
    fn send_picture(
        &mut self,
        codec: VideoCodec,
        key_frame: bool,
        surface_id: u16,
        region: BitmapRegion,
        data: Vec<u8>,
        effects: &mut Effects,
    )
        requires
            old(self).wf(),
        ensures
            final(self).wf(),
            old(self).performed(
                *final(self),
                *old(effects),
                *final(effects),
                Outcome::event(
                    old(self)@,
                    outcome::picture(old(self)@, codec, key_frame, surface_id, region, data@),
                ),
            ),
    {
        let surface: SurfaceInfo = self.surface(surface_id);
        let timestamp_us: u64 = self.next_timestamp_us();
        let packet = VideoPacket {
            codec,
            key_frame,
            timestamp_us,
            surface_id,
            x: region.x,
            y: region.y,
            width: region.width,
            height: region.height,
            output_x: surface.output_x,
            output_y: surface.output_y,
            data,
        };
        let ghost content = EventView::Video(packet@);
        effects.event(GatewayEvent::Video(packet));
        proof {
            stamps::lemma_emitted_one(
                old(self).clock(),
                old(self).stamp(),
                self.stamp(),
                old(effects).event_views(),
                content,
            );
            assert(stamps::unstamped(content) == outcome::picture(
                old(self)@,
                codec,
                key_frame,
                surface_id,
                region,
                data@,
            ));
            assert(effects.notice_views() =~= old(effects).notice_views() + Seq::<
                NoticeView,
            >::empty());
        }
    }

    /// Sends decoded pixels to the browser.
    pub fn send_bitmap(
        &mut self,
        codec: VideoCodec,
        surface_id: u16,
        region: BitmapRegion,
        data: Vec<u8>,
        effects: &mut Effects,
    )
        requires
            old(self).wf(),
        ensures
            final(self).wf(),
            old(self).performed(
                *final(self),
                *old(effects),
                *final(effects),
                Outcome::event(
                    old(self)@,
                    outcome::picture(old(self)@, codec, false, surface_id, region, data@),
                ),
            ),
    {
        self.send_picture(codec, false, surface_id, region, data, effects)
    }

    /// Passes a ClearCodec update on that was decoded to `decoded`.
    pub fn forward_clearcodec(
        &mut self,
        surface_id: u16,
        region: BitmapRegion,
        decoded: Result<Vec<u8>, String>,
        effects: &mut Effects,
    )
        requires
            old(self).wf(),
        ensures
            final(self).wf(),
            old(self).performed(
                *final(self),
                *old(effects),
                *final(effects),
                outcome::clearcodec_outcome(
                    old(self)@,
                    surface_id,
                    region,
                    decoded_pixels(decoded),
                ),
            ),
    {
        match decoded {
            Ok(pixels) => {
                let mut data: Vec<u8> = pixels;
                bgra_to_rgba(data.as_mut_slice());
                self.send_bitmap(VideoCodec::RgbaClearCodec, surface_id, region, data, effects);
            },
            Err(text) => {
                if self.warned_clearcodec_error {
                    proof {
                        self.lemma_silent(*self, *effects);
                    }
                } else {
                    self.warned_clearcodec_error = true;
                    let ghost content = NoticeView::ClearCodecFailed(text@);
                    effects.notice(Notice::ClearCodecFailed(text));
                    proof {
                        stamps::lemma_emitted_none(
                            self.clock(),
                            self.stamp(),
                            effects.event_views(),
                        );
                        assert(effects.notice_views() =~= old(effects).notice_views()
                            + seq![content]);
                    }
                }
            },
        }
    }

    /// Passes a bitmap for a surface on.
    fn handle_bitmap(
        &mut self,
        surface_id: u16,
        codec: Codec,
        area: Area,
        data: &[u8],
        effects: &mut Effects,
    ) -> (answer: Result<Option<Response>, EgfxError>)
        requires
            old(self).wf(),
        ensures
            final(self).wf(),
            old(self).performed(
                *final(self),
                *old(effects),
                *final(effects),
                outcome::bitmap_outcome(old(self)@, surface_id, codec, area, data@).0,
            ),
            answer_view(answer) == outcome::bitmap_outcome(
                old(self)@,
                surface_id,
                codec,
                area,
                data@,
            ).1,
    {
        if codec == Codec::ClearCodec {
            let width: u16 = area.right.wrapping_sub(area.left);
            let height: u16 = area.bottom.wrapping_sub(area.top);
            let decoded = decode_clearcodec(&mut self.clearcodec, data, width, height);
            let region = BitmapRegion { x: area.left, y: area.top, width, height };
            proof {
                assert(self@ =~= EgfxView {
                    clearcodec: old(self)@.clearcodec.push((data@, width, height)),
                    ..old(self)@
                });
                assert(decoded_pixels(decoded) == crate::codecs::clearcodec_pixels(
                    old(self)@.clearcodec,
                    data@,
                    width,
                    height,
                ));
            }
            self.forward_clearcodec(surface_id, region, decoded, effects);
            return Ok(None);
        }
        if codec != Codec::Avc420 {
            if self.warned_unsupported_codec {
                proof {
                    self.lemma_silent(*self, *effects);
                }
            } else {
                self.warned_unsupported_codec = true;
                let mut message = "server sent unsupported EGFX codec ".to_owned();
                message.append(codec.name());
                self.control(ControlMsg::Warning { message }, effects);
            }
            return Ok(None);
        }
        match unwrap_avc420(data) {
            Err(text) => {
                proof {
                    self.lemma_silent(*self, *effects);
                }
                Err(EgfxError::Avc420(text))
            },
            Ok(unit) => {
                let region = BitmapRegion {
                    x: area.left,
                    y: area.top,
                    width: area.right.saturating_sub(area.left),
                    height: area.bottom.saturating_sub(area.top),
                };
                let key_frame: bool = contains_idr(unit.as_slice());
                self.send_picture(VideoCodec::Avc420, key_frame, surface_id, region, unit, effects);
                Ok(None)
            },
        }
    }

    /// Tells of a progressive update.
    fn handle_update(&mut self, surface_id: u16, effects: &mut Effects)
        requires
            old(self).wf(),
        ensures
            final(self).wf(),
            old(self).performed(
                *final(self),
                *old(effects),
                *final(effects),
                outcome::update_outcome(old(self)@, surface_id),
            ),
    {
        if self.warned_progressive_codec {
            proof {
                self.lemma_silent(*self, *effects);
            }
        } else {
            self.warned_progressive_codec = true;
            let message = "server selected RemoteFX Progressive instead of AVC420".to_owned();
            self.control(ControlMsg::Warning { message }, effects);
        }
        let ghost warned = outcome::progressive_warning(old(self)@);
        let ghost middle = *self;
        let ghost effects_middle = *effects;
        proof {
            assert(old(self).performed(*self, *old(effects), *effects, warned));
        }
        if self.known_surface(surface_id).is_none() {
            effects.notice(Notice::UnknownSurface(surface_id));
            proof {
                let content = NoticeView::UnknownSurface(surface_id);
                stamps::lemma_emitted_none(self.clock(), self.stamp(), effects.event_views());
                assert(effects.notice_views() =~= effects_middle.notice_views() + seq![content]);
                law_calls_compose(
                    (*old(self), middle, *self),
                    (*old(effects), effects_middle, *effects),
                    warned,
                    Outcome::notice(warned.state, content),
                );
            }
        }
    }

    /// Handles a message of the server.
    pub fn handle_pdu(&mut self, pdu: &Pdu, effects: &mut Effects) -> (answer: Result<
        Option<Response>,
        EgfxError,
    >)
        requires
            old(self).wf(),
        ensures
            final(self).wf(),
            old(self).performed(
                *final(self),
                *old(effects),
                *final(effects),
                outcome::pdu_outcome(old(self)@, pdu@).0,
            ),
            answer_view(answer) == outcome::pdu_outcome(old(self)@, pdu@).1,
    {
        match pdu {
            Pdu::CapabilitiesConfirm { version, data } => {
                let capability = capability_name(*version, data.as_slice());
                self.control(ControlMsg::EgfxNegotiated { capability }, effects);
                Ok(None)
            },
            Pdu::ResetGraphics { output_width, output_height } => {
                self.surfaces.clear();
                self.clearcodec = new_clearcodec();
                self.warned_clearcodec_error = false;
                self.control(
                    ControlMsg::Resize { width: *output_width, height: *output_height },
                    effects,
                );
                Ok(None)
            },
            Pdu::CreateSurface { surface_id, width, height } => {
                self.surfaces.insert(
                    *surface_id,
                    SurfaceInfo { width: *width, height: *height, output_x: 0, output_y: 0 },
                );
                proof {
                    old(self).lemma_silent(*self, *effects);
                }
                Ok(None)
            },
            Pdu::DeleteSurface { surface_id } => {
                self.surfaces.remove(surface_id);
                proof {
                    old(self).lemma_silent(*self, *effects);
                }
                Ok(None)
            },
            Pdu::MapSurfaceToOutput { surface_id, output_x, output_y } => {
                let surface: SurfaceInfo = self.surface(*surface_id);
                self.surfaces.insert(
                    *surface_id,
                    SurfaceInfo {
                        width: surface.width,
                        height: surface.height,
                        output_x: *output_x,
                        output_y: *output_y,
                    },
                );
                proof {
                    old(self).lemma_silent(*self, *effects);
                }
                Ok(None)
            },
            Pdu::StartFrame => {
                self.queued_frames = self.queued_frames.saturating_add(1);
                proof {
                    old(self).lemma_silent(*self, *effects);
                }
                Ok(None)
            },
            Pdu::WireToSurface1 { surface_id, codec, area, data } => {
                self.handle_bitmap(*surface_id, *codec, *area, data.as_slice(), effects)
            },
            Pdu::WireToSurface2 { surface_id, .. } => {
                self.handle_update(*surface_id, effects);
                Ok(None)
            },
            Pdu::DeleteEncodingContext { .. } => {
                proof {
                    old(self).lemma_silent(*self, *effects);
                }
                Ok(None)
            },
            Pdu::EndFrame { frame_id } => {
                self.queued_frames = self.queued_frames.saturating_sub(1);
                self.total_frames = self.total_frames.wrapping_add(1);
                proof {
                    old(self).lemma_silent(*self, *effects);
                }
                Ok(
                    Some(
                        Response::Acknowledge {
                            queue_depth: QueueDepth::from_u32(self.queued_frames),
                            frame_id: *frame_id,
                            total_frames_decoded: self.total_frames,
                        },
                    ),
                )
            },
            Pdu::Other => {
                proof {
                    old(self).lemma_silent(*self, *effects);
                }
                Ok(None)
            },
        }
    }

    /// Handles messages that follow each other.
    pub fn handle_pdus(&mut self, pdus: &Vec<Pdu>, effects: &mut Effects) -> (answers: Result<
        Vec<Response>,
        EgfxError,
    >)
        requires
            old(self).wf(),
        ensures
            final(self).wf(),
            old(self).performed(
                *final(self),
                *old(effects),
                *final(effects),
                outcome::pdus_outcome(old(self)@, crate::pdu::pdu_views(pdus@)).0,
            ),
            answers_view(answers) == outcome::pdus_outcome(
                old(self)@,
                crate::pdu::pdu_views(pdus@),
            ).1,
    {
        let ghost views = crate::pdu::pdu_views(pdus@);
        let ghost whole = outcome::pdus_outcome(old(self)@, views);
        let ghost mut made = Outcome::silent(old(self)@);
        let mut responses: Vec<Response> = Vec::new();
        let mut done: usize = 0;
        proof {
            self.lemma_silent(*self, *effects);
            assert(views.skip(0) =~= views);
            outcome::lemma_silence_first(old(self)@, whole.0);
            if whole.1 is Ok {
                assert(responses@ + whole.1->Ok_0 =~= whole.1->Ok_0);
            }
        }
        while done < pdus.len()
            invariant
                done <= pdus@.len(),
                self.wf(),
                views == crate::pdu::pdu_views(pdus@),
                whole == outcome::pdus_outcome(old(self)@, views),
                old(self).performed(*self, *old(effects), *effects, made),
                whole.0 == made.followed_by(
                    outcome::pdus_outcome(self@, views.skip(done as int)).0,
                ),
                match outcome::pdus_outcome(self@, views.skip(done as int)).1 {
                    Ok(rest) => whole.1 == Ok::<Seq<Response>, EgfxErrorView>(responses@ + rest),
                    Err(error) => whole.1 == Err::<Seq<Response>, EgfxErrorView>(error),
                },
            decreases pdus@.len() - done,
        {
            let ghost middle = *self;
            let ghost effects_middle = *effects;
            let ghost rest = views.skip(done as int);
            let ghost first = outcome::pdu_outcome(self@, pdus@[done as int]@);
            let ghost answered = responses@;
            proof {
                assert(rest[0] == pdus@[done as int]@);
                assert(rest.skip(1) =~= views.skip(done + 1));
            }
            let answer = self.handle_pdu(&pdus[done], effects);
            proof {
                law_calls_compose(
                    (*old(self), middle, *self),
                    (*old(effects), effects_middle, *effects),
                    made,
                    first.0,
                );
                outcome::lemma_followed_by_associates(
                    made,
                    first.0,
                    outcome::pdus_outcome(first.0.state, views.skip(done + 1)).0,
                );
                made = made.followed_by(first.0);
            }
            match answer {
                Err(error) => {
                    return Err(error);
                },
                Ok(Some(response)) => {
                    responses.push(response);
                },
                Ok(None) => {},
            }
            proof {
                let answers = outcome::pdus_outcome(self@, views.skip(done + 1)).1;
                let given = outcome::answer_list(first.1->Ok_0);
                assert(responses@ =~= answered + given);
                if answers is Ok {
                    assert(answered + (given + answers->Ok_0) =~= responses@ + answers->Ok_0);
                }
            }
            done = done + 1;
        }
        proof {
            assert(views.skip(done as int).len() == 0);
            outcome::lemma_silence_last(made);
            assert(responses@ + Seq::<Response>::empty() =~= responses@);
        }
        Ok(responses)
    }

    /// Opens the channel: the browser is told, and the server is offered the one
    /// capability set that the gateway has.
    pub fn start(&mut self, effects: &mut Effects) -> (responses: Vec<Response>)
        requires
            old(self).wf(),
        ensures
            final(self).wf(),
            old(self).performed(
                *final(self),
                *old(effects),
                *final(effects),
                Outcome::event(
                    old(self)@,
                    EventView::Control(
                        ControlView::Status {
                            phase: "egfx"@,
                            message: "graphics channel opened; advertising AVC420"@,
                        },
                    ),
                ),
            ),
            responses@ == seq![
                Response::Advertise {
                    version: crate::pdu::CAPABILITY_V8_1,
                    flags: ADVERTISED_FLAGS,
                },
            ],
    {
        let message = "graphics channel opened; advertising AVC420".to_owned();
        self.control(ControlMsg::Status { phase: "egfx", message }, effects);
        let mut responses: Vec<Response> = Vec::new();
        responses.push(
            Response::Advertise { version: CAPABILITY_V8_1, flags: ADVERTISED_FLAGS },
        );
        responses
    }

    /// Handles a payload of the channel.
    pub fn process(&mut self, payload: &[u8], effects: &mut Effects) -> (answers: Result<
        Vec<Response>,
        EgfxError,
    >)
        requires
            old(self).wf(),
        ensures
            final(self).wf(),
            old(self).performed(
                *final(self),
                *old(effects),
                *final(effects),
                outcome::payload_outcome(old(self)@, payload@).0,
            ),
            answers_view(answers) == outcome::payload_outcome(old(self)@, payload@).1,
    {
        self.decompressed.clear();
        if capacity_of(&self.decompressed) > MAX_RETAINED_DECOMPRESSED_CAPACITY {
            shrink(&mut self.decompressed, MAX_RETAINED_DECOMPRESSED_CAPACITY);
        }
        proof {
            crate::codecs::lemma_window_position(self@.bulk);
        }
        let written: u64 = match measure(payload, self.window_position) {
            None => {
                proof {
                    old(self).lemma_silent(*self, *effects);
                }
                return Err(EgfxError::BulkShape);
            },
            Some(written) => written,
        };
        let unfolded = decompress(&mut self.decompressor, payload, &mut self.decompressed);
        self.window_position = (self.window_position + written) % WINDOW;
        let ghost fed = EgfxView { bulk: old(self)@.bulk.push(payload@), ..old(self)@ };
        proof {
            assert(self@ =~= fed);
            assert(fed.bulk.drop_last() =~= old(self)@.bulk);
            assert(fed.bulk.last() == payload@);
            old(self).lemma_silent(*self, *effects);
        }
        if let Err(text) = unfolded {
            return Err(EgfxError::Bulk(text));
        }
        match read_pdus(self.decompressed.as_slice()) {
            Err(error) => Err(error),
            Ok(pdus) => self.handle_pdus(&pdus, effects),
        }
    }

    /// Closes the channel: the browser is told.
    pub fn close(&mut self, effects: &mut Effects)
        requires
            old(self).wf(),
        ensures
            final(self).wf(),
            old(self).performed(
                *final(self),
                *old(effects),
                *final(effects),
                Outcome::event(
                    old(self)@,
                    EventView::Control(
                        ControlView::Warning { message: "graphics channel closed"@ },
                    ),
                ),
            ),
    {
        let message = "graphics channel closed".to_owned();
        self.control(ControlMsg::Warning { message }, effects);
    }

    /// Nothing came out.
    proof fn lemma_silent(self, after: EgfxPassthrough, effects: Effects)
        requires
            after.clock() == self.clock(),
            after.stamp() == self.stamp(),
        ensures
            self.performed(after, effects, effects, Outcome::silent(after@)),
    {
        stamps::lemma_emitted_none(self.clock(), self.stamp(), effects.event_views());
        assert(effects.notice_views() + Seq::<NoticeView>::empty() =~= effects.notice_views());
    }
}

/// Two calls in a row do what one would that had both outcomes, one after the other:
/// events and notices keep their order, and timestamps go on from one call to the next.
pub proof fn law_calls_compose(
    channels: (EgfxPassthrough, EgfxPassthrough, EgfxPassthrough),
    effects: (Effects, Effects, Effects),
    first: Outcome,
    second: Outcome,
)
    requires
        channels.0.performed(channels.1, effects.0, effects.1, first),
        channels.1.performed(channels.2, effects.1, effects.2, second),
    ensures
        channels.0.performed(channels.2, effects.0, effects.2, first.followed_by(second)),
{
    stamps::lemma_emitted_join(
        channels.0.clock(),
        (channels.0.stamp(), channels.1.stamp(), channels.2.stamp()),
        effects.0.event_views(),
        effects.1.event_views(),
        effects.2.event_views(),
        first.events,
        second.events,
    );
    assert(effects.2.notice_views() =~= effects.0.notice_views() + (first.notices
        + second.notices));
}

/// The content of what a message is answered.
pub open spec fn answer_view(answer: Result<Option<Response>, EgfxError>) -> Result<
    Option<Response>,
    EgfxErrorView,
> {
    match answer {
        Ok(response) => Ok(response),
        Err(error) => Err(error@),
    }
}

/// The content of what a payload is answered.
pub open spec fn answers_view(answers: Result<Vec<Response>, EgfxError>) -> Result<
    Seq<Response>,
    EgfxErrorView,
> {
    match answers {
        Ok(responses) => Ok(responses@),
        Err(error) => Err(error@),
    }
}

/// The content of decoded pixels.
pub open spec fn decoded_pixels(decoded: Result<Vec<u8>, String>) -> Result<Seq<u8>, Seq<char>> {
    match decoded {
        Ok(pixels) => Ok(pixels@),
        Err(text) => Err(text@),
    }
}

/// What a call did is what its outcome says: the channel is left in the state of the
/// outcome, its notices and its events stand behind those that were there, one by one, and
/// only the timestamps of pictures are not the outcome's.
pub proof fn law_performed_is_what_came_out(
    channel: EgfxPassthrough,
    after: EgfxPassthrough,
    effects: Effects,
    effects_after: Effects,
    outcome: Outcome,
    at: int,
)
    requires
        channel.performed(after, effects, effects_after, outcome),
    ensures
        after@ == outcome.state,
        after.clock() == channel.clock(),
        effects_after.events@.len() == effects.events@.len() + outcome.events.len(),
        effects_after.notices@.len() == effects.notices@.len() + outcome.notices.len(),
        0 <= at < effects.events@.len() ==> effects_after.events@[at]@ == effects.events@[at]@,
        0 <= at < effects.notices@.len() ==> effects_after.notices@[at]@ == effects.notices@[at]@,
        0 <= at < outcome.notices.len() ==> effects_after.notices@[effects.notices@.len() + at]@
            == outcome.notices[at],
        0 <= at < outcome.events.len() ==> match outcome.events[at] {
            EventView::Control(message) => effects_after.events@[effects.events@.len() + at]@
                == EventView::Control(message),
            EventView::Video(packet) => {
                &&& effects_after.events@[effects.events@.len() + at] matches GatewayEvent::Video(
                    sent,
                )
                &&& sent.codec == packet.codec && sent.key_frame == packet.key_frame
                &&& sent.surface_id == packet.surface_id
                &&& sent.x == packet.x && sent.y == packet.y
                &&& sent.width == packet.width && sent.height == packet.height
                &&& sent.output_x == packet.output_x && sent.output_y == packet.output_y
                &&& sent.data@ == packet.data
            },
        },
        outcome.events.len() == 0 ==> after.stamp() == channel.stamp(),
        outcome.events.len() == 1 && outcome.events[0] is Control ==> after.stamp()
            == channel.stamp(),
        outcome.events.len() == 1 && outcome.events[0] is Video ==> ({
            &&& effects_after.events@.last() matches GatewayEvent::Video(sent)
            &&& sent.timestamp_us == after.stamp()
            &&& crate::clock::follows(channel.clock(), channel.stamp(), sent.timestamp_us)
        }),
{
    let before = effects.event_views();
    let now = effects_after.event_views();
    stamps::law_emitted_events_are_those_planned(
        channel.clock(),
        channel.stamp(),
        after.stamp(),
        before,
        now,
        outcome.events,
        at,
    );
    stamps::law_emitted_events_are_those_planned(
        channel.clock(),
        channel.stamp(),
        after.stamp(),
        before,
        now,
        outcome.events,
        0,
    );
    stamps::law_emitted_pictures_are_timed(
        channel.clock(),
        channel.stamp(),
        after.stamp(),
        before,
        now,
        outcome.events,
        before.len() as int,
        if outcome.events.len() <= 1 {
            now.len() as int
        } else {
            before.len() as int
        },
    );
    let old_notices = effects.notice_views();
    let new_notices = effects_after.notice_views();
    assert(new_notices.len() == old_notices.len() + outcome.notices.len());
    assert(0 <= at < old_notices.len() ==> new_notices[at] == old_notices[at]);
    assert(0 <= at < outcome.notices.len() ==> new_notices[old_notices.len() + at]
        == outcome.notices[at]);
    assert(0 <= at < effects.events@.len() ==> now[at] == effects_after.events@[at]@);
    assert(0 <= at < effects.events@.len() ==> before[at] == effects.events@[at]@);
    assert(0 <= at < outcome.events.len() ==> now[before.len() + at]
        == effects_after.events@[effects.events@.len() + at]@);
    if outcome.events.len() == 1 {
        assert(now[before.len() as int] == effects_after.events@.last()@);
    }
}

/// The content of what a message or a payload is answered is the answer.
pub proof fn law_answer_content(
    answer: Result<Option<Response>, EgfxError>,
    answers: Result<Vec<Response>, EgfxError>,
    decoded: Result<Vec<u8>, String>,
)
    ensures
        answer is Ok <==> answer_view(answer) is Ok,
        answer matches Ok(response) ==> answer_view(answer)->Ok_0 == response,
        answer matches Err(error) ==> answer_view(answer)->Err_0 == error@,
        answers is Ok <==> answers_view(answers) is Ok,
        answers matches Ok(responses) ==> answers_view(answers)->Ok_0 == responses@,
        answers matches Err(error) ==> answers_view(answers)->Err_0 == error@,
        decoded is Ok <==> decoded_pixels(decoded) is Ok,
        decoded matches Ok(pixels) ==> decoded_pixels(decoded)->Ok_0 == pixels@,
        decoded matches Err(text) ==> decoded_pixels(decoded)->Err_0 == text@,
{
}

} // verus!
