use ironrdp::graphics::clearcodec::ClearCodecEncoder;
use ironrdp::graphics::progressive::ProgressiveDecoder;
use ironrdp::graphics::rlgr;
use ironrdp::graphics::zgfx::{
    compress_and_wrap_egfx, wrap_uncompressed, CompressionMode, Compressor,
};
use ironrdp::pdu::codecs::rfx::progressive::{
    encode_progressive_stream, ComponentCodecQuant, ProgressiveBlock, ProgressiveContextPdu,
    ProgressiveRegion, ProgressiveSyncPdu, ProgressiveTile, TileSimple,
};
use ironrdp::pdu::codecs::rfx::{EntropyAlgorithm, RfxRectangle};
use ironrdp::pdu::gcc::{Monitor, MonitorFlags};
use ironrdp::pdu::geometry::ExclusiveRectangle;
use ironrdp_egfx::pdu::{
    encode_avc420_bitmap_stream, Avc420Region, CapabilitiesConfirmPdu, CapabilitiesV81Flags,
    CapabilityVersion, Codec1Type, Codec2Type, CreateSurfacePdu, DeleteEncodingContextPdu,
    DeleteSurfacePdu, EndFramePdu, GfxPdu, MapSurfaceToOutputPdu, PixelFormat, RawCapabilitySet,
    ResetGraphicsPdu, SolidFillPdu, StartFramePdu, Timestamp, WireToSurface1Pdu,
    WireToSurface2Pdu,
};
use rdpweb::egfx::{Effects, EgfxPassthrough, ADVERTISED_FLAGS};
use rdpweb::outcome::{BitmapRegion, Notice, QueueDepth, Response};
use rdpweb::pdu::{capability_label, read_pdus, Area, Codec, EgfxError, Pdu, CAPABILITY_V8_1};
use rdpweb::protocol::{ControlMsg, GatewayEvent, VideoCodec, VideoPacket};

fn encoded(pdu: &GfxPdu) -> Vec<u8> {
    match ironrdp::core::encode_vec(pdu) {
        Ok(bytes) => bytes,
        Err(error) => panic!("{error}"),
    }
}

fn payload(pdus: &[GfxPdu]) -> Vec<u8> {
    let mut bytes = Vec::new();
    for pdu in pdus {
        bytes.extend(encoded(pdu));
    }
    wrap_uncompressed(&bytes)
}

/// Handles the messages and gives back what came out.
fn process(channel: &mut EgfxPassthrough, pdus: &[GfxPdu]) -> (Effects, Vec<Response>) {
    let mut effects = Effects::new();
    match channel.process(&payload(pdus), &mut effects) {
        Ok(responses) => (effects, responses),
        Err(error) => panic!("{error:?}"),
    }
}

fn packets(effects: Effects) -> Vec<VideoPacket> {
    effects
        .events
        .into_iter()
        .filter_map(|event| match event {
            GatewayEvent::Video(packet) => Some(packet),
            GatewayEvent::Control(_) => None,
        })
        .collect()
}

fn controls(effects: &Effects) -> Vec<String> {
    effects
        .events
        .iter()
        .filter_map(|event| match event {
            GatewayEvent::Control(message) => Some(format!("{message:?}")),
            GatewayEvent::Video(_) => None,
        })
        .collect()
}

fn wire1(codec_id: Codec1Type, right: u16, bottom: u16, bitmap_data: Vec<u8>) -> GfxPdu {
    GfxPdu::WireToSurface1(WireToSurface1Pdu {
        surface_id: 5,
        codec_id,
        pixel_format: PixelFormat::XRgb,
        destination_rectangle: ExclusiveRectangle { left: 10, top: 20, right, bottom },
        bitmap_data,
    })
}

fn create(width: u16, height: u16) -> GfxPdu {
    GfxPdu::CreateSurface(CreateSurfacePdu {
        surface_id: 5,
        width,
        height,
        pixel_format: PixelFormat::XRgb,
    })
}

fn map(output_origin_x: u32, output_origin_y: u32) -> GfxPdu {
    GfxPdu::MapSurfaceToOutput(MapSurfaceToOutputPdu {
        surface_id: 5,
        output_origin_x,
        output_origin_y,
    })
}

fn start_frame() -> GfxPdu {
    let timestamp = Timestamp { milliseconds: 1, seconds: 2, minutes: 3, hours: 4 };
    GfxPdu::StartFrame(StartFramePdu { timestamp, frame_id: 7 })
}

fn end_frame(frame_id: u32) -> GfxPdu {
    GfxPdu::EndFrame(EndFramePdu { frame_id })
}

/// A progressive update with grey tiles at the given places.
fn progressive(places: &[(u16, u16)], with_context: bool) -> Vec<u8> {
    let mut grey = vec![0u8; 64];
    let length = match rlgr::encode(EntropyAlgorithm::Rlgr1, &[0; 4096], &mut grey) {
        Ok(length) => length,
        Err(error) => panic!("{error}"),
    };
    grey.truncate(length);
    let quant = ComponentCodecQuant {
        ll3: 6,
        hl3: 6,
        lh3: 6,
        hh3: 6,
        hl2: 6,
        lh2: 6,
        hh2: 6,
        hl1: 6,
        lh1: 6,
        hh1: 6,
    };
    let tiles = places
        .iter()
        .map(|(x_idx, y_idx)| {
            ProgressiveTile::Simple(TileSimple {
                quant_idx_y: 0,
                quant_idx_cb: 0,
                quant_idx_cr: 0,
                x_idx: *x_idx,
                y_idx: *y_idx,
                flags: 0,
                y_data: &grey,
                cb_data: &grey,
                cr_data: &grey,
                tail_data: &[],
            })
        })
        .collect();
    let region = ProgressiveRegion {
        tile_size: 64,
        rects: vec![RfxRectangle { x: 0, y: 0, width: 64, height: 64 }],
        quant_vals: vec![quant],
        quant_prog_vals: Vec::new(),
        flags: 0,
        tiles,
    };
    let mut blocks = Vec::new();
    if with_context {
        blocks.push(ProgressiveBlock::Sync(ProgressiveSyncPdu));
        blocks.push(ProgressiveBlock::Context(ProgressiveContextPdu {
            context_id: 0,
            tile_size: 64,
            flags: 0,
        }));
    }
    blocks.push(ProgressiveBlock::Region(region));
    match encode_progressive_stream(&blocks) {
        Ok(bytes) => bytes,
        Err(error) => panic!("{error}"),
    }
}

fn wire2(codec_context_id: u32, bitmap_data: Vec<u8>) -> GfxPdu {
    GfxPdu::WireToSurface2(WireToSurface2Pdu {
        surface_id: 5,
        codec_id: Codec2Type::RemoteFxProgressive,
        codec_context_id,
        pixel_format: PixelFormat::XRgb,
        bitmap_data,
    })
}

fn confirm(version: u32, data: Vec<u8>) -> GfxPdu {
    GfxPdu::CapabilitiesConfirm(CapabilitiesConfirmPdu(RawCapabilitySet::new(
        CapabilityVersion(version),
        data,
    )))
}

#[test]
fn start_advertises_avc420() {
    let mut channel = EgfxPassthrough::new();
    let mut effects = Effects::new();
    let responses = channel.start(&mut effects);
    assert_eq!(responses, vec![Response::Advertise { version: 0x8_0105, flags: 0x12 }]);
    assert_eq!(CAPABILITY_V8_1, CapabilityVersion::V8_1.0);
    let flags = CapabilitiesV81Flags::AVC420_ENABLED | CapabilitiesV81Flags::SMALL_CACHE;
    assert_eq!(ADVERTISED_FLAGS, flags.bits());
    assert_eq!(
        controls(&effects),
        vec!["Status { phase: \"egfx\", message: \"graphics channel opened; advertising AVC420\" }"]
    );
}

#[test]
fn close_is_told() {
    let mut channel = EgfxPassthrough::new();
    let mut effects = Effects::new();
    channel.close(&mut effects);
    assert_eq!(controls(&effects), vec!["Warning { message: \"graphics channel closed\" }"]);
}

#[test]
fn access_unit_passes_unchanged() {
    let unit = [0, 0, 0, 2, 0x67, 0x42, 0, 0, 0, 3, 0x65, 1, 2];
    let stream = encode_avc420_bitmap_stream(&[Avc420Region::full_frame(64, 32, 22)], &unit);
    assert_eq!(stream.len(), 4 + 10 + unit.len());
    let mut channel = EgfxPassthrough::new();
    let pdus = [create(100, 80), map(1000, 2000), wire1(Codec1Type::Avc420, 74, 52, stream)];
    let (effects, responses) = process(&mut channel, &pdus);
    assert!(responses.is_empty());
    let packets = packets(effects);
    assert_eq!(packets.len(), 1);
    let packet = &packets[0];
    assert_eq!(packet.codec, VideoCodec::Avc420);
    assert!(packet.key_frame);
    assert_eq!(packet.data, unit);
    assert_eq!((packet.surface_id, packet.x, packet.y), (5, 10, 20));
    assert_eq!((packet.width, packet.height), (64, 32));
    assert_eq!((packet.output_x, packet.output_y), (1000, 2000));
    assert!(packet.timestamp_us > 0);
}

#[test]
fn compressed_payloads_are_unfolded_in_order() {
    let unit = vec![0, 0, 0, 1, 0x41];
    let mut compressor = Compressor::new();
    let mut channel = EgfxPassthrough::new();
    let mut effects = Effects::new();
    for _ in 0..5 {
        let stream = encode_avc420_bitmap_stream(&[], &unit);
        let bytes = encoded(&wire1(Codec1Type::Avc420, 9, 9, stream));
        let payload =
            match compress_and_wrap_egfx(&bytes, &mut compressor, CompressionMode::Always) {
                Ok(payload) => payload,
                Err(error) => panic!("{error}"),
            };
        assert_eq!(payload[1], 0x24);
        assert!(channel.process(&payload, &mut effects).is_ok());
    }
    let packets = packets(effects);
    assert_eq!(packets.len(), 5);
    for pair in packets.windows(2) {
        assert!(pair[0].timestamp_us < pair[1].timestamp_us);
    }
    for packet in &packets {
        assert_eq!(packet.data, unit);
        assert!(!packet.key_frame);
        assert_eq!((packet.width, packet.height), (0, 0));
    }
}

#[test]
fn cut_wrapper_is_refused() {
    let mut channel = EgfxPassthrough::new();
    let mut effects = Effects::new();
    let pdus = [
        end_frame(1),
        wire1(Codec1Type::Planar, 11, 21, Vec::new()),
        wire1(Codec1Type::Avc420, 11, 21, vec![1, 0, 0, 0, 9]),
        end_frame(2),
    ];
    match channel.process(&payload(&pdus), &mut effects) {
        Err(EgfxError::Avc420(text)) => assert!(!text.is_empty()),
        _ => panic!("the wrapper was let through"),
    }
    assert_eq!(effects.events.len(), 1);
    let (_, responses) = process(&mut channel, &[end_frame(3)]);
    assert_eq!(
        responses,
        vec![Response::Acknowledge {
            queue_depth: QueueDepth::Unavailable,
            frame_id: 3,
            total_frames_decoded: 2,
        }]
    );
}

#[test]
fn payloads_without_a_shape_are_refused() {
    let mut channel = EgfxPassthrough::new();
    let mut effects = Effects::new();
    assert!(matches!(channel.process(&[], &mut effects), Err(EgfxError::BulkShape)));
    let unknown = [0xe0, 0x24, 0x80, 0, 0];
    assert!(matches!(channel.process(&unknown, &mut effects), Err(EgfxError::Bulk(_))));
    let nonsense = wrap_uncompressed(&[1, 2, 3]);
    assert!(matches!(channel.process(&nonsense, &mut effects), Err(EgfxError::Pdu(_))));
    let mut reset = encoded(&GfxPdu::ResetGraphics(ResetGraphicsPdu {
        width: 640,
        height: 480,
        monitors: Vec::new(),
    }));
    assert_eq!(reset.len(), 340);
    reset.truncate(339);
    let mut bytes = encoded(&create(1, 1));
    bytes.extend(reset);
    let short = wrap_uncompressed(&bytes);
    assert!(matches!(channel.process(&short, &mut effects), Err(EgfxError::ShortReset)));
    assert!(effects.events.is_empty() && effects.notices.is_empty());
    assert!(process(&mut channel, &[]).1.is_empty());
}

#[test]
fn refused_payload_handles_none_of_its_messages() {
    let mut channel = EgfxPassthrough::new();
    let mut effects = Effects::new();
    let mut bytes = encoded(&end_frame(1));
    bytes.extend([0xff; 8]);
    assert!(channel.process(&wrap_uncompressed(&bytes), &mut effects).is_err());
    let (_, responses) = process(&mut channel, &[end_frame(2)]);
    assert_eq!(
        responses,
        vec![Response::Acknowledge {
            queue_depth: QueueDepth::Unavailable,
            frame_id: 2,
            total_frames_decoded: 1,
        }]
    );
}

#[test]
fn frames_are_acknowledged_in_order() {
    let mut channel = EgfxPassthrough::new();
    let pdus =
        [start_frame(), start_frame(), start_frame(), end_frame(8), end_frame(9), end_frame(8)];
    let (effects, responses) = process(&mut channel, &pdus);
    let acknowledge = |queue_depth: QueueDepth, frame_id: u32, total_frames_decoded: u32| {
        Response::Acknowledge { queue_depth, frame_id, total_frames_decoded }
    };
    assert_eq!(
        responses,
        vec![
            acknowledge(QueueDepth::AvailableBytes(2), 8, 1),
            acknowledge(QueueDepth::AvailableBytes(1), 9, 2),
            acknowledge(QueueDepth::Unavailable, 8, 3),
        ]
    );
    assert!(effects.events.is_empty());
    assert_eq!(QueueDepth::from_u32(u32::MAX), QueueDepth::Suspend);
}

#[test]
fn clearcodec_is_turned_into_rgba() {
    let mut encoder = ClearCodecEncoder::new();
    let bgra: Vec<u8> = (0..8u8).flat_map(|i| [i, 100 + i, 200 + i, 255]).collect();
    let data = encoder.encode(&bgra, 4, 2);
    let mut channel = EgfxPassthrough::new();
    let (effects, _) = process(&mut channel, &[wire1(Codec1Type::ClearCodec, 14, 22, data)]);
    assert!(effects.notices.is_empty());
    let packets = packets(effects);
    assert_eq!(packets.len(), 1);
    assert_eq!(packets[0].codec, VideoCodec::RgbaClearCodec);
    assert!(!packets[0].key_frame);
    assert_eq!((packets[0].width, packets[0].height), (4, 2));
    let rgba: Vec<u8> = (0..8u8).flat_map(|i| [200 + i, 100 + i, i, 255]).collect();
    assert_eq!(packets[0].data, rgba);
}

#[test]
fn clearcodec_remembers_glyphs_until_reset() {
    let mut encoder = ClearCodecEncoder::new();
    let bgra = vec![9u8; 16];
    let first = encoder.encode(&bgra, 2, 2);
    let hit = encoder.encode(&bgra, 2, 2);
    assert_ne!(first, hit);
    let mut channel = EgfxPassthrough::new();
    let bitmap = |data: &Vec<u8>| wire1(Codec1Type::ClearCodec, 12, 22, data.clone());
    let (effects, _) = process(&mut channel, &[bitmap(&first), bitmap(&hit)]);
    let both = packets(effects);
    assert_eq!(both.len(), 2);
    assert_eq!(both[0].data, both[1].data);
    let reset = GfxPdu::ResetGraphics(ResetGraphicsPdu {
        width: 640,
        height: 480,
        monitors: Vec::new(),
    });
    let (effects, _) = process(&mut channel, &[reset, bitmap(&hit)]);
    assert_eq!(controls(&effects), vec!["Resize { width: 640, height: 480 }"]);
    assert!(matches!(&effects.notices[..], [Notice::ClearCodecFailed(text)] if !text.is_empty()));
    assert!(packets(effects).is_empty());
}

#[test]
fn clearcodec_failures_are_noticed_once() {
    let mut channel = EgfxPassthrough::new();
    let broken = || wire1(Codec1Type::ClearCodec, 14, 22, vec![0xff]);
    let (effects, responses) = process(&mut channel, &[broken(), broken(), end_frame(1)]);
    assert_eq!(effects.notices.len(), 1);
    assert!(effects.events.is_empty());
    assert_eq!(responses.len(), 1);
    let (effects, _) = process(&mut channel, &[broken()]);
    assert!(effects.notices.is_empty());
}

#[test]
fn turned_around_areas_are_not_decoded() {
    let mut channel = EgfxPassthrough::new();
    let data = ClearCodecEncoder::new().encode(&[1; 64], 4, 4);
    let (effects, _) = process(&mut channel, &[wire1(Codec1Type::ClearCodec, 9, 22, data)]);
    assert_eq!(effects.notices.len(), 1);
}

#[test]
fn unsupported_codec_is_told_once() {
    let mut channel = EgfxPassthrough::new();
    let pdus = [
        wire1(Codec1Type::Avc444v2, 11, 21, Vec::new()),
        wire1(Codec1Type::Planar, 11, 21, Vec::new()),
    ];
    let (effects, _) = process(&mut channel, &pdus);
    assert_eq!(
        controls(&effects),
        vec!["Warning { message: \"server sent unsupported EGFX codec Avc444v2\" }"]
    );
    assert!(controls(&process(&mut channel, &pdus).0).is_empty());
}

#[test]
fn every_other_codec_is_unsupported() {
    for codec in [
        Codec1Type::Uncompressed,
        Codec1Type::RemoteFx,
        Codec1Type::Planar,
        Codec1Type::Alpha,
        Codec1Type::Avc444,
        Codec1Type::Avc444v2,
    ] {
        let mut channel = EgfxPassthrough::new();
        let (effects, _) = process(&mut channel, &[wire1(codec, 11, 21, vec![1])]);
        assert_eq!(
            controls(&effects),
            vec![format!(
                "Warning {{ message: \"server sent unsupported EGFX codec {codec:?}\" }}"
            )]
        );
        let own = Codec::from_code(codec.into());
        assert_eq!(own.map(Codec::name), Some(format!("{codec:?}").as_str()));
    }
    assert_eq!(Codec::from_code(1), None);
}

const PROGRESSIVE_WARNING: &str =
    "Warning { message: \"server selected RemoteFX Progressive instead of AVC420\" }";

#[test]
fn progressive_updates_are_told_and_not_rendered() {
    let data = progressive(&[(0, 0), (1, 1)], true);
    match ProgressiveDecoder::new().decode_bitmap(1, 100, 70, &data) {
        Ok(tiles) => assert_eq!(tiles.len(), 2),
        Err(error) => panic!("{error}"),
    }
    let mut channel = EgfxPassthrough::new();
    let (effects, responses) = process(&mut channel, &[create(100, 70), wire2(1, data.clone())]);
    assert!(responses.is_empty());
    assert_eq!(controls(&effects), vec![PROGRESSIVE_WARNING]);
    assert_eq!(effects.events.len(), 1);
    assert!(effects.notices.is_empty());
    let (effects, _) = process(&mut channel, &[wire2(1, data), wire2(1, vec![0xff])]);
    assert!(effects.events.is_empty() && effects.notices.is_empty());
    let delete = GfxPdu::DeleteEncodingContext(DeleteEncodingContextPdu {
        surface_id: 5,
        codec_context_id: 1,
    });
    let (effects, responses) = process(&mut channel, &[delete, end_frame(1)]);
    assert!(effects.events.is_empty() && effects.notices.is_empty());
    assert_eq!(responses.len(), 1);
}

#[test]
fn pictures_go_on_beside_progressive_updates() {
    let mut channel = EgfxPassthrough::new();
    let unit = vec![0, 0, 0, 1, 0x65];
    let picture = wire1(Codec1Type::Avc420, 74, 52, encode_avc420_bitmap_stream(&[], &unit));
    let update = wire2(1, progressive(&[(0, 0)], true));
    let (effects, _) = process(&mut channel, &[create(64, 64), update, picture]);
    assert_eq!(controls(&effects), vec![PROGRESSIVE_WARNING]);
    let packets = packets(effects);
    assert_eq!(packets.len(), 1);
    assert_eq!(packets[0].codec, VideoCodec::Avc420);
    assert_eq!(packets[0].data, unit);
}

fn reset(width: u32, height: u32, monitors: usize) -> GfxPdu {
    let monitor = Monitor { left: 0, top: -1, right: 2, bottom: 3, flags: MonitorFlags::PRIMARY };
    GfxPdu::ResetGraphics(ResetGraphicsPdu { width, height, monitors: vec![monitor; monitors] })
}

#[test]
fn resets_are_read_within_their_limits() {
    for (width, height, monitors) in [(0, 0, 0), (32_766, 1, 1), (1, 32_766, 16)] {
        let bytes = encoded(&reset(width, height, monitors));
        assert_eq!(bytes.len(), 340);
        let mut channel = EgfxPassthrough::new();
        let (effects, _) = process(&mut channel, &[reset(width, height, monitors)]);
        let resize = format!("Resize {{ width: {width}, height: {height} }}");
        assert_eq!(controls(&effects), vec![resize]);
    }
    let refused = |bytes: &[u8]| matches!(read_pdus(bytes), Err(EgfxError::Pdu(_)));
    assert!(refused(&encoded(&reset(32_767, 1, 0))));
    assert!(refused(&encoded(&reset(1, 32_767, 0))));
    for (place, value) in [(16, 17), (36, 2), (36 + 20 * 15, 3), (4, 7)] {
        let mut bytes = encoded(&reset(1, 1, 16));
        bytes[place] = value;
        if place == 4 {
            bytes[5] = 0;
        }
        assert!(refused(&bytes), "{place}");
    }
}

#[test]
fn updates_of_unknown_surfaces_are_noticed() {
    let mut channel = EgfxPassthrough::new();
    let update = || wire2(1, progressive(&[(0, 0)], true));
    let delete = GfxPdu::DeleteSurface(DeleteSurfacePdu { surface_id: 5 });
    let (effects, _) = process(&mut channel, &[update(), create(64, 64), delete, update()]);
    assert!(matches!(
        &effects.notices[..],
        [Notice::UnknownSurface(5), Notice::UnknownSurface(5)]
    ));
    assert_eq!(controls(&effects), vec![PROGRESSIVE_WARNING]);
    assert!(packets(effects).is_empty());
}

#[test]
fn mapping_a_surface_that_was_never_made_counts() {
    let mut channel = EgfxPassthrough::new();
    let stream = || encode_avc420_bitmap_stream(&[], &[]);
    let picture = || wire1(Codec1Type::Avc420, 20, 30, stream());
    let (effects, _) =
        process(&mut channel, &[picture(), map(7, 8), picture(), create(1, 1), picture()]);
    let places: Vec<(u32, u32)> = packets(effects)
        .iter()
        .map(|packet| (packet.output_x, packet.output_y))
        .collect();
    assert_eq!(places, vec![(0, 0), (7, 8), (0, 0)]);
}

#[test]
fn capabilities_are_named() {
    let mut channel = EgfxPassthrough::new();
    let pdus = [
        confirm(0x8_0105, vec![0; 4]),
        confirm(0xa_0002, vec![0; 4]),
        confirm(0xa_0100, vec![0; 16]),
        confirm(0xab_cdef, Vec::new()),
        confirm(0x8_0105, vec![0; 3]),
    ];
    let (effects, _) = process(&mut channel, &pdus);
    let labels: Vec<String> = effects
        .events
        .iter()
        .map(|event| match event {
            GatewayEvent::Control(ControlMsg::EgfxNegotiated { capability }) => capability.clone(),
            _ => panic!("no capability"),
        })
        .collect();
    assert_eq!(labels[0], "V8.1");
    assert_eq!(labels[1], format!("{:?}", CapabilityVersion::V10));
    assert_eq!(labels[2], format!("{:?}", CapabilityVersion::V10_1));
    assert_eq!(labels[2], "CapabilityVersion(655616)");
    assert_eq!(labels[3], "unknown 0xabcdef");
    let error = match RawCapabilitySet::new(CapabilityVersion(0x8_0105), vec![0; 3]).parsed() {
        Ok(_) => panic!("a short set was parsed"),
        Err(error) => error,
    };
    assert_eq!(labels[4], format!("malformed ({error})"));
}

#[test]
fn labels_follow_what_was_parsed() {
    assert_eq!(capability_label(1, Ok(Some(0x8_0105))), "V8.1");
    assert_eq!(capability_label(1, Ok(Some(12))), "CapabilityVersion(12)");
    assert_eq!(capability_label(255, Ok(None)), "unknown 0xff");
    assert_eq!(capability_label(1, Err("why".to_owned())), "malformed (why)");
}

#[test]
fn every_known_version_is_known() {
    for version in [
        0x8_0004u32, 0x8_0105, 0xa_0002, 0xa_0100, 0xa_0200, 0xa_0301, 0xa_0400, 0xa_0502,
        0xa_0600, 0xa_0601, 0xa_0701,
    ] {
        assert!(CapabilityVersion(version).is_known());
        let mut channel = EgfxPassthrough::new();
        let (effects, _) = process(&mut channel, &[confirm(version, vec![0; 16])]);
        assert!(!controls(&effects)[0].contains("unknown"));
        let (effects, _) = process(&mut channel, &[confirm(version, vec![0; 3])]);
        assert!(controls(&effects)[0].contains("malformed"));
    }
}

#[test]
fn messages_are_read_field_by_field() {
    let pdus = [
        wire1(Codec1Type::Alpha, 30, 40, vec![1, 2]),
        wire2(9, vec![3]),
        create(11, 12),
        GfxPdu::DeleteSurface(DeleteSurfacePdu { surface_id: 6 }),
        map(13, 14),
        start_frame(),
        end_frame(15),
        GfxPdu::DeleteEncodingContext(DeleteEncodingContextPdu {
            surface_id: 5,
            codec_context_id: 16,
        }),
        GfxPdu::ResetGraphics(ResetGraphicsPdu { width: 17, height: 18, monitors: Vec::new() }),
        confirm(19, vec![20]),
        GfxPdu::SolidFill(SolidFillPdu {
            surface_id: 5,
            fill_pixel: ironrdp_egfx::pdu::Color { b: 1, g: 2, r: 3, xa: 4 },
            rectangles: Vec::new(),
        }),
    ];
    let mut bytes = Vec::new();
    for pdu in &pdus {
        bytes.extend(encoded(pdu));
    }
    let read = match read_pdus(&bytes) {
        Ok(read) => read,
        Err(error) => panic!("{error:?}"),
    };
    let area = Area { left: 10, top: 20, right: 30, bottom: 40 };
    let expected = vec![
        Pdu::WireToSurface1 { surface_id: 5, codec: Codec::Alpha, area, data: vec![1, 2] },
        Pdu::WireToSurface2 { surface_id: 5, context: 9, data: vec![3] },
        Pdu::CreateSurface { surface_id: 5, width: 11, height: 12 },
        Pdu::DeleteSurface { surface_id: 6 },
        Pdu::MapSurfaceToOutput { surface_id: 5, output_x: 13, output_y: 14 },
        Pdu::StartFrame,
        Pdu::EndFrame { frame_id: 15 },
        Pdu::DeleteEncodingContext { context: 16 },
        Pdu::ResetGraphics { output_width: 17, output_height: 18 },
        Pdu::CapabilitiesConfirm { version: 19, data: vec![20] },
        Pdu::Other,
    ];
    assert_eq!(format!("{read:?}"), format!("{expected:?}"));
}

#[test]
fn decoded_results_are_passed_on() {
    let mut channel = EgfxPassthrough::new();
    let mut effects = Effects::new();
    let region = BitmapRegion { x: 1, y: 2, width: 1, height: 1 };
    channel.forward_clearcodec(9, region, Ok(vec![1, 2, 3, 4]), &mut effects);
    channel.forward_clearcodec(9, region, Err("first".to_owned()), &mut effects);
    channel.forward_clearcodec(9, region, Err("second".to_owned()), &mut effects);
    assert_eq!(
        format!("{:?}", effects.notices),
        "[ClearCodecFailed(\"first\")]"
    );
    let packets = packets(effects);
    assert_eq!(packets.len(), 1);
    assert_eq!(packets[0].data, vec![3, 2, 1, 4]);
}

#[test]
fn timestamps_rise() {
    let mut channel = EgfxPassthrough::new();
    let mut effects = Effects::new();
    let region = BitmapRegion { x: 0, y: 0, width: 0, height: 0 };
    for _ in 0..5_000 {
        channel.send_bitmap(VideoCodec::RgbaProgressive, 1, region, Vec::new(), &mut effects);
    }
    let packets = packets(effects);
    for pair in packets.windows(2) {
        assert!(pair[0].timestamp_us < pair[1].timestamp_us);
    }
}

#[test]
fn large_buffers_are_given_back() {
    let mut channel = EgfxPassthrough::new();
    let stream = encode_avc420_bitmap_stream(&[], &vec![0; 12 << 20]);
    let (effects, _) = process(&mut channel, &[wire1(Codec1Type::Avc420, 11, 21, stream)]);
    assert_eq!(packets(effects)[0].data.len(), 12 << 20);
    let (_, responses) = process(&mut channel, &[end_frame(1)]);
    assert_eq!(responses.len(), 1);
}
