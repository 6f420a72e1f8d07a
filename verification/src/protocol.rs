//! What travels between the browser and the gateway.

use crate::bytes::push_le;
use vstd::prelude::*;

verus! {

/// The first bytes of every encoded video packet.
pub const VIDEO_MAGIC: [u8; 4] = [0x52, 0x44, 0x50, 0x48];

/// The version of the video packet layout.
pub const VIDEO_VERSION: u8 = 1;

/// The number of bytes in front of a video packet's data.
pub const VIDEO_HEADER_LEN: usize = 38;

/// A mouse button of the browser.
#[derive(Debug, Clone, Copy, PartialEq, Eq, Structural)]
pub enum MouseButton {
    Left,
    Middle,
    Right,
}

/// The direction of one axis of a wheel movement. Anything that is neither zero
/// nor above zero counts as backward.
#[derive(Debug, Clone, Copy, PartialEq, Eq, Structural)]
pub enum WheelTurn {
    Still,
    Forward,
    Backward,
}

/// A message of the browser.
#[derive(Debug)]
pub enum ClientMsg {
    MouseMove { x: i32, y: i32 },
    MouseButton { button: MouseButton, pressed: bool },
    Wheel { dx: WheelTurn, dy: WheelTurn },
    Key { code: String, pressed: bool },
}

/// A message of the gateway about the state of the session.
#[derive(Debug, Clone)]
pub enum ControlMsg {
    Status { phase: &'static str, message: String },
    Resize { width: u32, height: u32 },
    EgfxNegotiated { capability: String },
    Warning { message: String },
    Error { message: String },
}

/// How the data of a video packet is encoded.
#[derive(Debug, Clone, Copy, PartialEq, Eq, Structural)]
pub enum VideoCodec {
    Avc420,
    RgbaClearCodec,
    RgbaProgressive,
}

/// A part of the picture on its way to the browser.
pub struct VideoPacket {
    pub codec: VideoCodec,
    pub key_frame: bool,
    pub timestamp_us: u64,
    pub surface_id: u16,
    pub x: u16,
    pub y: u16,
    pub width: u16,
    pub height: u16,
    pub output_x: u32,
    pub output_y: u32,
    pub data: Vec<u8>,
}

/// What the gateway has for the browser.
pub enum GatewayEvent {
    Control(ControlMsg),
    Video(VideoPacket),
}

/// The content of a [`ControlMsg`].
pub enum ControlView {
    Status { phase: Seq<char>, message: Seq<char> },
    Resize { width: u32, height: u32 },
    EgfxNegotiated { capability: Seq<char> },
    Warning { message: Seq<char> },
    Error { message: Seq<char> },
}

/// The content of a [`VideoPacket`].
#[verifier::ext_equal]
pub struct PacketView {
    pub codec: VideoCodec,
    pub key_frame: bool,
    pub timestamp_us: u64,
    pub surface_id: u16,
    pub x: u16,
    pub y: u16,
    pub width: u16,
    pub height: u16,
    pub output_x: u32,
    pub output_y: u32,
    pub data: Seq<u8>,
}

/// The content of a [`GatewayEvent`].
pub enum EventView {
    Control(ControlView),
    Video(PacketView),
}

impl View for ControlMsg {
    type V = ControlView;

    open spec fn view(&self) -> ControlView {
        match self {
            ControlMsg::Status { phase, message } => ControlView::Status {
                phase: phase@,
                message: message@,
            },
            ControlMsg::Resize { width, height } => ControlView::Resize {
                width: *width,
                height: *height,
            },
            ControlMsg::EgfxNegotiated { capability } => ControlView::EgfxNegotiated {
                capability: capability@,
            },
            ControlMsg::Warning { message } => ControlView::Warning { message: message@ },
            ControlMsg::Error { message } => ControlView::Error { message: message@ },
        }
    }
}

impl View for VideoPacket {
    type V = PacketView;

    open spec fn view(&self) -> PacketView {
        PacketView {
            codec: self.codec,
            key_frame: self.key_frame,
            timestamp_us: self.timestamp_us,
            surface_id: self.surface_id,
            x: self.x,
            y: self.y,
            width: self.width,
            height: self.height,
            output_x: self.output_x,
            output_y: self.output_y,
            data: self.data@,
        }
    }
}

impl View for GatewayEvent {
    type V = EventView;

    open spec fn view(&self) -> EventView {
        match self {
            GatewayEvent::Control(message) => EventView::Control(message@),
            GatewayEvent::Video(packet) => EventView::Video(packet@),
        }
    }
}

/// The contents of a run of events.
pub open spec fn event_views(events: Seq<GatewayEvent>) -> Seq<EventView> {
    events.map_values(|event: GatewayEvent| event@)
}

impl VideoCodec {
    /// The byte by which a packet names this codec.
    pub open spec fn spec_code(self) -> u8 {
        match self {
            VideoCodec::Avc420 => 1,
            VideoCodec::RgbaClearCodec => 2,
            VideoCodec::RgbaProgressive => 3,
        }
    }

    /// The byte by which a packet names this codec.
    pub fn code(self) -> (code: u8)
        ensures
            code == self.spec_code(),
    {
        match self {
            VideoCodec::Avc420 => 1,
            VideoCodec::RgbaClearCodec => 2,
            VideoCodec::RgbaProgressive => 3,
        }
    }
}

/// What the length field of a packet with `length` bytes of data says: the
/// length, or the largest number that the field can hold.
pub open spec fn length_field(length: nat) -> nat {
    if length <= u32::MAX {
        length
    } else {
        u32::MAX as nat
    }
}

impl PacketView {
    /// The bytes in front of the packet's data.
    pub open spec fn header(self) -> Seq<u8> {
        VIDEO_MAGIC@ + seq![
            VIDEO_VERSION,
            self.codec.spec_code(),
            if self.key_frame {
                1u8
            } else {
                0u8
            },
            0u8,
        ] + crate::bytes::le_bytes(self.timestamp_us as nat, 8) + crate::bytes::le_bytes(
            self.surface_id as nat,
            2,
        ) + crate::bytes::le_bytes(self.x as nat, 2) + crate::bytes::le_bytes(self.y as nat, 2)
            + crate::bytes::le_bytes(self.width as nat, 2) + crate::bytes::le_bytes(
            self.height as nat,
            2,
        ) + crate::bytes::le_bytes(self.output_x as nat, 4) + crate::bytes::le_bytes(
            self.output_y as nat,
            4,
        ) + crate::bytes::le_bytes(length_field(self.data.len()), 4)
    }

    /// The packet on the wire: the header, then the data byte for byte.
    pub open spec fn encoded(self) -> Seq<u8> {
        self.header() + self.data
    }
}

impl VideoPacket {
    /// The packet as the browser receives it.
    pub fn encode(self) -> (bytes: Vec<u8>)
        ensures
            bytes@ == self@.encoded(),
            bytes@.len() == VIDEO_HEADER_LEN + self.data@.len(),
    {
        let length: u64 = self.data.len() as u64;
        let data_len: u64 = if length <= u32::MAX as u64 {
            length
        } else {
            u32::MAX as u64
        };
        let mut bytes: Vec<u8> = Vec::new();
        let magic: [u8; 4] = VIDEO_MAGIC;
        bytes.extend_from_slice(&magic);
        bytes.push(VIDEO_VERSION);
        bytes.push(self.codec.code());
        bytes.push(if self.key_frame {
            1
        } else {
            0
        });
        bytes.push(0);
        proof {
            assert(bytes@ =~= VIDEO_MAGIC@ + seq![
                VIDEO_VERSION,
                self.codec.spec_code(),
                if self.key_frame {
                    1u8
                } else {
                    0u8
                },
                0u8,
            ]);
        }
        push_le(&mut bytes, self.timestamp_us, 8);
        push_le(&mut bytes, self.surface_id as u64, 2);
        push_le(&mut bytes, self.x as u64, 2);
        push_le(&mut bytes, self.y as u64, 2);
        push_le(&mut bytes, self.width as u64, 2);
        push_le(&mut bytes, self.height as u64, 2);
        push_le(&mut bytes, self.output_x as u64, 4);
        push_le(&mut bytes, self.output_y as u64, 4);
        push_le(&mut bytes, data_len, 4);
        proof {
            assert(bytes@ == self@.header());
            lemma_header_len(self@);
        }
        let ghost header = bytes@;
        bytes.extend_from_slice(&self.data);
        proof {
            assert(bytes@ =~= header + self.data@);
        }
        bytes
    }
}

/// Every packet has a header of the same length.
pub proof fn lemma_header_len(packet: PacketView)
    ensures
        packet.header().len() == VIDEO_HEADER_LEN,
{
    lemma_field_lens(packet);
}

/// The length of each field of a packet's header.
proof fn lemma_field_lens(packet: PacketView)
    ensures
        crate::bytes::le_bytes(packet.timestamp_us as nat, 8).len() == 8,
        crate::bytes::le_bytes(packet.surface_id as nat, 2).len() == 2,
        crate::bytes::le_bytes(packet.x as nat, 2).len() == 2,
        crate::bytes::le_bytes(packet.y as nat, 2).len() == 2,
        crate::bytes::le_bytes(packet.width as nat, 2).len() == 2,
        crate::bytes::le_bytes(packet.height as nat, 2).len() == 2,
        crate::bytes::le_bytes(packet.output_x as nat, 4).len() == 4,
        crate::bytes::le_bytes(packet.output_y as nat, 4).len() == 4,
        crate::bytes::le_bytes(length_field(packet.data.len()), 4).len() == 4,
{
    crate::bytes::lemma_le_bytes_len(packet.timestamp_us as nat, 8);
    crate::bytes::lemma_le_bytes_len(packet.surface_id as nat, 2);
    crate::bytes::lemma_le_bytes_len(packet.x as nat, 2);
    crate::bytes::lemma_le_bytes_len(packet.y as nat, 2);
    crate::bytes::lemma_le_bytes_len(packet.width as nat, 2);
    crate::bytes::lemma_le_bytes_len(packet.height as nat, 2);
    crate::bytes::lemma_le_bytes_len(packet.output_x as nat, 4);
    crate::bytes::lemma_le_bytes_len(packet.output_y as nat, 4);
    crate::bytes::lemma_le_bytes_len(length_field(packet.data.len()), 4);
}

/// What a reader of the layout takes `bytes` for: numbers in little-endian
/// fields at fixed offsets, and the data behind the header.
pub open spec fn read_packet(bytes: Seq<u8>) -> PacketView {
    PacketView {
        codec: if bytes[5] == 1 {
            VideoCodec::Avc420
        } else if bytes[5] == 2 {
            VideoCodec::RgbaClearCodec
        } else {
            VideoCodec::RgbaProgressive
        },
        key_frame: bytes[6] == 1,
        timestamp_us: crate::bytes::le_field(bytes, 8, 8) as u64,
        surface_id: crate::bytes::le_field(bytes, 16, 2) as u16,
        x: crate::bytes::le_field(bytes, 18, 2) as u16,
        y: crate::bytes::le_field(bytes, 20, 2) as u16,
        width: crate::bytes::le_field(bytes, 22, 2) as u16,
        height: crate::bytes::le_field(bytes, 24, 2) as u16,
        output_x: crate::bytes::le_field(bytes, 26, 4) as u32,
        output_y: crate::bytes::le_field(bytes, 30, 4) as u32,
        data: bytes.skip(VIDEO_HEADER_LEN as int),
    }
}

/// Reading an encoded packet gives the packet back, and its length field holds
/// the length of its data as far as four bytes can.
pub proof fn law_packet_reads_back(packet: PacketView)
    ensures
        read_packet(packet.encoded()) == packet,
        packet.encoded().take(4) == VIDEO_MAGIC@,
        packet.encoded()[4] == VIDEO_VERSION,
        crate::bytes::le_field(packet.encoded(), 34, 4) == length_field(packet.data.len()),
{
    lemma_field_lens(packet);
    crate::bytes::lemma_le_ranges();
    let bytes = packet.encoded();
    assert(bytes.take(4) =~= VIDEO_MAGIC@);
    assert(bytes.subrange(8, 16) =~= crate::bytes::le_bytes(packet.timestamp_us as nat, 8));
    assert(bytes.subrange(16, 18) =~= crate::bytes::le_bytes(packet.surface_id as nat, 2));
    assert(bytes.subrange(18, 20) =~= crate::bytes::le_bytes(packet.x as nat, 2));
    assert(bytes.subrange(20, 22) =~= crate::bytes::le_bytes(packet.y as nat, 2));
    assert(bytes.subrange(22, 24) =~= crate::bytes::le_bytes(packet.width as nat, 2));
    assert(bytes.subrange(24, 26) =~= crate::bytes::le_bytes(packet.height as nat, 2));
    assert(bytes.subrange(26, 30) =~= crate::bytes::le_bytes(packet.output_x as nat, 4));
    assert(bytes.subrange(30, 34) =~= crate::bytes::le_bytes(packet.output_y as nat, 4));
    assert(bytes.subrange(34, 38) =~= crate::bytes::le_bytes(length_field(packet.data.len()), 4));
    crate::bytes::law_le_bytes_read_back(packet.timestamp_us as nat, 8);
    crate::bytes::law_le_bytes_read_back(packet.surface_id as nat, 2);
    crate::bytes::law_le_bytes_read_back(packet.x as nat, 2);
    crate::bytes::law_le_bytes_read_back(packet.y as nat, 2);
    crate::bytes::law_le_bytes_read_back(packet.width as nat, 2);
    crate::bytes::law_le_bytes_read_back(packet.height as nat, 2);
    crate::bytes::law_le_bytes_read_back(packet.output_x as nat, 4);
    crate::bytes::law_le_bytes_read_back(packet.output_y as nat, 4);
    crate::bytes::law_le_bytes_read_back(length_field(packet.data.len()), 4);
    assert(bytes.skip(VIDEO_HEADER_LEN as int) =~= packet.data);
}

/// Two packets that encode to the same bytes are the same packet.
pub proof fn law_encoding_is_injective(first: PacketView, second: PacketView)
    requires
        first.encoded() == second.encoded(),
    ensures
        first == second,
{
    law_packet_reads_back(first);
    law_packet_reads_back(second);
}

/// Where everything stands in an encoded packet: `RDPH` and the version, the codec, the
/// key frame flag, numbers with the least significant byte first, and the data behind
/// 38 bytes.
pub proof fn law_packet_layout(packet: PacketView)
    ensures
        ({
            let b = packet.encoded();
            &&& b.len() == 38 + packet.data.len()
            &&& b[0] == 0x52 && b[1] == 0x44 && b[2] == 0x50 && b[3] == 0x48
            &&& b[4] == 1
            &&& b[5] == 1 <==> packet.codec == VideoCodec::Avc420
            &&& b[5] == 2 <==> packet.codec == VideoCodec::RgbaClearCodec
            &&& b[5] == 3 <==> packet.codec == VideoCodec::RgbaProgressive
            &&& b[6] == 1 <==> packet.key_frame
            &&& b[6] == 0 <==> !packet.key_frame
            &&& b[7] == 0
            &&& b[8] + 0x100 * b[9] + 0x1_0000 * b[10] + 0x100_0000 * b[11] + 0x1_0000_0000 * b[12]
                + 0x100_0000_0000 * b[13] + 0x1_0000_0000_0000 * b[14] + 0x100_0000_0000_0000
                * b[15] == packet.timestamp_us
            &&& b[16] + 0x100 * b[17] == packet.surface_id
            &&& b[18] + 0x100 * b[19] == packet.x
            &&& b[20] + 0x100 * b[21] == packet.y
            &&& b[22] + 0x100 * b[23] == packet.width
            &&& b[24] + 0x100 * b[25] == packet.height
            &&& b[26] + 0x100 * b[27] + 0x1_0000 * b[28] + 0x100_0000 * b[29] == packet.output_x
            &&& b[30] + 0x100 * b[31] + 0x1_0000 * b[32] + 0x100_0000 * b[33] == packet.output_y
            &&& packet.data.len() <= 0xffff_ffff ==> b[34] + 0x100 * b[35] + 0x1_0000 * b[36]
                + 0x100_0000 * b[37] == packet.data.len()
            &&& packet.data.len() > 0xffff_ffff ==> b[34] == 255 && b[35] == 255 && b[36] == 255
                && b[37] == 255
            &&& b.skip(38) == packet.data
        }),
{
    law_packet_reads_back(packet);
    lemma_header_len(packet);
    lemma_field_lens(packet);
    crate::bytes::lemma_le_ranges();
    crate::bytes::law_le_bytes_read_back(packet.timestamp_us as nat, 8);
    crate::bytes::law_bytes_have_weights(crate::bytes::le_bytes(packet.timestamp_us as nat, 8));
    crate::bytes::law_written_bytes_have_weights(packet.surface_id as nat);
    crate::bytes::law_written_bytes_have_weights(packet.x as nat);
    crate::bytes::law_written_bytes_have_weights(packet.y as nat);
    crate::bytes::law_written_bytes_have_weights(packet.width as nat);
    crate::bytes::law_written_bytes_have_weights(packet.height as nat);
    crate::bytes::law_written_bytes_have_weights(packet.output_x as nat);
    crate::bytes::law_written_bytes_have_weights(packet.output_y as nat);
    crate::bytes::law_written_bytes_have_weights(length_field(packet.data.len()));
    assert(packet.encoded().skip(38) =~= packet.data);
}

/// The content of a packet is the packet, field by field.
pub proof fn law_packet_content(packet: VideoPacket)
    ensures
        packet@.codec == packet.codec,
        packet@.key_frame == packet.key_frame,
        packet@.timestamp_us == packet.timestamp_us,
        packet@.surface_id == packet.surface_id,
        packet@.x == packet.x,
        packet@.y == packet.y,
        packet@.width == packet.width,
        packet@.height == packet.height,
        packet@.output_x == packet.output_x,
        packet@.output_y == packet.output_y,
        packet@.data == packet.data@,
{
}

/// The content of an event is what it carries.
pub proof fn law_event_content(events: Seq<GatewayEvent>, at: int)
    requires
        0 <= at < events.len(),
    ensures
        event_views(events).len() == events.len(),
        match events[at] {
            GatewayEvent::Video(packet) => event_views(events)[at] == EventView::Video(packet@),
            GatewayEvent::Control(ControlMsg::Status { phase, message }) => event_views(events)[at]
                == EventView::Control(ControlView::Status { phase: phase@, message: message@ }),
            GatewayEvent::Control(ControlMsg::Resize { width, height }) => event_views(events)[at]
                == EventView::Control(ControlView::Resize { width, height }),
            GatewayEvent::Control(ControlMsg::EgfxNegotiated { capability }) => event_views(
                events,
            )[at] == EventView::Control(ControlView::EgfxNegotiated { capability: capability@ }),
            GatewayEvent::Control(ControlMsg::Warning { message }) => event_views(events)[at]
                == EventView::Control(ControlView::Warning { message: message@ }),
            GatewayEvent::Control(ControlMsg::Error { message }) => event_views(events)[at]
                == EventView::Control(ControlView::Error { message: message@ }),
        },
{
}

} // verus!
