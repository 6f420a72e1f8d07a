use rdpweb::protocol::{VideoCodec, VideoPacket, VIDEO_HEADER_LEN, VIDEO_MAGIC, VIDEO_VERSION};

fn packet(codec: VideoCodec, key_frame: bool, data: Vec<u8>) -> VideoPacket {
    VideoPacket {
        codec,
        key_frame,
        timestamp_us: 0x0102_0304_0506_0708,
        surface_id: 0x1112,
        x: 0x2122,
        y: 0x3132,
        width: 0x4142,
        height: 0x5152,
        output_x: 0x6162_6364,
        output_y: 0x7172_7374,
        data,
    }
}

#[test]
fn video_header_is_stable() {
    let bytes = VideoPacket {
        codec: VideoCodec::Avc420,
        key_frame: true,
        timestamp_us: 99,
        surface_id: 2,
        x: 3,
        y: 4,
        width: 1280,
        height: 800,
        output_x: 5,
        output_y: 6,
        data: vec![1, 2, 3],
    }
    .encode();

    assert_eq!(&bytes[..4], &VIDEO_MAGIC);
    assert_eq!(&bytes[..4], b"RDPH");
    assert_eq!(bytes[4], VIDEO_VERSION);
    assert_eq!(bytes[5], VideoCodec::Avc420.code());
    assert_eq!(bytes[5], 1);
    assert_eq!(bytes[6], 1);
    assert_eq!(bytes.len(), VIDEO_HEADER_LEN + 3);
    assert_eq!(&bytes[VIDEO_HEADER_LEN..], &[1, 2, 3]);
}

#[test]
fn every_field_has_its_place() {
    let bytes = packet(VideoCodec::RgbaProgressive, false, vec![9; 5]).encode();
    let expected: Vec<u8> = vec![
        0x52, 0x44, 0x50, 0x48, 1, 3, 0, 0, // magic, version, codec, key frame, padding
        8, 7, 6, 5, 4, 3, 2, 1, // timestamp
        0x12, 0x11, 0x22, 0x21, 0x32, 0x31, 0x42, 0x41, 0x52, 0x51, // surface and area
        0x64, 0x63, 0x62, 0x61, 0x74, 0x73, 0x72, 0x71, // output position
        5, 0, 0, 0, // length
        9, 9, 9, 9, 9,
    ];
    assert_eq!(bytes, expected);
}

#[test]
fn codecs_have_different_numbers() {
    assert_eq!(VideoCodec::Avc420.code(), 1);
    assert_eq!(VideoCodec::RgbaClearCodec.code(), 2);
    assert_eq!(VideoCodec::RgbaProgressive.code(), 3);
}

#[test]
fn empty_data_is_only_a_header() {
    let bytes = packet(VideoCodec::RgbaClearCodec, false, Vec::new()).encode();
    assert_eq!(bytes.len(), VIDEO_HEADER_LEN);
    assert_eq!(&bytes[34..38], &[0, 0, 0, 0]);
}

#[test]
fn different_packets_encode_differently() {
    let first = packet(VideoCodec::Avc420, true, vec![1, 2]).encode();
    let second = packet(VideoCodec::Avc420, false, vec![1, 2]).encode();
    let third = packet(VideoCodec::Avc420, true, vec![1, 2, 0]).encode();
    assert_ne!(first, second);
    assert_ne!(first, third);
}
