use sav1n::video_header::{ColorSpaceType, HeaderError, VideoHeader};

#[test]
fn test_read() {
    let mut vec: Vec<u8> = Vec::new();
    vec.extend(b"YUV4MPEG2 W384 H288 F25:1 Ip A0:0 C420p10\x0A");
    let header = VideoHeader::read(&vec).expect("should succeed");

    assert_eq!(384, header.width);
    assert_eq!(288, header.height);
    assert_eq!("25:1", header.rate);
    assert_eq!("p", header.interlace.unwrap());
    assert_eq!(ColorSpaceType::C420p10, header.color_space_type.unwrap());
}

#[test]
fn video_header_test_write() {
    let header_bytes = b"YUV4MPEG2 W384 H288 F25:1 Ip A0:0 C420p10\x0A";
    let mut vec: Vec<u8> = Vec::new();
    vec.extend(header_bytes);
    let header = VideoHeader::read(&vec).expect("should succeed");

    let mut output = vec![];
    header.write(&mut output);
    assert_eq!(output.as_slice(), header_bytes);
}

#[test]
fn test_frame_size() {
    let mut vec: Vec<u8> = Vec::new();
    vec.extend(b"YUV4MPEG2 W640 H480 F25:1 Ip A0:0\x0A");
    let header = VideoHeader::read(&vec).expect("should succeed");

    assert_eq!(921600, header.calc_frame_size())
}

#[test]
fn header_keeps_optional_fields_apart() {
    let header = VideoHeader::read(b"YUV4MPEG2 W384 H288 F25:1 Ip A0:0 C420p10\n").unwrap();
    assert_eq!(header.aspect_ratio.as_deref(), Some("0:0"));
    assert_eq!(header.interlace.as_deref(), Some("p"));
    let bare = VideoHeader::read(b"YUV4MPEG2 W2 H1 F30:1\n").unwrap();
    assert!(bare.interlace.is_none());
    assert!(bare.aspect_ratio.is_none());
    assert!(bare.color_space_type.is_none());
}

#[test]
fn header_stops_at_the_first_line_feed() {
    let header = VideoHeader::read(b"YUV4MPEG2 W2 H1 F30:1\nFRAME\nab").unwrap();
    assert_eq!(header.as_bytes, b"YUV4MPEG2 W2 H1 F30:1\n");
    let mut out = b"abc".to_vec();
    header.write(&mut out);
    assert_eq!(out, b"abcYUV4MPEG2 W2 H1 F30:1\n");
}

#[test]
fn header_round_trip_keeps_comments_and_order() {
    let line = b"YUV4MPEG2 Xfirst H7 W+9 F1:1 Xsecond C444 W10\n";
    let header = VideoHeader::read(line).unwrap();
    assert_eq!(header.width, 10);
    assert_eq!(header.height, 7);
    assert_eq!(header.color_space_type, Some(ColorSpaceType::C444));
    let mut out = Vec::new();
    header.clone().write(&mut out);
    assert_eq!(out, line);
    let again = VideoHeader::read(&out).unwrap();
    assert_eq!(again.as_bytes, header.as_bytes);
}

#[test]
fn header_errors() {
    let err = |line: &[u8]| VideoHeader::read(line).err();
    assert_eq!(err(b"YUV4MPEG2 W1 H1 F1"), Some(HeaderError::MissingTerminator));
    assert_eq!(err(b""), Some(HeaderError::MissingTerminator));
    assert_eq!(err(b"\n"), Some(HeaderError::WrongMagic));
    assert_eq!(err(b"YUV4MPEG W1 H1 F1\n"), Some(HeaderError::WrongMagic));
    assert_eq!(err(b"YUV4MPEG2  W1 H1 F1\n"), Some(HeaderError::EmptyParameter));
    assert_eq!(err(b"YUV4MPEG2 W1 H1 F1 \n"), Some(HeaderError::EmptyParameter));
    assert_eq!(err(b"YUV4MPEG2 W1 H1 F\xFF\n"), Some(HeaderError::InvalidText));
    assert_eq!(err(b"YUV4MPEG2 W1 H1 F1 C420\n"), Some(HeaderError::UnsupportedColorSpace));
    assert_eq!(err(b"YUV4MPEG2 W1 H1 F1 Q1\n"), Some(HeaderError::UnknownParameter));
    assert_eq!(err(b"YUV4MPEG2 Wx H1 F1\n"), Some(HeaderError::InvalidWidth));
    assert_eq!(err(b"YUV4MPEG2 W4294967296 H1 F1\n"), Some(HeaderError::InvalidWidth));
    assert_eq!(err(b"YUV4MPEG2 W1 H F1\n"), Some(HeaderError::InvalidHeight));
    assert_eq!(err(b"YUV4MPEG2 H1 F1\n"), Some(HeaderError::MissingWidth));
    assert_eq!(err(b"YUV4MPEG2 W1 F1\n"), Some(HeaderError::MissingHeight));
    assert_eq!(err(b"YUV4MPEG2 W1 H1\n"), Some(HeaderError::MissingRate));
}

#[test]
fn header_width_can_be_largest_u32() {
    let header = VideoHeader::read(b"YUV4MPEG2 W4294967295 H1 F1\n").unwrap();
    assert_eq!(header.width, u32::MAX);
}

#[test]
fn frame_size_by_color_space() {
    let sized = |c: Option<ColorSpaceType>| {
        let mut header = VideoHeader::new();
        header.width = 6;
        header.height = 3;
        header.color_space_type = c;
        header.calc_frame_size()
    };
    assert_eq!(sized(Some(ColorSpaceType::C410)), 22);
    assert_eq!(sized(Some(ColorSpaceType::C411)), 27);
    assert_eq!(sized(Some(ColorSpaceType::C420p10)), 54);
    assert_eq!(sized(Some(ColorSpaceType::C422)), 36);
    assert_eq!(sized(Some(ColorSpaceType::C440)), 36);
    assert_eq!(sized(Some(ColorSpaceType::C444)), 54);
    assert_eq!(sized(None), 54);
}

#[test]
fn placeholder_header() {
    let header = VideoHeader::new();
    assert_eq!(header.width, 240);
    assert_eq!(header.height, 160);
    assert_eq!(header.rate, "1234");
    assert!(header.as_bytes.is_empty());
    assert_eq!(header.calc_frame_size(), 115200);
    assert_eq!(header.checked_frame_size(), Some(115200));
}
