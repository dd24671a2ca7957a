use sav1n::frame::{ByteSource, Frame, FrameError, Status};

#[test]
fn test_read_frame() {
    let mut frame = Frame::new(12, 1);
    let mut data: Vec<u8> = vec![];
    data.extend(b"FRAME\x0Awhat is love");
    let mut test_file = ByteSource::new(data);
    frame.read(12, 2, &mut test_file).unwrap();
    assert_eq!(frame.num, 2);
    assert_eq!(frame.data(), b"what is love")
}

#[test]
fn test_read_two_frames() {
    let mut frame = Frame::new(12, 1);
    let mut data: Vec<u8> = vec![];
    data.extend(b"FRAME\x0Awhat is loveFRAME\x0Ais what love");
    let mut test_file = ByteSource::new(data);
    frame.read(12, 2, &mut test_file).unwrap();
    assert_eq!(frame.num, 2);
    assert_eq!(frame.data(), b"what is love");

    frame.read(12, 3, &mut test_file).unwrap();
    assert_eq!(frame.num, 3);
    assert_eq!(frame.data(), b"is what love");
}

#[test]
fn frame_test_write() {
    let mut frame = Frame::new(12, 1);
    let mut data: Vec<u8> = vec![];
    let output = b"FRAME\x0Awhat is love";
    data.extend(output);
    let mut test_file = ByteSource::new(data);
    frame.read(12, 2, &mut test_file).unwrap();

    let mut out_file: Vec<u8> = vec![];
    frame.write(&mut out_file);
    assert_eq!(output, out_file.as_slice())
}

#[test]
fn new_frame_is_zeroed_and_owned() {
    let frame = Frame::new(5, 9);
    assert!(frame.droppable);
    assert_eq!(frame.data_len, 5);
    assert_eq!(frame.num, 9);
    assert_eq!(frame.data(), &[0u8; 5]);
}

#[test]
fn read_reports_the_clean_end() {
    let mut frame = Frame::new(4, 0);
    frame.data_mut().copy_from_slice(b"abcd");
    let mut source = ByteSource::new(Vec::new());
    assert_eq!(frame.read(6, 7, &mut source), Ok(Status::Completed));
    assert_eq!(frame.num, 7);
    assert_eq!(frame.data_len, 6);
    assert_eq!(frame.data(), b"abcd\0\0");
}

#[test]
fn read_errors() {
    let mut frame = Frame::new(4, 0);
    let mut source = ByteSource::new(b"FRAME Ip\nwhat".to_vec());
    assert_eq!(frame.read(4, 1, &mut source), Err(FrameError::BadMarker));
    assert_eq!(source.len(), 4);
    let mut source = ByteSource::new(b"FRAME".to_vec());
    assert_eq!(frame.read(4, 1, &mut source), Err(FrameError::BadMarker));
    assert_eq!(source.len(), 0);
    let mut source = ByteSource::new(b"FRAME\nwha".to_vec());
    assert_eq!(frame.read(4, 1, &mut source), Err(FrameError::UnexpectedEof));
    assert_eq!(source.len(), 0);
}

#[test]
fn read_takes_marker_and_payload_only() {
    let mut frame = Frame::new(4, 0);
    let mut source = ByteSource::new(b"FRAME\nwhatFRAME\nlo".to_vec());
    assert_eq!(frame.read(4, 0, &mut source), Ok(Status::Processing));
    assert_eq!(source.len(), 8);
    assert_eq!(source.read_until(b'\n'), b"FRAME\n");
    assert_eq!(source.read_exact(3), None);
    assert_eq!(source.len(), 0);
}

#[test]
fn source_reads_lines_and_blocks() {
    let mut source = ByteSource::new(b"ab\ncd".to_vec());
    assert_eq!(source.read_exact(1), Some(b"a".to_vec()));
    assert_eq!(source.read_until(b'\n'), b"b\n");
    assert_eq!(source.read_until(b'\n'), b"cd");
    assert_eq!(source.read_until(b'\n'), b"");
}

#[test]
fn write_appends_after_what_is_there() {
    let mut frame = Frame::new(2, 0);
    frame.data_mut()[1] = 7;
    let mut out = b"x".to_vec();
    frame.write(&mut out);
    assert_eq!(out, b"xFRAME\n\x00\x07");
}

#[test]
fn clone_owns_and_clone_from_keeps_ownership() {
    let mut slot = Frame::new(1, 0);
    slot.droppable = false;
    let mut source = Frame::new(3, 5);
    source.data_mut().copy_from_slice(b"abc");
    slot.clone_from(&source);
    assert!(!slot.droppable);
    assert_eq!((slot.num, slot.data_len, slot.data()), (5, 3, &b"abc"[..]));
    let copy = slot.clone();
    assert!(copy.droppable);
    assert_eq!((copy.num, copy.data_len, copy.data()), (5, 3, &b"abc"[..]));
}
