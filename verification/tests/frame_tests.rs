use zed_cl::frame::{
    frame_len, frame_text, read_frame, write_frame, ByteReader, FrameError, MAX_FRAME,
};

#[test]
fn roundtrips_frame() {
    let mut buf = Vec::new();
    write_frame(&mut buf, r#"(:ID "1" :PONG T)"#).unwrap();
    let mut cur = ByteReader::new(buf);
    let text = read_frame(&mut cur).unwrap();
    assert_eq!(text, r#"(:ID "1" :PONG T)"#);
}

#[test]
fn frames_follow_each_other() {
    let mut buf = Vec::new();
    write_frame(&mut buf, "\u{e9}").unwrap();
    write_frame(&mut buf, "").unwrap();
    assert_eq!(buf, vec![0, 0, 0, 2, 0xc3, 0xa9, 0, 0, 0, 0]);
    let mut reader = ByteReader::new(buf);
    assert_eq!(read_frame(&mut reader).unwrap(), "\u{e9}");
    assert_eq!(read_frame(&mut reader).unwrap(), "");
    assert_eq!(read_frame(&mut reader), Err(FrameError::NoLength));
}

#[test]
fn broken_frames_are_refused() {
    let mut short = ByteReader::new(vec![0, 0, 0]);
    assert_eq!(read_frame(&mut short), Err(FrameError::NoLength));
    let mut cut = ByteReader::new(vec![0, 0, 0, 3, b'a', b'b']);
    assert_eq!(read_frame(&mut cut), Err(FrameError::NoBody));
    let mut bytes = ByteReader::new(vec![0, 0, 0, 1, 0xff]);
    let error = read_frame(&mut bytes).unwrap_err();
    let reason = String::from_utf8(vec![0xff]).unwrap_err().to_string();
    assert_eq!(error, FrameError::NotUtf8(reason.clone()));
    assert_eq!(error.message(), format!("frame is not UTF-8: {reason}"));
    let mut long = ByteReader::new(vec![2, 0, 0, 1, 0]);
    assert_eq!(read_frame(&mut long), Err(FrameError::TooLarge(MAX_FRAME + 1)));
}

#[test]
fn lengths_and_texts_are_read_apart() {
    assert_eq!(frame_len(&[0, 1, 2, 3]), Ok(66051));
    assert_eq!(frame_len(&[2, 0, 0, 0]), Ok(MAX_FRAME));
    assert_eq!(frame_len(&[255, 255, 255, 255]), Err(FrameError::TooLarge(4294967295)));
    assert_eq!(frame_text(b"abc".to_vec()), Ok("abc".to_string()));
    assert!(matches!(frame_text(vec![0xc3]), Err(FrameError::NotUtf8(_))));
    assert_eq!(
        FrameError::TooLong.message(),
        "frame too large: out of range integral type conversion attempted"
    );
}
