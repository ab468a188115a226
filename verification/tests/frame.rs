use chat_server::frame::{
    decode_frame, decode_header, encode_frame, encode_header, FrameError, FrameReader, ReadEvent,
    ReadStep, HEADER_LEN, MAX_FRAME,
};

#[test]
fn header_is_four_little_endian_bytes() {
    assert_eq!(encode_header(0), vec![0, 0, 0, 0]);
    assert_eq!(encode_header(2), vec![2, 0, 0, 0]);
    assert_eq!(encode_header(300), vec![44, 1, 0, 0]);
    assert_eq!(encode_header(65536), vec![0, 0, 1, 0]);
    assert_eq!(encode_header(MAX_FRAME), vec![0, 0, 16, 0]);
}

#[test]
fn header_agrees_with_std() {
    for len in [0usize, 1, 255, 256, 257, 65535, 65536, 70000, 1048575, 1048576] {
        assert_eq!(encode_header(len), (len as u32).to_le_bytes().to_vec());
        let bytes = (len as u32).to_le_bytes();
        assert_eq!(decode_header(&bytes), Ok(len));
    }
}

#[test]
fn frame_is_header_then_body() {
    assert_eq!(encode_frame(b"hi"), Ok(vec![2, 0, 0, 0, b'h', b'i']));
    assert_eq!(encode_frame(b""), Ok(vec![0, 0, 0, 0]));
}

#[test]
fn frame_of_largest_payload() {
    let payload = vec![7u8; MAX_FRAME];
    let frame = encode_frame(&payload).unwrap();
    assert_eq!(frame.len(), HEADER_LEN + MAX_FRAME);
    assert_eq!(&frame[..4], &[0, 0, 16, 0]);
    assert_eq!(&frame[4..], &payload[..]);
}

#[test]
fn frame_of_oversized_payload_is_refused() {
    let payload = vec![0u8; MAX_FRAME + 1];
    assert_eq!(encode_frame(&payload), Err(FrameError::TooLarge));
}

#[test]
fn header_announcing_too_much_is_refused() {
    assert_eq!(decode_header(&[0, 0, 16, 0]), Ok(1048576));
    assert_eq!(decode_header(&[1, 0, 16, 0]), Err(FrameError::TooLarge));
    assert_eq!(decode_header(&[255, 255, 255, 255]), Err(FrameError::TooLarge));
    assert_eq!(decode_header(&[0, 0, 0, 1]), Err(FrameError::TooLarge));
}

#[test]
fn decode_gives_back_what_encode_took() {
    for payload in [&b""[..], &b"x"[..], &b"{\"Message\":{\"message\":\"hi\"}}"[..], &[0u8; 1000][..]] {
        let frame = encode_frame(payload).unwrap();
        assert_eq!(decode_frame(&frame), Ok(Some((payload.to_vec(), 4 + payload.len()))));
    }
}

#[test]
fn decode_leaves_what_follows_the_frame() {
    let mut bytes = encode_frame(b"one").unwrap();
    bytes.extend_from_slice(&encode_frame(b"second").unwrap());
    assert_eq!(decode_frame(&bytes), Ok(Some((b"one".to_vec(), 7))));
    assert_eq!(decode_frame(&bytes[7..]), Ok(Some((b"second".to_vec(), 10))));
}

#[test]
fn decode_waits_for_a_whole_frame() {
    let frame = encode_frame(b"hello").unwrap();
    for cut in 0..frame.len() {
        assert_eq!(decode_frame(&frame[..cut]), Ok(None));
    }
}

#[test]
fn decode_refuses_an_oversized_header_before_the_body() {
    assert_eq!(decode_frame(&[1, 0, 16, 0]), Err(FrameError::TooLarge));
    assert_eq!(decode_frame(&[1, 0, 16, 0, 1, 2, 3]), Err(FrameError::TooLarge));
}

#[test]
fn reader_gathers_header_then_body() {
    let mut reader = FrameReader::new();
    assert_eq!(reader.wanted(), 4);
    assert_eq!(reader.on_read(ReadEvent::Data(vec![3, 0])), ReadStep::ReadMore);
    assert_eq!(reader.wanted(), 2);
    assert_eq!(reader.on_read(ReadEvent::Data(vec![0, 0])), ReadStep::ReadMore);
    assert_eq!(reader.wanted(), 3);
    assert_eq!(reader.on_read(ReadEvent::Data(vec![b'a'])), ReadStep::ReadMore);
    assert_eq!(reader.wanted(), 2);
    assert_eq!(
        reader.on_read(ReadEvent::Data(vec![b'b', b'c'])),
        ReadStep::Deliver(b"abc".to_vec())
    );
    assert_eq!(reader.wanted(), 4);
}

#[test]
fn reader_reads_frame_after_frame() {
    let mut reader = FrameReader::new();
    for payload in [&b"first"[..], &b"2"[..], &b"the third"[..]] {
        let frame = encode_frame(payload).unwrap();
        assert_eq!(reader.on_read(ReadEvent::Data(frame[..4].to_vec())), ReadStep::ReadMore);
        assert_eq!(reader.wanted(), payload.len());
        assert_eq!(
            reader.on_read(ReadEvent::Data(frame[4..].to_vec())),
            ReadStep::Deliver(payload.to_vec())
        );
    }
}

#[test]
fn reader_byte_by_byte() {
    let payload = b"byte by byte".to_vec();
    let frame = encode_frame(&payload).unwrap();
    let mut reader = FrameReader::new();
    for (i, byte) in frame.iter().enumerate() {
        assert!(reader.wanted() >= 1);
        let step = reader.on_read(ReadEvent::Data(vec![*byte]));
        if i + 1 < frame.len() {
            assert_eq!(step, ReadStep::ReadMore);
        } else {
            assert_eq!(step, ReadStep::Deliver(payload.clone()));
        }
    }
}

#[test]
fn reader_delivers_an_empty_frame() {
    let mut reader = FrameReader::new();
    assert_eq!(reader.on_read(ReadEvent::Data(vec![0, 0, 0, 0])), ReadStep::Deliver(vec![]));
    assert_eq!(reader.wanted(), 4);
}

#[test]
fn reader_closes_on_a_read_of_nothing() {
    let mut reader = FrameReader::new();
    assert_eq!(reader.on_read(ReadEvent::Data(vec![])), ReadStep::Close);
    let mut reader = FrameReader::new();
    assert_eq!(reader.on_read(ReadEvent::Data(vec![5, 0, 0, 0])), ReadStep::ReadMore);
    assert_eq!(reader.on_read(ReadEvent::Data(vec![1, 2])), ReadStep::ReadMore);
    assert_eq!(reader.on_read(ReadEvent::Data(vec![])), ReadStep::Close);
}

#[test]
fn reader_retries_when_nothing_was_ready() {
    let mut reader = FrameReader::new();
    assert_eq!(reader.on_read(ReadEvent::Data(vec![2, 0, 0])), ReadStep::ReadMore);
    assert_eq!(reader.on_read(ReadEvent::WouldBlock), ReadStep::ReadMore);
    assert_eq!(reader.wanted(), 1);
    assert_eq!(reader.on_read(ReadEvent::Data(vec![0])), ReadStep::ReadMore);
    assert_eq!(reader.on_read(ReadEvent::WouldBlock), ReadStep::ReadMore);
    assert_eq!(reader.wanted(), 2);
    assert_eq!(reader.on_read(ReadEvent::Data(vec![9, 8])), ReadStep::Deliver(vec![9, 8]));
}

#[test]
fn reader_closes_on_a_failed_read() {
    let mut reader = FrameReader::new();
    assert_eq!(reader.on_read(ReadEvent::Failed), ReadStep::Close);
}

#[test]
fn reader_aborts_on_an_oversized_header() {
    let mut reader = FrameReader::new();
    assert_eq!(reader.on_read(ReadEvent::Data(vec![1, 0])), ReadStep::ReadMore);
    assert_eq!(
        reader.on_read(ReadEvent::Data(vec![16, 0])),
        ReadStep::Abort(FrameError::TooLarge)
    );
    assert_eq!(reader.wanted(), 4);
}

#[test]
fn reader_takes_the_largest_frame() {
    let mut reader = FrameReader::new();
    assert_eq!(reader.on_read(ReadEvent::Data(vec![0, 0, 16, 0])), ReadStep::ReadMore);
    assert_eq!(reader.wanted(), MAX_FRAME);
    let body = vec![1u8; MAX_FRAME];
    assert_eq!(reader.on_read(ReadEvent::Data(body.clone())), ReadStep::Deliver(body));
}
