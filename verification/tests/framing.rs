use simple_network::framing::{
    encode_frames_to_buffer, frame_len, read_frame, write_frame, FrameError, FrameErrorKind,
    DEFAULT_MAX_FRAME_LEN,
};

#[test]
fn default_frame_limit() {
    assert_eq!(DEFAULT_MAX_FRAME_LEN, 64 * 1024);
}

#[test]
fn frame_is_length_and_bytes() {
    let mut out = vec![0xaa];
    write_frame(&mut out, b"abc").unwrap();
    assert_eq!(out, vec![0xaa, 0, 0, 0, 3, b'a', b'b', b'c']);
}

#[test]
fn frame_is_read_back() {
    let mut out = Vec::new();
    write_frame(&mut out, b"first").unwrap();
    write_frame(&mut out, &[7u8; 300]).unwrap();
    let mut reader: &[u8] = &out;
    assert_eq!(read_frame(&mut reader, DEFAULT_MAX_FRAME_LEN).unwrap(), b"first".to_vec());
    assert_eq!(read_frame(&mut reader, DEFAULT_MAX_FRAME_LEN).unwrap(), vec![7u8; 300]);
    assert_eq!(read_frame(&mut reader, DEFAULT_MAX_FRAME_LEN), Err(FrameError::UnexpectedEof));
}

#[test]
fn bad_prefixes_are_refused() {
    let mut zero: &[u8] = &[0, 0, 0, 0, 1];
    assert_eq!(read_frame(&mut zero, 10), Err(FrameError::ZeroLength));
    let mut large: &[u8] = &[0, 1, 0, 1];
    assert_eq!(
        read_frame(&mut large, DEFAULT_MAX_FRAME_LEN),
        Err(FrameError::TooLarge { len: 65537, max_len: 65536 })
    );
    let mut short: &[u8] = &[0, 0, 0];
    assert_eq!(read_frame(&mut short, 10), Err(FrameError::UnexpectedEof));
    let mut cut: &[u8] = &[0, 0, 0, 2, 1];
    assert_eq!(read_frame(&mut cut, 10), Err(FrameError::UnexpectedEof));
}

#[test]
fn largest_frame_is_accepted() {
    assert_eq!(frame_len([0, 1, 0, 0], DEFAULT_MAX_FRAME_LEN), Ok(65536));
    assert_eq!(frame_len([0xff, 0xff, 0xff, 0xff], usize::MAX), Ok(u32::MAX as usize));
}

#[test]
fn empty_frames_are_refused() {
    let mut out = vec![1];
    assert_eq!(write_frame(&mut out, b""), Err(FrameError::WriteEmpty));
    assert_eq!(out, vec![1]);
    assert_eq!(
        encode_frames_to_buffer(&[b"a".to_vec(), Vec::new()]),
        Err(FrameError::EncodeEmpty)
    );
}

#[test]
fn batch_is_frames_one_after_the_other() {
    let frames = [b"ab".to_vec(), b"c".to_vec()];
    let mut expected = Vec::new();
    for f in &frames {
        write_frame(&mut expected, f).unwrap();
    }
    let out = encode_frames_to_buffer(&frames).unwrap();
    assert_eq!(out, expected);
    assert_eq!(out, vec![0, 0, 0, 2, b'a', b'b', 0, 0, 0, 1, b'c']);
    assert_eq!(encode_frames_to_buffer(&[]).unwrap(), Vec::<u8>::new());
}

#[test]
fn batch_is_read_back_in_order() {
    let frames: Vec<Vec<u8>> = (1..20).map(|i| vec![i as u8; i]).collect();
    let out = encode_frames_to_buffer(&frames).unwrap();
    let mut reader: &[u8] = &out;
    for f in &frames {
        assert_eq!(&read_frame(&mut reader, 100).unwrap(), f);
    }
    assert!(reader.is_empty());
}

#[test]
fn frame_error_classes() {
    assert_eq!(FrameError::UnexpectedEof.kind(), FrameErrorKind::UnexpectedEof);
    assert_eq!(FrameError::ZeroLength.kind(), FrameErrorKind::InvalidData);
    assert_eq!(
        FrameError::TooLarge { len: 2, max_len: 1 }.kind(),
        FrameErrorKind::InvalidData
    );
    assert_eq!(FrameError::WriteEmpty.kind(), FrameErrorKind::InvalidInput);
    assert_eq!(FrameError::EncodeEmpty.kind(), FrameErrorKind::InvalidInput);
    assert_eq!(FrameError::FrameTooLarge.kind(), FrameErrorKind::InvalidInput);
    assert_eq!(FrameError::BatchTooLarge.kind(), FrameErrorKind::InvalidInput);
}

#[test]
fn batches_of_two_lists_join() {
    let a = [b"one".to_vec(), b"two".to_vec()];
    let b = [b"three".to_vec()];
    let mut joined = encode_frames_to_buffer(&a).unwrap();
    joined.extend(encode_frames_to_buffer(&b).unwrap());
    let all = [b"one".to_vec(), b"two".to_vec(), b"three".to_vec()];
    assert_eq!(encode_frames_to_buffer(&all).unwrap(), joined);
}

#[test]
fn frame_errors_in_words() {
    let too_large = |len: usize, max_len: usize| FrameError::TooLarge { len, max_len }.message();
    assert_eq!(too_large(65537, 65536), "frame too large: 65537 > 65536");
    assert_eq!(too_large(10, 9), "frame too large: 10 > 9");
    assert_eq!(
        too_large(usize::MAX, 0),
        format!("frame too large: {} > 0", usize::MAX)
    );
    assert_eq!(FrameError::UnexpectedEof.message(), "failed to fill whole buffer");
    assert_eq!(FrameError::ZeroLength.message(), "zero-length frame");
    assert_eq!(FrameError::WriteEmpty.message(), "cannot write empty frame");
    assert_eq!(FrameError::EncodeEmpty.message(), "cannot encode empty frame");
    assert_eq!(FrameError::FrameTooLarge.message(), "frame too large");
    assert_eq!(FrameError::BatchTooLarge.message(), "batch too large");
}
