use picam_server::frame::FrameExtractor;
use picam_server::session::FRAME_BUFFER_CEILING;

fn sample_stream() -> Vec<u8> {
    // junk, SOI, payload, EOI, trailing junk
    vec![0x00, 0x10, 0xff, 0xd8, 0x01, 0x02, 0x03, 0xff, 0xd9, 0x77, 0x88]
}

fn expected_frame() -> Vec<u8> {
    vec![0xff, 0xd8, 0x01, 0x02, 0x03, 0xff, 0xd9]
}

#[test]
fn extracts_frame_from_single_chunk() {
    let mut e = FrameExtractor::new(FRAME_BUFFER_CEILING);
    let r = e.push_chunk(&sample_stream());
    assert_eq!(r, Some(expected_frame()));
}

#[test]
fn extracts_same_frame_for_every_chunk_split() {
    let stream = sample_stream();
    for cut in 0..=stream.len() {
        let mut e = FrameExtractor::new(FRAME_BUFFER_CEILING);
        let first: Vec<u8> = stream[..cut].to_vec();
        let second: Vec<u8> = stream[cut..].to_vec();
        let mut got: Option<Vec<u8>> = e.push_chunk(&first);
        if got.is_none() {
            got = e.push_chunk(&second);
        }
        assert_eq!(got, Some(expected_frame()), "split at {}", cut);
    }
}

#[test]
fn extracts_frame_split_between_marker_bytes() {
    // The start marker is cut exactly between FF and D8.
    let mut e = FrameExtractor::new(FRAME_BUFFER_CEILING);
    assert_eq!(e.push_chunk(&vec![0x00, 0xff]), None);
    let r = e.push_chunk(&vec![0xd8, 0x05, 0xff, 0xd9]);
    assert_eq!(r, Some(vec![0xff, 0xd8, 0x05, 0xff, 0xd9]));
}

#[test]
fn extracts_frame_of_bare_markers() {
    let mut e = FrameExtractor::new(FRAME_BUFFER_CEILING);
    let r = e.push_chunk(&vec![0xff, 0xd8, 0xff, 0xd9]);
    assert_eq!(r, Some(vec![0xff, 0xd8, 0xff, 0xd9]));
}

#[test]
fn zero_stream_never_yields_frame_or_buffers() {
    // Over five million zero bytes: no frame, and nothing ever accumulates.
    let mut e = FrameExtractor::new(FRAME_BUFFER_CEILING);
    let chunk = vec![0u8; 65536];
    let mut total = 0usize;
    while total <= 5_000_000 {
        assert_eq!(e.push_chunk(&chunk), None);
        assert_eq!(e.buffered_len(), 0);
        total += chunk.len();
    }
}

#[test]
fn unterminated_frame_stays_under_ceiling() {
    // A start marker followed by endless zeros: the buffer is discarded at the
    // ceiling instead of growing without bound, and no frame is returned.
    let mut e = FrameExtractor::new(FRAME_BUFFER_CEILING);
    assert_eq!(e.push_chunk(&vec![0xff, 0xd8]), None);
    let chunk = vec![0u8; 65536];
    let mut total = 2usize;
    while total <= 5_400_000 {
        assert_eq!(e.push_chunk(&chunk), None);
        assert!(e.buffered_len() <= FRAME_BUFFER_CEILING);
        total += chunk.len();
    }
}

#[test]
fn second_frame_needs_new_start_marker() {
    let mut e = FrameExtractor::new(FRAME_BUFFER_CEILING);
    let r = e.push_chunk(&sample_stream());
    assert_eq!(r, Some(expected_frame()));
    // After a frame the scanner seeks again: bytes without a start marker do
    // nothing, a fresh marked frame is found.
    assert_eq!(e.push_chunk(&vec![0x01, 0x02]), None);
    let r2 = e.push_chunk(&vec![0xff, 0xd8, 0x09, 0xff, 0xd9]);
    assert_eq!(r2, Some(vec![0xff, 0xd8, 0x09, 0xff, 0xd9]));
}
