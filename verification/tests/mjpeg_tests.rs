use picam_server::mjpeg::encode_mjpeg_part;

#[test]
fn encodes_exact_part_bytes() {
    let frame = vec![0xff, 0xd8, 0xff, 0xd9];
    let part = encode_mjpeg_part(&frame);
    let mut expected: Vec<u8> = Vec::new();
    expected.extend_from_slice(b"--frame\r\nContent-Type: image/jpeg\r\nContent-Length: 4\r\n\r\n");
    expected.extend_from_slice(&frame);
    expected.extend_from_slice(b"\r\n");
    assert_eq!(part, expected);
}

#[test]
fn declares_multi_digit_length() {
    let frame = vec![7u8; 123];
    let part = encode_mjpeg_part(&frame);
    let mut expected: Vec<u8> = Vec::new();
    expected.extend_from_slice(
        b"--frame\r\nContent-Type: image/jpeg\r\nContent-Length: 123\r\n\r\n",
    );
    expected.extend_from_slice(&frame);
    expected.extend_from_slice(b"\r\n");
    assert_eq!(part, expected);
}
