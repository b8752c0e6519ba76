use kasumin::connection::Client;
use kasumin::server_error::{EnvelopeError, ServerErrorKind};

fn frame(payload: &[u8], limit: u32) -> Vec<u8> {
    Client::encode_envelope(payload, limit)
}

#[test]
fn round_trip_small_payload() {
    let payload = vec![1u8, 2, 3, 4, 5];
    let framed = frame(&payload, 64);
    assert_eq!(framed.len(), 11 + payload.len());
    assert_eq!(&framed[..5], b"kasu:");
    assert_eq!(&framed[5..9], &[0, 0, 0, 5]);
    assert_eq!(&framed[9..11], b"\r\n");
    assert_eq!(&framed[11..], &payload[..]);
    let decoded = Client::decode_envelope(&framed[..11], 64).expect("the frame is valid");
    assert_eq!(decoded, 5);
}

#[test]
fn round_trip_every_length_up_to_limit() {
    let limit = 300u32;
    for n in 1..=limit {
        let payload = vec![0xabu8; n as usize];
        let framed = frame(&payload, limit);
        let decoded = Client::decode_envelope(&framed[..11], limit).expect("the frame is valid");
        assert_eq!(decoded, n);
        assert_eq!(&framed[11..], &payload[..]);
    }
}

#[test]
fn round_trip_length_needing_every_byte() {
    // A length above 2^24 exercises all four big-endian bytes.
    let n: u32 = 0x0102_0304;
    let mut envelope = b"kasu:".to_vec();
    envelope.extend_from_slice(&[0x01, 0x02, 0x03, 0x04]);
    envelope.extend_from_slice(b"\r\n");
    let decoded = Client::decode_envelope(&envelope, u32::MAX).expect("the header is valid");
    assert_eq!(decoded, n);
}

#[test]
fn rejects_wrong_magic() {
    let mut envelope = b"kasv:".to_vec();
    envelope.extend_from_slice(&[0, 0, 0, 1]);
    envelope.extend_from_slice(b"\r\n");
    match Client::decode_envelope(&envelope, 64) {
        Err(ServerErrorKind::Envelope(EnvelopeError::WrongFormat(raw))) => {
            assert_eq!(raw, envelope);
        },
        other => panic!("expected WrongFormat, got {:?}", other),
    }
}

#[test]
fn rejects_missing_terminator() {
    let mut envelope = b"kasu:".to_vec();
    envelope.extend_from_slice(&[0, 0, 0, 1]);
    envelope.extend_from_slice(b"xy");
    match Client::decode_envelope(&envelope, 64) {
        Err(ServerErrorKind::Envelope(EnvelopeError::WrongFormat(raw))) => {
            assert_eq!(raw, envelope);
        },
        other => panic!("expected WrongFormat, got {:?}", other),
    }
}

#[test]
fn rejects_zero_length() {
    let mut envelope = b"kasu:".to_vec();
    envelope.extend_from_slice(&[0, 0, 0, 0]);
    envelope.extend_from_slice(b"\r\n");
    match Client::decode_envelope(&envelope, 64) {
        Err(ServerErrorKind::Envelope(EnvelopeError::Zero(z))) => assert_eq!(z, 0),
        other => panic!("expected Zero, got {:?}", other),
    }
}

#[test]
fn rejects_oversized_length() {
    let mut envelope = b"kasu:".to_vec();
    envelope.extend_from_slice(&[0, 0, 1, 0]);
    envelope.extend_from_slice(b"\r\n");
    match Client::decode_envelope(&envelope, 64) {
        Err(ServerErrorKind::Envelope(EnvelopeError::DataTooLarge { limit, data_length })) => {
            assert_eq!(limit, 64);
            assert_eq!(data_length, 256);
        },
        other => panic!("expected DataTooLarge, got {:?}", other),
    }
}

#[test]
fn rejects_short_header() {
    let envelope = b"kasu:";
    match Client::decode_envelope(envelope, 64) {
        Err(ServerErrorKind::Envelope(EnvelopeError::InvalidSize(got))) => assert_eq!(got, 5),
        other => panic!("expected InvalidSize, got {:?}", other),
    }
}

#[test]
fn accepts_length_equal_to_limit() {
    let payload = vec![7u8; 64];
    let framed = frame(&payload, 64);
    let decoded = Client::decode_envelope(&framed[..11], 64).expect("a frame at the limit is valid");
    assert_eq!(decoded, 64);
}
