use airtalk::proto::frame::{
    finish_line, read_frame, write_frame, FrameReader, IoKind, ProtocolError, ReadEvent,
};
use airtalk::proto::{pcm_base64, AsrUsage, AudioSeconds, SecondsTerm, SessionStats, MAX_FRAME_SIZE};
use base64::engine::general_purpose::STANDARD;
use base64::Engine;
use serde_json::Value;

fn object(fields: Vec<(&str, Value)>) -> Value {
    let mut map = serde_json::Map::new();
    for (name, value) in fields {
        map.insert(name.to_string(), value);
    }
    Value::Object(map)
}

fn chunk(id: u64, pcm: &[u8]) -> Value {
    object(vec![
        ("type", Value::from("chunk")),
        ("id", Value::from(id)),
        ("pcm", Value::from(pcm_base64::serialize(&pcm.to_vec()))),
    ])
}

fn write(buf: &mut Vec<u8>, message: &Value) {
    write_frame(buf, &serde_json::to_vec(message).unwrap()).unwrap();
}

#[test]
fn roundtrip_chunk_large() {
    let pcm = (0..32000u32).map(|i| i as u8).collect::<Vec<_>>();
    let mut buf = Vec::new();
    write(&mut buf, &chunk(1, &pcm));

    let mut pos = 0;
    let line = read_frame(&buf, &mut pos).unwrap();
    let decoded: Value = serde_json::from_slice(&line).unwrap();
    assert_eq!(decoded["id"], 1);
    let got = pcm_base64::deserialize(decoded["pcm"].as_str().unwrap()).unwrap();
    assert_eq!(got, pcm);
}

#[test]
fn chunk_pcm_on_wire_is_base64_string() {
    let pcm = b"hello world".to_vec();
    let expected_b64 = STANDARD.encode(&pcm);
    let mut buf = Vec::new();
    write(&mut buf, &chunk(7, &pcm));
    let line = std::str::from_utf8(&buf).unwrap();
    assert!(
        line.contains(&format!(r#""pcm":"{expected_b64}""#)),
        "pcm not encoded as base64 string; wire = {line}"
    );
    assert_eq!(expected_b64, "aGVsbG8gd29ybGQ=");
}

#[test]
fn stream_multiple_frames() {
    let mut buf = Vec::new();
    let begin = object(vec![
        ("type", Value::from("begin")),
        ("id", Value::from(1)),
        ("vad", Value::from(true)),
    ]);
    let end = object(vec![("type", Value::from("end")), ("id", Value::from(1))]);
    write(&mut buf, &begin);
    write(&mut buf, &chunk(1, &[0u8; 100]));
    write(&mut buf, &end);

    assert_eq!(buf.iter().filter(|&&b| b == b'\n').count(), 3);

    let mut pos = 0;
    for message in [begin, chunk(1, &[0u8; 100]), end] {
        let line = read_frame(&buf, &mut pos).unwrap();
        assert_eq!(serde_json::from_slice::<Value>(&line).unwrap(), message);
    }
    assert_eq!(pos, buf.len());
    assert!(matches!(read_frame(&buf, &mut pos), Err(ProtocolError::Eof)));
}

#[test]
fn newlines_in_text_are_escaped_not_bare() {
    let mut buf = Vec::new();
    write(&mut buf, &object(vec![("text", Value::from("line1\nline2\nline3"))]));
    assert_eq!(buf.iter().filter(|&&b| b == b'\n').count(), 1);
    assert_eq!(buf.last(), Some(&b'\n'));
}

#[test]
fn clean_eof() {
    let err = read_frame(&[], &mut 0);
    assert!(matches!(err, Err(ProtocolError::Eof)));
}

#[test]
fn partial_line_is_unexpected_eof() {
    let partial = br#"{"type":"end","id":1}"#.to_vec();
    let err = read_frame(&partial, &mut 0);
    assert!(matches!(err, Err(ProtocolError::Io { kind: IoKind::UnexpectedEof, .. })), "got {err:?}");
}

#[test]
fn long_lines_are_refused() {
    let mut line = vec![b'x'; MAX_FRAME_SIZE - 1];
    let mut buf = Vec::new();
    write_frame(&mut buf, &line).unwrap();
    assert_eq!(read_frame(&buf, &mut 0).unwrap().len(), MAX_FRAME_SIZE - 1);

    line.push(b'x');
    let mut out = b"kept".to_vec();
    let err = write_frame(&mut out, &line).unwrap_err();
    assert!(matches!(
        err,
        ProtocolError::FrameTooLarge { got, max } if got == MAX_FRAME_SIZE && max == MAX_FRAME_SIZE
    ));
    assert_eq!(out, b"kept");

    // A reader takes one byte more than a writer gives.
    line.push(b'\n');
    assert_eq!(read_frame(&line, &mut 0).unwrap().len(), MAX_FRAME_SIZE);
    line.insert(0, b'x');
    assert!(matches!(
        read_frame(&line, &mut 0),
        Err(ProtocolError::FrameTooLarge { got, .. }) if got == MAX_FRAME_SIZE + 1
    ));
    assert!(matches!(
        finish_line(line),
        Err(ProtocolError::FrameTooLarge { got, .. }) if got == MAX_FRAME_SIZE + 1
    ));
}

#[test]
fn bytes_can_come_one_at_a_time() {
    let mut reader = FrameReader::new();
    assert!(reader.feed(ReadEvent::Byte(b'a')).is_none());
    assert!(reader.feed(ReadEvent::Interrupted).is_none());
    assert!(reader.feed(ReadEvent::Byte(b'b')).is_none());
    assert_eq!(reader.feed(ReadEvent::Byte(b'\n')).unwrap().unwrap(), b"ab");
    assert!(matches!(
        reader.feed(ReadEvent::End),
        Some(Err(ProtocolError::Eof))
    ));
    assert!(matches!(
        reader.feed(ReadEvent::Failed { kind: IoKind::Other, what: "gone".into() }),
        Some(Err(ProtocolError::Io { kind: IoKind::Other, what })) if what == "gone"
    ));
}

#[test]
fn whole_lines_are_checked() {
    assert_eq!(finish_line(b"ab\n".to_vec()).unwrap(), b"ab");
    assert!(matches!(finish_line(vec![]), Err(ProtocolError::Eof)));
    assert!(matches!(
        finish_line(b"ab".to_vec()),
        Err(ProtocolError::Io { kind: IoKind::UnexpectedEof, .. })
    ));
}

#[test]
fn errors_describe_themselves() {
    let large = ProtocolError::FrameTooLarge { got: 5, max: 4 };
    assert!(large.message().contains('5') && large.message().contains('4'));
    let disk = ProtocolError::Io { kind: IoKind::Other, what: "disk".into() };
    assert!(disk.message().contains("disk"));
    assert!(ProtocolError::Json("bad".into()).message().contains("bad"));
    assert!(!ProtocolError::Eof.message().is_empty());
}

#[test]
fn base64_refuses_what_it_did_not_write() {
    assert!(pcm_base64::deserialize("a").is_err());
    assert!(pcm_base64::deserialize("####").is_err());
    assert_eq!(pcm_base64::deserialize("").unwrap(), Vec::<u8>::new());
    assert_eq!(pcm_base64::deserialize("AAEC").unwrap(), vec![0, 1, 2]);
    // Not padded, padded too much, and with bits that belong to no byte.
    for text in ["AA", "AAA", "AA=", "AAAA====", "A===", "AB==", "AAB=", "AA==AAAA", "AA\n=="] {
        assert!(pcm_base64::deserialize(text).is_err(), "{text:?}");
    }
}

#[test]
fn base64_is_the_standard_one() {
    let alphabet = "ABCDEFGHIJKLMNOPQRSTUVWXYZabcdefghijklmnopqrstuvwxyz0123456789+/";
    // Three bytes hold four digits of six bits.
    let mut bytes = Vec::new();
    for d in (0..64u32).step_by(4) {
        let n = d << 18 | (d + 1) << 12 | (d + 2) << 6 | (d + 3);
        bytes.extend_from_slice(&n.to_be_bytes()[1..]);
    }
    assert_eq!(pcm_base64::serialize(&bytes), alphabet);
    assert_eq!(pcm_base64::serialize(&vec![]), "");
    assert_eq!(pcm_base64::serialize(&vec![0xFF]), "/w==");
    assert_eq!(pcm_base64::serialize(&vec![0xFF, 0xFE]), "//4=");
    for n in 0..40u8 {
        let bytes: Vec<u8> = (0..n).map(|i| i.wrapping_mul(37)).collect();
        let text = pcm_base64::serialize(&bytes);
        assert_eq!(pcm_base64::deserialize(&text).unwrap(), bytes);
    }
}

#[test]
fn counters_start_at_nothing() {
    let stats = SessionStats::default();
    assert_eq!(stats.pcm_received_ms, 0);
    assert_eq!(stats.vad_segments, None);
    assert_eq!(stats.asr_usage, None);
    assert_eq!(AsrUsage::default().total_tokens, None);
}

/// Runs a sum of seconds on floats.
fn seconds(s: &AudioSeconds) -> f64 {
    let mut stack: Vec<f64> = Vec::new();
    for term in &s.postfix {
        match *term {
            SecondsTerm::Whole(n) => stack.push(n as f64),
            SecondsTerm::Bits(b) => stack.push(f64::from_bits(b)),
            SecondsTerm::Plus => {
                let b = stack.pop().unwrap();
                let a = stack.pop().unwrap();
                stack.push(a + b);
            }
        }
    }
    assert_eq!(stack.len(), 1);
    stack[0]
}

#[test]
fn seconds_add_as_floats_do() {
    let a = AudioSeconds::whole(14);
    assert_eq!(seconds(&a), 14.0);
    let b = AudioSeconds::from_bits(0.1f64.to_bits());
    let c = AudioSeconds::from_bits(0.2f64.to_bits());
    assert_eq!(seconds(&b.clone().plus(c.clone())), 0.1 + 0.2);
    assert_eq!(seconds(&a.plus(b).plus(c)), (14.0 + 0.1) + 0.2);
}
