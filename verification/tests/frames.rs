use bytes::{BufMut, BytesMut};
use lupa::frame::{FrameCodec, FrameError, MIN_PROTOCOL_VERSION, PROTOCOL_VERSION};
use lupa::messages::Request;
use lupa::socket::{get_uid, socket_path};
use lupa::wire::{
    bare_frame, bare_len, frame_version, negotiate, payload_len, reply_frame, request_frame,
};
use serde_json::Value;

fn to_vec(req: &Request<f32>) -> Vec<u8> {
    let value = match req {
        Request::Toggle => Value::from("Toggle"),
        Request::Status => Value::from("Status"),
        Request::Search { q, limit } => {
            let mut inner = serde_json::Map::new();
            inner.insert("q".to_string(), Value::from(q.as_str()));
            inner.insert("limit".to_string(), Value::from(*limit));
            let mut outer = serde_json::Map::new();
            outer.insert("Search".to_string(), Value::Object(inner));
            Value::Object(outer)
        }
        Request::Reindex { paths } => {
            let mut inner = serde_json::Map::new();
            inner.insert("paths".to_string(), Value::from(paths.clone()));
            let mut outer = serde_json::Map::new();
            outer.insert("Reindex".to_string(), Value::Object(inner));
            Value::Object(outer)
        }
        _ => panic!("not written here"),
    };
    serde_json::to_vec(&value).unwrap()
}

fn from_slice(bytes: &[u8]) -> Request<f32> {
    let value: Value = serde_json::from_slice(bytes).unwrap();
    if value == Value::from("Toggle") {
        return Request::Toggle;
    }
    if value == Value::from("Status") {
        return Request::Status;
    }
    if let Some(s) = value.get("Search") {
        return Request::Search {
            q: s["q"].as_str().unwrap().to_string(),
            limit: s["limit"].as_u64().unwrap() as u32,
        };
    }
    if let Some(s) = value.get("Reindex") {
        return Request::Reindex {
            paths: s["paths"]
                .as_array()
                .unwrap()
                .iter()
                .map(|p| p.as_str().unwrap().to_string())
                .collect(),
        };
    }
    panic!("unknown request")
}

fn encode(codec: &mut FrameCodec, req: &Request<f32>, buf: &mut BytesMut) {
    codec.encode(&to_vec(req), buf);
}

fn decode(codec: &mut FrameCodec, buf: &mut BytesMut) -> Request<f32> {
    from_slice(&codec.decode(buf).unwrap().unwrap())
}

#[test]
fn test_encode_decode_toggle() {
    let mut codec = FrameCodec::default();
    let mut buf = BytesMut::new();
    encode(&mut codec, &Request::Toggle, &mut buf);

    let decoded = decode(&mut codec, &mut buf);
    assert!(matches!(decoded, Request::Toggle));
}

#[test]
fn test_encode_decode_search() {
    let mut codec = FrameCodec::default();
    let mut buf = BytesMut::new();
    let req = Request::Search {
        q: "hello world".to_string(),
        limit: 10,
    };
    encode(&mut codec, &req, &mut buf);

    let decoded = decode(&mut codec, &mut buf);
    match decoded {
        Request::Search { q, limit } => {
            assert_eq!(q, "hello world");
            assert_eq!(limit, 10);
        }
        _ => panic!("Expected Search variant"),
    }
}

#[test]
fn test_encode_decode_reindex() {
    let mut codec = FrameCodec::default();
    let mut buf = BytesMut::new();
    let req = Request::Reindex {
        paths: vec!["/tmp/test".to_string()],
    };
    encode(&mut codec, &req, &mut buf);

    let decoded = decode(&mut codec, &mut buf);
    match decoded {
        Request::Reindex { paths } => {
            assert_eq!(paths.len(), 1);
            assert_eq!(paths[0], "/tmp/test");
        }
        _ => panic!("Expected Reindex variant"),
    }
}

#[test]
fn test_encode_decode_status() {
    let mut codec = FrameCodec::default();
    let mut buf = BytesMut::new();
    encode(&mut codec, &Request::Status, &mut buf);

    let decoded = decode(&mut codec, &mut buf);
    assert!(matches!(decoded, Request::Status));
}

#[test]
fn test_version_mismatch() {
    let mut codec = FrameCodec::default();
    let mut buf = BytesMut::new();
    // Manually craft a frame with wrong version
    let json = to_vec(&Request::Toggle);
    buf.put_u32((2 + json.len()) as u32);
    buf.put_u16(99);
    buf.put_slice(&json);

    let result = codec.decode(&mut buf);
    assert!(result.is_err());
    let err = result.unwrap_err();
    assert!(err.message().contains("version mismatch"));
    assert_eq!(err.message(), "version mismatch: expected 2, got 99");
    assert_eq!(err, FrameError::VersionMismatch { got: 99 });
}

#[test]
fn test_incomplete_frame_returns_none() {
    let mut codec = FrameCodec::default();
    let mut buf = BytesMut::new();
    buf.put_u32(10);
    let result = codec.decode(&mut buf).unwrap();
    assert!(result.is_none());
}

#[test]
fn test_empty_buffer_returns_none() {
    let mut codec = FrameCodec::default();
    let mut buf = BytesMut::new();
    let result = codec.decode(&mut buf).unwrap();
    assert!(result.is_none());
}

#[test]
fn test_multiple_requests_in_buffer() {
    let mut codec = FrameCodec::default();
    let mut buf = BytesMut::new();
    encode(&mut codec, &Request::Toggle, &mut buf);
    encode(&mut codec, &Request::Status, &mut buf);

    let first = decode(&mut codec, &mut buf);
    assert!(matches!(first, Request::Toggle));

    let second = decode(&mut codec, &mut buf);
    assert!(matches!(second, Request::Status));
}

#[test]
fn test_socket_path_format() {
    assert!(socket_path(Some("/run/user/1000"), 1000).contains("lupa.sock"));
}

#[test]
fn frames_byte_by_byte() {
    let mut codec = FrameCodec::default();
    let mut buf = BytesMut::new();
    codec.encode(&vec![7, 8, 9], &mut buf);
    assert_eq!(buf.to_vec(), vec![0, 0, 0, 5, 0, 2, 7, 8, 9]);

    let mut reader = FrameCodec::default();
    let mut part = BytesMut::new();
    for (i, b) in buf.to_vec().iter().enumerate() {
        part.put_u8(*b);
        let got = reader.decode(&mut part).unwrap();
        if i < 8 {
            assert!(got.is_none(), "at {i}");
        } else {
            assert_eq!(got, Some(vec![7, 8, 9]));
        }
    }
    assert!(part.is_empty());
}

#[test]
fn short_frames_are_refused() {
    let mut codec = FrameCodec::default();
    let mut buf = BytesMut::new();
    buf.put_u32(1);
    let err = codec.decode(&mut buf).unwrap_err();
    assert_eq!(err, FrameError::TooShort);
    assert_eq!(err.message(), "frame too short for version");
}

#[test]
fn a_payload_that_is_no_request_keeps_the_state() {
    let mut codec = FrameCodec::default();
    let mut buf = BytesMut::new();
    codec.encode(&b"nonsense".to_vec(), &mut buf);
    let payload = codec.decode(&mut buf).unwrap().unwrap();
    codec.unread(&payload);
    buf.put_slice(b"12345678rest");
    assert_eq!(codec.decode(&mut buf).unwrap(), Some(b"12345678".to_vec()));
    assert_eq!(buf.to_vec(), b"rest".to_vec());
}

#[test]
fn frames_of_the_daemon() {
    assert_eq!(reply_frame(&vec![1, 2], 1), vec![0, 0, 0, 4, 0, 1, 1, 2]);
    assert_eq!(request_frame(&vec![]), vec![0, 0, 0, 2, 0, 2]);
    assert_eq!(bare_frame(&vec![5; 300])[..4], [0, 0, 1, 44]);
    assert_eq!(bare_len([0, 0, 1, 44]), 300);
    assert_eq!(payload_len([0, 0, 0, 1]), None);
    assert_eq!(payload_len([0, 0, 0, 2]), Some(0));
    assert_eq!(payload_len([0, 1, 0, 2]), Some(65536));
    assert_eq!(frame_version([1, 2]), 258);
}

#[test]
fn versions_that_are_spoken() {
    assert_eq!((MIN_PROTOCOL_VERSION, PROTOCOL_VERSION), (1, 2));
    assert_eq!(negotiate(1), Ok(1));
    assert_eq!(negotiate(2), Ok(2));
    assert_eq!(
        negotiate(3),
        Err("unsupported protocol version: got 3, supported 1..=2".to_string())
    );
    assert!(negotiate(0).is_err());
}

#[test]
fn places_of_the_socket() {
    assert_eq!(socket_path(Some("/run/user/7"), 7), "/run/user/7/lupa.sock");
    assert_eq!(socket_path(None, 7), "/tmp/lupa-7.sock");
}

#[test]
fn numbers_of_the_user() {
    assert_eq!(get_uid(Some("12"), None), 12);
    assert_eq!(get_uid(Some("x"), Some("Name:\tq\nUid:\t501\t501\t501\nGid:\t1")), 501);
    assert_eq!(get_uid(None, Some("Uid:\n")), 0);
    assert_eq!(get_uid(None, Some("Uid:\tx\nUid:\t4\n")), 4);
    assert_eq!(get_uid(None, Some("Gid:\t5\n")), 1000);
    assert_eq!(get_uid(None, None), 1000);
}
