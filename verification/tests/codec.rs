use luoshu::frame::{decode_frame_len, encode_frame, frame_payload, Subscribe};
use luoshu::regs::ConfigurationReg;
use serde_json::Value;

#[test]
fn frame_has_big_endian_length_prefix() {
    let f = encode_frame(b"hello");
    assert_eq!(f, vec![0, 0, 0, 5, b'h', b'e', b'l', b'l', b'o']);
    let long = vec![7u8; 300];
    let f = encode_frame(&long);
    assert_eq!(&f[..4], &[0, 0, 1, 44]);
    assert_eq!(f.len(), 304);
}

#[test]
fn frame_round_trip_with_trailing_bytes() {
    let mut buf = encode_frame(b"{\"data\":\"Ping\"}");
    buf.extend_from_slice(b"rest");
    assert_eq!(decode_frame_len(&buf), 15);
    assert_eq!(frame_payload(&buf), b"{\"data\":\"Ping\"}".to_vec());
}

#[test]
fn empty_frame() {
    let buf = encode_frame(b"");
    assert_eq!(buf, vec![0, 0, 0, 0]);
    assert_eq!(decode_frame_len(&buf), 0);
    assert_eq!(frame_payload(&buf), Vec::<u8>::new());
}

#[test]
fn length_prefix_spells_large_numbers() {
    assert_eq!(decode_frame_len(&[1, 2, 3, 4]), 0x01020304);
    assert_eq!(decode_frame_len(&[255, 255, 255, 255]), u32::MAX);
}

#[test]
fn subscription_keys() {
    let s = Subscribe::new("ns".into(), "name".into());
    assert_eq!(s.to_string(), "ns|name");
    let reg = ConfigurationReg::new("default".into(), "db".into(), Value::Bool(true));
    assert_eq!(reg.get_subscribe_str(), "default|db");
    assert_eq!(reg.get_namespace(), "default");
    let from_reg = Subscribe::from(&reg);
    assert_eq!(from_reg.to_string(), reg.get_subscribe_str());
}
