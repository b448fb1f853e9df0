use ardrone_link::{decode_packet, DecodeError, NavData, NavDataValue};

fn u16le(v: &mut Vec<u8>, x: u16) {
    v.extend_from_slice(&x.to_le_bytes());
}

fn u32le(v: &mut Vec<u8>, x: u32) {
    v.extend_from_slice(&x.to_le_bytes());
}

fn header(seq: u32) -> Vec<u8> {
    let mut v = Vec::new();
    u32le(&mut v, 0x5566_7788);
    u32le(&mut v, 0x0000_1234);
    u32le(&mut v, seq);
    u32le(&mut v, 1);
    v
}

/// A demo block: flags with the landed bit (17) set, battery, attitude,
/// altitude in millimetres, speeds and the camera fields counting upwards.
fn demo_block(battery: u32, altitude: i32) -> Vec<u8> {
    let mut v = Vec::new();
    u16le(&mut v, 0);
    u16le(&mut v, 148);
    u32le(&mut v, 1 << 17);
    u32le(&mut v, battery);
    u32le(&mut v, 1.5f32.to_bits());
    u32le(&mut v, (-0.25f32).to_bits());
    u32le(&mut v, 90.0f32.to_bits());
    u32le(&mut v, altitude as u32);
    u32le(&mut v, 0.5f32.to_bits());
    u32le(&mut v, 0.0f32.to_bits());
    u32le(&mut v, (-1.0f32).to_bits());
    u32le(&mut v, 77);
    for i in 0..12 {
        u32le(&mut v, (i as f32).to_bits());
    }
    u32le(&mut v, 4);
    u32le(&mut v, 9);
    for i in 0..12 {
        u32le(&mut v, (100.0 + i as f32).to_bits());
    }
    assert_eq!(v.len(), 148);
    v
}

fn unknown_block(id: u16, size: u16) -> Vec<u8> {
    let mut v = Vec::new();
    u16le(&mut v, id);
    u16le(&mut v, size);
    for _ in 4..size {
        v.push(0xAB);
    }
    v
}

fn checksum_block() -> Vec<u8> {
    let mut v = Vec::new();
    u16le(&mut v, 0xFFFF);
    u16le(&mut v, 8);
    u32le(&mut v, 0xDEAD_BEEF);
    v
}

fn packet(seq: u32, blocks: &[Vec<u8>]) -> Vec<u8> {
    let mut v = header(seq);
    for b in blocks {
        v.extend_from_slice(b);
    }
    v
}

fn float(x: f32) -> Option<NavDataValue> {
    Some(NavDataValue::Float(x.to_bits()))
}

#[test]
fn header_fields_are_decoded() {
    let p = decode_packet(&packet(9, &[checksum_block()])).unwrap();
    assert_eq!(p.header, 0x5566_7788);
    assert_eq!(p.drone_state, 0x1234);
    assert_eq!(p.sequence, 9);
    assert_eq!(p.vision_flag, 1);
    assert!(p.options.is_empty());
}

#[test]
fn demo_block_is_decoded() {
    let mut nav = NavData::new();
    assert_eq!(Ok(true), nav.ingest(&packet(1, &[demo_block(64, 1234), checksum_block()])));
    assert_eq!(nav.get_navdata_str("header_seq_num"), Some(NavDataValue::Uint(1)));
    assert_eq!(nav.get_navdata_str("header_header"), Some(NavDataValue::Uint(0x5566_7788)));
    assert_eq!(nav.get_navdata_str("header_drone_state"), Some(NavDataValue::Uint(0x1234)));
    assert_eq!(nav.get_navdata_str("header_flag"), Some(NavDataValue::Uint(1)));
    assert_eq!(nav.get_navdata_str("demo_landed"), Some(NavDataValue::Bool(true)));
    assert_eq!(nav.get_navdata_str("demo_flying"), Some(NavDataValue::Bool(false)));
    assert_eq!(nav.get_navdata_str("demo_default"), Some(NavDataValue::Bool(false)));
    assert_eq!(nav.get_navdata_str("demo_num_state"), Some(NavDataValue::Bool(false)));
    assert_eq!(nav.get_navdata_str("demo_battery"), Some(NavDataValue::Uint(64)));
    assert_eq!(nav.get_navdata_str("demo_theta"), float(1.5));
    assert_eq!(nav.get_navdata_str("demo_phi"), float(-0.25));
    assert_eq!(nav.get_navdata_str("demo_psi"), float(90.0));
    assert_eq!(nav.get_navdata_str("demo_altitude"), Some(NavDataValue::Int(123)));
    assert_eq!(nav.get_navdata_str("demo_vx"), float(0.5));
    assert_eq!(nav.get_navdata_str("demo_vz"), float(-1.0));
    assert_eq!(nav.get_navdata_str("demo_num_frames"), Some(NavDataValue::Uint(77)));
    assert_eq!(nav.get_navdata_str("demo_det_cam_rot_0"), float(0.0));
    assert_eq!(nav.get_navdata_str("demo_det_cam_rot_8"), float(8.0));
    assert_eq!(nav.get_navdata_str("demo_det_cam_trans_2"), float(11.0));
    assert_eq!(nav.get_navdata_str("demo_detection_tag_index"), Some(NavDataValue::Uint(4)));
    assert_eq!(nav.get_navdata_str("demo_detection_tag_type"), Some(NavDataValue::Uint(9)));
    assert_eq!(nav.get_navdata_str("demo_cam_rot_0"), float(100.0));
    assert_eq!(nav.get_navdata_str("demo_cam_trans_2"), float(111.0));
    assert_eq!(nav.get_navdata_str("demo_det_cam_rot_9"), None);
}

#[test]
fn altitude_rounds_toward_zero() {
    let mut nav = NavData::new();
    assert_eq!(Ok(true), nav.ingest(&packet(1, &[demo_block(10, -25)])));
    assert_eq!(nav.get_navdata_str("demo_altitude"), Some(NavDataValue::Int(-2)));
    assert_eq!(Ok(true), nav.ingest(&packet(2, &[demo_block(10, i32::MIN)])));
    assert_eq!(nav.get_navdata_str("demo_altitude"), Some(NavDataValue::Int(-214748364)));
}

#[test]
fn unknown_option_is_skipped_by_its_declared_size() {
    for size in [4u16, 5, 8, 13, 100, 1000] {
        let p = packet(3, &[unknown_block(7, size), demo_block(55, 500), checksum_block()]);
        let mut nav = NavData::new();
        assert_eq!(nav.ingest(&p), Ok(true), "size {}", size);
        assert_eq!(nav.get_navdata_str("demo_battery"), Some(NavDataValue::Uint(55)));
        assert_eq!(nav.get_navdata_str("demo_altitude"), Some(NavDataValue::Int(50)));
        assert_eq!(nav.get_navdata_str("demo_cam_trans_2"), float(111.0));
    }
}

#[test]
fn size_below_option_header_is_an_error() {
    let p = packet(3, &[unknown_block(7, 4)[..2].to_vec(), vec![2, 0]]);
    assert_eq!(decode_packet(&p).err(), Some(DecodeError::BadOptionSize));
}

#[test]
fn truncated_packets_are_errors() {
    assert_eq!(decode_packet(&[1, 2, 3]).err(), Some(DecodeError::Truncated));
    let full = packet(3, &[demo_block(1, 1)]);
    assert_eq!(decode_packet(&full[..full.len() - 1]).err(), Some(DecodeError::Truncated));
    let mut odd = header(3);
    odd.push(0);
    assert_eq!(decode_packet(&odd).err(), Some(DecodeError::Truncated));
    let over = packet(3, &[unknown_block(7, 40)[..20].to_vec()]);
    assert_eq!(decode_packet(&over).err(), Some(DecodeError::Truncated));
}

#[test]
fn a_dropped_packet_changes_nothing() {
    let mut nav = NavData::new();
    let full = packet(5, &[demo_block(1, 1)]);
    assert_eq!(nav.ingest(&full[..100]), Err(DecodeError::Truncated));
    assert_eq!(nav.get_navdata_str("header_seq_num"), None);
    assert_eq!(Ok(true), nav.ingest(&full));
    assert_eq!(nav.get_navdata_str("header_seq_num"), Some(NavDataValue::Uint(5)));
}

#[test]
fn stale_and_duplicate_packets_are_ignored() {
    let mut nav = NavData::new();
    assert_eq!(Ok(true), nav.ingest(&packet(10, &[demo_block(80, 100)])));
    assert_eq!(Ok(false), nav.ingest(&packet(10, &[demo_block(20, 100)])));
    assert_eq!(Ok(false), nav.ingest(&packet(4, &[demo_block(30, 100)])));
    assert_eq!(nav.get_navdata_str("demo_battery"), Some(NavDataValue::Uint(80)));
    assert_eq!(nav.get_navdata_str("header_seq_num"), Some(NavDataValue::Uint(10)));
    assert_eq!(Ok(true), nav.ingest(&packet(11, &[demo_block(79, 100)])));
    assert_eq!(nav.get_navdata_str("demo_battery"), Some(NavDataValue::Uint(79)));
    assert_eq!(nav.get_navdata_str("header_seq_num"), Some(NavDataValue::Uint(11)));
}

#[test]
fn sequence_zero_is_never_accepted() {
    let mut nav = NavData::new();
    assert_eq!(Ok(false), nav.ingest(&packet(0, &[demo_block(80, 100)])));
    assert_eq!(nav.get_navdata(String::from("demo_battery")), None);
}

#[test]
fn query_round_trip() {
    let mut nav = NavData::new();
    assert_eq!(nav.get_navdata_str("demo_battery"), None);
    assert_eq!(nav.ingest(&packet(2, &[demo_block(42, 0)])), Ok(true));
    assert_eq!(nav.get_navdata(String::from("demo_battery")), Some(NavDataValue::Uint(42)));
    assert_eq!(nav.get_navdata(String::from("no_such_key")), None);
    assert_eq!(NavDataValue::Uint(42).copy(), NavDataValue::Uint(42));
}

#[test]
fn header_only_packet_keeps_older_demo_values() {
    let mut nav = NavData::new();
    assert_eq!(nav.ingest(&packet(2, &[demo_block(42, 0)])), Ok(true));
    assert_eq!(Ok(true), nav.ingest(&packet(3, &[])));
    assert_eq!(nav.get_navdata_str("header_seq_num"), Some(NavDataValue::Uint(3)));
    assert_eq!(nav.get_navdata_str("demo_battery"), Some(NavDataValue::Uint(42)));
}

#[test]
fn activation_datagram_asks_for_demo_mode() {
    assert_eq!(NavData::activation_datagram(), vec![1u8, 0, 0, 0]);
}
