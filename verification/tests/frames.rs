//! The frame codec: length-prefixed dispatch, trailing-padding tolerance,
//! and the scenarios the wire contract pins down.
use genie_rec::cmd_tasking::OrderCommand;
use genie_rec::cmd_tasking::StopCommand;
use genie_rec::frame::Command;
use genie_rec::objects::ObjectsList;
use genie_rec::reader::Reader;
use genie_rec::DecodeError;
use genie_rec::Location2;

/// A Stop command with selected-count 3 followed by three little-endian
/// object ids decodes to the explicit list; re-encoding reproduces the
/// identical byte sequence, length prefix included.
#[test]
fn stop_frame_scenario() {
    let mut frame = Vec::new();
    frame.extend_from_slice(&14u32.to_le_bytes());
    frame.push(0x01);
    frame.push(3);
    frame.extend_from_slice(&10u32.to_le_bytes());
    frame.extend_from_slice(&11u32.to_le_bytes());
    frame.extend_from_slice(&12u32.to_le_bytes());
    frame.extend_from_slice(&900u32.to_le_bytes());
    let mut r = Reader::new(&frame);
    let cmd = Command::read_from(&mut r).unwrap();
    assert_eq!(r.remaining(), 0);
    match &cmd {
        Command::Stop(stop) => {
            assert_eq!(stop.objects, ObjectsList::List(vec![10, 11, 12]));
        },
        other => panic!("expected a Stop command, got {:?}", other),
    }
    let mut out = Vec::new();
    cmd.write_to(&mut out, 900);
    assert_eq!(out, frame);
}

/// An Order command whose count field sits in the sentinel region decodes
/// to the reuse marker and consumes zero identifier bytes, whatever the
/// stream holds afterwards.
#[test]
fn order_frame_sentinel_count_scenario() {
    let mut body = Vec::new();
    body.push(0x00);
    body.push(7);
    body.extend_from_slice(&[0, 0]);
    body.extend_from_slice(&0xFFFF_FFFFu32.to_le_bytes());
    body.extend_from_slice(&255u32.to_le_bytes());
    body.extend_from_slice(&3.0f32.to_le_bytes());
    body.extend_from_slice(&4.0f32.to_le_bytes());
    let mut frame = Vec::new();
    frame.extend_from_slice(&(body.len() as u32).to_le_bytes());
    frame.extend_from_slice(&body);
    frame.extend_from_slice(&100u32.to_le_bytes());
    // Whatever follows the frame must stay untouched.
    frame.extend_from_slice(&[0xAB, 0xCD]);
    let mut r = Reader::new(&frame);
    let cmd = Command::read_from(&mut r).unwrap();
    assert_eq!(r.remaining(), 2);
    match cmd {
        Command::Order(order) => {
            assert_eq!(order.player_id, 7);
            assert_eq!(order.target_id, None);
            assert!(matches!(order.objects, ObjectsList::SameAsLast));
        },
        other => panic!("expected an Order command, got {:?}", other),
    }
}

/// The frame codec never reads past the declared length: a frame with
/// trailing padding the variant does not model still positions the cursor
/// so that the next frame decodes correctly.
#[test]
fn frame_with_trailing_padding_keeps_alignment() {
    let mut stream = Vec::new();
    // First frame: a Stop command with one id, then four bytes of padding
    // inside the declared region.
    stream.extend_from_slice(&(1 + 1 + 4 + 4u32).to_le_bytes());
    stream.push(0x01);
    stream.push(1);
    stream.extend_from_slice(&77u32.to_le_bytes());
    stream.extend_from_slice(&[0xEE; 4]);
    stream.extend_from_slice(&111u32.to_le_bytes());
    // Second frame: a Resign command.
    stream.extend_from_slice(&4u32.to_le_bytes());
    stream.push(0x0B);
    stream.extend_from_slice(&[2, 2, 0]);
    stream.extend_from_slice(&222u32.to_le_bytes());
    let mut r = Reader::new(&stream);
    let first = Command::read_from(&mut r).unwrap();
    match first {
        Command::Stop(stop) => assert_eq!(stop.objects, ObjectsList::List(vec![77])),
        other => panic!("expected a Stop command, got {:?}", other),
    }
    let second = Command::read_from(&mut r).unwrap();
    match second {
        Command::Resign(resign) => {
            assert_eq!(resign.player_id, 2);
            assert_eq!(resign.comm_player_id, 2);
            assert!(!resign.dropped);
        },
        other => panic!("expected a Resign command, got {:?}", other),
    }
    assert_eq!(r.remaining(), 0);
}

#[test]
fn unknown_opcode_is_fatal() {
    let mut frame = Vec::new();
    frame.extend_from_slice(&1u32.to_le_bytes());
    frame.push(0xAB);
    frame.extend_from_slice(&0u32.to_le_bytes());
    let mut r = Reader::new(&frame);
    assert_eq!(
        Command::read_from(&mut r),
        Err(DecodeError::UnknownOpcode(0xAB))
    );
}

#[test]
fn truncated_frame_is_fatal() {
    let mut frame = Vec::new();
    frame.extend_from_slice(&100u32.to_le_bytes());
    frame.push(0x01);
    let mut r = Reader::new(&frame);
    assert_eq!(Command::read_from(&mut r), Err(DecodeError::Truncated));
}

#[test]
fn frame_roundtrip_derives_length_from_content() {
    let cmd = Command::Order(OrderCommand {
        player_id: 1,
        target_id: Some(5),
        location: Location2 { x: 2.0f32.to_bits(), y: 6.0f32.to_bits() },
        objects: ObjectsList::List(vec![10, 20, 30]),
    });
    let mut out = Vec::new();
    cmd.write_to(&mut out, 1234);
    // Declared length covers the opcode and the record: 1 + 19 + 12.
    assert_eq!(&out[0..4], &32u32.to_le_bytes());
    let mut r = Reader::new(&out);
    assert_eq!(Command::read_from(&mut r), Ok(cmd));
    assert_eq!(r.remaining(), 0);
}

#[test]
fn user_patch_ai_frame_roundtrip() {
    let cmd = Command::UserPatchAI(genie_rec::cmd_complex::UserPatchAICommand {
        player_id: 3,
        ai_action: 1,
        params: vec![42, 43, 44],
    });
    let mut out = Vec::new();
    cmd.write_to(&mut out, 0);
    // The declared length carries the parameter count: 4 + 4 * 3.
    assert_eq!(&out[0..4], &16u32.to_le_bytes());
    let mut r = Reader::new(&out);
    assert_eq!(Command::read_from(&mut r), Ok(cmd));
}

#[test]
fn order_frame_largest_list_roundtrip() {
    // The largest explicit list a count field can carry back out.
    let ids: Vec<u32> = (0..254).collect();
    let cmd = Command::Order(OrderCommand {
        player_id: 1,
        target_id: None,
        location: Location2 { x: 0, y: 0 },
        objects: ObjectsList::List(ids.clone()),
    });
    let mut out = Vec::new();
    cmd.write_to(&mut out, 5);
    assert_eq!(&out[0..4], &(20 + 254 * 4u32).to_le_bytes());
    let mut r = Reader::new(&out);
    assert_eq!(Command::read_from(&mut r), Ok(cmd));
}

#[test]
fn stop_frame_largest_signed_list_roundtrip() {
    // A signed one-byte count field tops out at 127 identifiers.
    let ids: Vec<u32> = (1000..1127).collect();
    let cmd = Command::Stop(StopCommand { objects: ObjectsList::List(ids) });
    let mut out = Vec::new();
    cmd.write_to(&mut out, 0);
    assert_eq!(out[4..6], [0x01, 127]);
    let mut r = Reader::new(&out);
    assert_eq!(Command::read_from(&mut r), Ok(cmd));
}

/// The exact sentinel scenario: an Order frame whose selected-count word
/// is all ones decodes to the reuse marker and consumes zero identifier
/// bytes, regardless of the region's subsequent content.
#[test]
fn order_frame_all_ones_count_is_reuse_marker() {
    let mut body = Vec::new();
    body.push(0x00);
    body.push(3);
    body.extend_from_slice(&[0, 0]);
    body.extend_from_slice(&0xFFFF_FFFFu32.to_le_bytes());
    body.extend_from_slice(&0xFFFF_FFFFu32.to_le_bytes());
    body.extend_from_slice(&1.0f32.to_le_bytes());
    body.extend_from_slice(&2.0f32.to_le_bytes());
    // Junk inside the declared region that a list decode would misread.
    body.extend_from_slice(&[0x99; 8]);
    let mut frame = Vec::new();
    frame.extend_from_slice(&(body.len() as u32).to_le_bytes());
    frame.extend_from_slice(&body);
    frame.extend_from_slice(&7u32.to_le_bytes());
    let mut r = Reader::new(&frame);
    match Command::read_from(&mut r).unwrap() {
        Command::Order(order) => {
            assert!(matches!(order.objects, ObjectsList::SameAsLast));
        },
        other => panic!("expected an Order command, got {:?}", other),
    }
    assert_eq!(r.remaining(), 0);
}

/// A Stop frame carrying the reuse marker: the count byte is 0xFF and the
/// whole declared region is two bytes.
#[test]
fn stop_frame_marker_roundtrip() {
    let cmd = Command::Stop(StopCommand { objects: ObjectsList::SameAsLast });
    let mut out = Vec::new();
    cmd.write_to(&mut out, 40);
    assert_eq!(out, vec![2, 0, 0, 0, 0x01, 0xFF, 40, 0, 0, 0]);
    let mut r = Reader::new(&out);
    assert_eq!(Command::read_from(&mut r), Ok(cmd));
}

#[test]
fn stop_negative_count_decodes_to_empty_list() {
    let mut frame = Vec::new();
    frame.extend_from_slice(&2u32.to_le_bytes());
    frame.push(0x01);
    frame.push(0xFE);
    frame.extend_from_slice(&0u32.to_le_bytes());
    let mut r = Reader::new(&frame);
    match Command::read_from(&mut r).unwrap() {
        Command::Stop(stop) => assert_eq!(stop.objects, ObjectsList::List(vec![])),
        other => panic!("expected a Stop command, got {:?}", other),
    }
}
