//! The nested Game sub-protocol and the outer action-stream records.
use genie_rec::frame::Command;
use genie_rec::game::GameCommand;
use genie_rec::reader::Reader;
use genie_rec::stream::Action;
use genie_rec::stream::Chat;
use genie_rec::stream::Meta;
use genie_rec::stream::Sync;
use genie_rec::stream::Time;
use genie_rec::stream::ViewLock;
use genie_rec::DecodeError;

/// A minimal valid sixteen-byte payload for one Game sub-opcode: the outer
/// opcode, the sub-opcode, and the four generic slots.
fn game_frame(sub: u8) -> Vec<u8> {
    let mut frame = Vec::new();
    frame.extend_from_slice(&16u32.to_le_bytes());
    frame.push(0x67);
    frame.push(sub);
    frame.extend_from_slice(&2i16.to_le_bytes());
    frame.extend_from_slice(&1i16.to_le_bytes());
    frame.extend_from_slice(&[0, 0]);
    frame.extend_from_slice(&1.5f32.to_le_bytes());
    frame.extend_from_slice(&7u32.to_le_bytes());
    frame.extend_from_slice(&0u32.to_le_bytes());
    frame
}

/// Every known Game sub-opcode decodes without error from a minimal valid
/// sixteen-byte payload.
#[test]
fn all_game_sub_opcodes_decode() {
    let subs = [
        0x01, 0x02, 0x03, 0x04, 0x05, 0x06, 0x07, 0x0a, 0x0b, 0x0c, 0x0d, 0x0e, 0x10,
    ];
    for &sub in subs.iter() {
        let frame = game_frame(sub);
        let mut r = Reader::new(&frame);
        let cmd = Command::read_from(&mut r)
            .unwrap_or_else(|e| panic!("sub-opcode {:#x} failed: {:?}", sub, e));
        assert!(matches!(cmd, Command::Game(_)));
        assert_eq!(r.remaining(), 0);
    }
}

#[test]
fn unknown_game_sub_opcode_is_fatal() {
    let frame = game_frame(0x42);
    let mut r = Reader::new(&frame);
    assert_eq!(
        Command::read_from(&mut r),
        Err(DecodeError::UnknownGameCommand(0x42))
    );
}

#[test]
fn game_set_speed_reads_slots() {
    let frame = game_frame(0x01);
    let mut r = Reader::new(&frame);
    match Command::read_from(&mut r).unwrap() {
        Command::Game(GameCommand::SetGameSpeed { player_id, speed }) => {
            assert_eq!(player_id, 2);
            assert_eq!(speed, 1.5f32.to_bits());
        },
        other => panic!("expected SetGameSpeed, got {:?}", other),
    }
}

#[test]
fn game_strategic_number_roundtrip() {
    let c = GameCommand::SetStrategicNumber { player_id: 1, strategic_number: -5, value: 99 };
    let mut out = Vec::new();
    c.write_to(&mut out);
    assert_eq!(out.len(), 15);
    let mut r = Reader::new(&out);
    assert_eq!(GameCommand::read_from(&mut r), Ok(c));
}

#[test]
fn game_allied_victory_roundtrip() {
    let c = GameCommand::AlliedVictory { player_id: 3, status: true };
    let mut out = Vec::new();
    c.write_to(&mut out);
    let mut r = Reader::new(&out);
    assert_eq!(GameCommand::read_from(&mut r), Ok(c));
}

#[test]
fn game_wide_player_slot_is_fatal() {
    let mut out = Vec::new();
    GameCommand::Spies { player_id: 1 }.write_to(&mut out);
    out[1..3].copy_from_slice(&300i16.to_le_bytes());
    let mut r = Reader::new(&out);
    assert_eq!(
        GameCommand::read_from(&mut r),
        Err(DecodeError::BadIdentifier)
    );
}

/// A synchronization record with a zero action checksum consumes no extra
/// block: the whole record is 24 bytes.
#[test]
fn sync_without_action_checksum_consumes_no_extra_block() {
    let mut bytes = Vec::new();
    bytes.extend_from_slice(&0u32.to_le_bytes());
    bytes.extend_from_slice(&111u32.to_le_bytes());
    bytes.extend_from_slice(&222u32.to_le_bytes());
    bytes.extend_from_slice(&0u32.to_le_bytes());
    bytes.extend_from_slice(&0u32.to_le_bytes());
    bytes.extend_from_slice(&999u32.to_le_bytes());
    let mut r = Reader::new(&bytes);
    let sync = Sync::read_from(&mut r).unwrap();
    assert_eq!(r.remaining(), 0);
    assert_eq!(sync.checksum, 111);
    assert_eq!(sync.position_checksum, 222);
    assert_eq!(sync.action_checksum, 0);
    assert_eq!(sync.next_world_time, 999);
}

/// A synchronization record with a non-zero action checksum consumes
/// exactly 332 extra bytes before the trailing next-world-time field.
#[test]
fn sync_with_action_checksum_consumes_332_extra_bytes() {
    let mut bytes = Vec::new();
    bytes.extend_from_slice(&0u32.to_le_bytes());
    bytes.extend_from_slice(&111u32.to_le_bytes());
    bytes.extend_from_slice(&222u32.to_le_bytes());
    bytes.extend_from_slice(&333u32.to_le_bytes());
    bytes.extend_from_slice(&[0x55; 332]);
    bytes.extend_from_slice(&0u32.to_le_bytes());
    bytes.extend_from_slice(&999u32.to_le_bytes());
    assert_eq!(bytes.len(), 356);
    let mut r = Reader::new(&bytes);
    let sync = Sync::read_from(&mut r).unwrap();
    assert_eq!(r.remaining(), 0);
    assert_eq!(sync.action_checksum, 333);
    assert_eq!(sync.next_world_time, 999);
}

#[test]
fn sync_roundtrip_with_extra_block() {
    let c = Sync { checksum: 1, position_checksum: 2, action_checksum: 3, next_world_time: 4 };
    let mut out = Vec::new();
    c.write_to(&mut out);
    assert_eq!(out.len(), 356);
    let mut r = Reader::new(&out);
    assert_eq!(Sync::read_from(&mut r), Ok(c));
}

#[test]
fn time_roundtrip() {
    let c = Time { time: 123456, ..Default::default() };
    let mut out = Vec::new();
    c.write_to(&mut out);
    assert_eq!(out, 123456u32.to_le_bytes());
    let mut r = Reader::new(&out);
    assert_eq!(Time::read_from(&mut r), Ok(c));
}

#[test]
fn view_lock_roundtrip() {
    let c = ViewLock { x: 30.5f32.to_bits(), y: 40.25f32.to_bits(), player: 2 };
    let mut out = Vec::new();
    c.write_to(&mut out);
    let mut r = Reader::new(&out);
    assert_eq!(ViewLock::read_from(&mut r), Ok(c));
}

#[test]
fn view_lock_wide_player_is_fatal() {
    let mut bytes = Vec::new();
    bytes.extend_from_slice(&0u32.to_le_bytes());
    bytes.extend_from_slice(&0u32.to_le_bytes());
    bytes.extend_from_slice(&256u32.to_le_bytes());
    let mut r = Reader::new(&bytes);
    assert_eq!(
        ViewLock::read_from(&mut r),
        Err(DecodeError::BadIdentifier)
    );
}

#[test]
fn chat_roundtrip() {
    let c = Chat { message: b"gg wp".to_vec() };
    let mut out = Vec::new();
    c.write_to(&mut out);
    let mut r = Reader::new(&out);
    assert_eq!(Chat::read_from(&mut r), Ok(c));
    assert_eq!(r.remaining(), 0);
}

#[test]
fn chat_requires_leading_marker() {
    let mut bytes = Vec::new();
    bytes.extend_from_slice(&7i32.to_le_bytes());
    bytes.extend_from_slice(&0u32.to_le_bytes());
    let mut r = Reader::new(&bytes);
    assert_eq!(Chat::read_from(&mut r), Err(DecodeError::BadMarker));
}

#[test]
fn meta_mgx_roundtrip() {
    let c = Meta {
        log_version: Some(4),
        checksum_interval: 500,
        is_multiplayer: true,
        use_sequence_numbers: false,
        local_player_id: 2,
        header_position: 4096,
        num_chapters: Some(0),
    };
    let mut out = Vec::new();
    c.write_to_mgx(&mut out);
    assert_eq!(out.len(), 28);
    let mut r = Reader::new(&out);
    assert_eq!(Meta::read_from_mgx(&mut r), Ok(c));
}

#[test]
fn meta_mgx_version_five_roundtrip() {
    let c = Meta {
        log_version: Some(5),
        checksum_interval: 500,
        is_multiplayer: false,
        use_sequence_numbers: true,
        local_player_id: 1,
        header_position: 64,
        num_chapters: None,
    };
    let mut out = Vec::new();
    c.write_to_mgx(&mut out);
    assert_eq!(out.len(), 32);
    let mut r = Reader::new(&out);
    assert_eq!(Meta::read_from_mgx(&mut r), Ok(c));
}

#[test]
fn meta_mgx_unknown_version_is_fatal() {
    let mut bytes = Vec::new();
    bytes.extend_from_slice(&9u32.to_le_bytes());
    bytes.extend_from_slice(&[0; 24]);
    let mut r = Reader::new(&bytes);
    assert_eq!(Meta::read_from_mgx(&mut r), Err(DecodeError::BadMarker));
}

#[test]
fn meta_mgl_roundtrip() {
    let c = Meta {
        log_version: None,
        checksum_interval: 600,
        is_multiplayer: false,
        use_sequence_numbers: false,
        local_player_id: 3,
        header_position: 128,
        num_chapters: None,
    };
    let mut out = Vec::new();
    c.write_to_mgl(&mut out);
    assert_eq!(out.len(), 36);
    let mut r = Reader::new(&out);
    assert_eq!(Meta::read_from_mgl(&mut r), Ok(c));
}

#[test]
fn action_command_roundtrip() {
    let cmd = Command::Resign(genie_rec::cmd_basic::ResignCommand {
        player_id: 1,
        comm_player_id: 1,
        dropped: false,
    });
    let action = Action::Command(cmd);
    let mut out = Vec::new();
    action.write_to(&mut out, 777);
    let mut r = Reader::new(&out);
    assert_eq!(Action::read_from(&mut r, false), Ok(action));
    assert_eq!(r.remaining(), 0);
}

#[test]
fn action_time_and_sync_share_a_discriminant() {
    let time = Action::Time(Time { time: 42, ..Default::default() });
    let mut out = Vec::new();
    time.write_to(&mut out, 0);
    assert_eq!(&out[0..4], &2u32.to_le_bytes());
    let mut r = Reader::new(&out);
    assert_eq!(Action::read_from(&mut r, false), Ok(time));

    let sync = Action::Sync(Sync {
        checksum: 9,
        position_checksum: 8,
        action_checksum: 0,
        next_world_time: 50,
    });
    let mut out = Vec::new();
    sync.write_to(&mut out, 0);
    assert_eq!(&out[0..4], &2u32.to_le_bytes());
    let mut r = Reader::new(&out);
    assert_eq!(Action::read_from(&mut r, true), Ok(sync));
}

#[test]
fn action_view_lock_and_chat_roundtrip() {
    let vl = Action::ViewLock(ViewLock { x: 0, y: 0, player: 1 });
    let mut out = Vec::new();
    vl.write_to(&mut out, 0);
    let mut r = Reader::new(&out);
    assert_eq!(Action::read_from(&mut r, false), Ok(vl));

    let chat = Action::Chat(Chat { message: b"11".to_vec() });
    let mut out = Vec::new();
    chat.write_to(&mut out, 0);
    let mut r = Reader::new(&out);
    assert_eq!(Action::read_from(&mut r, false), Ok(chat));
}

#[test]
fn action_unknown_kind_is_fatal() {
    let mut bytes = Vec::new();
    bytes.extend_from_slice(&9u32.to_le_bytes());
    let mut r = Reader::new(&bytes);
    assert_eq!(
        Action::read_from(&mut r, false),
        Err(DecodeError::UnknownActionKind(9))
    );
}

#[test]
fn chat_empty_message_roundtrip() {
    let c = Chat { message: Vec::new() };
    let mut out = Vec::new();
    c.write_to(&mut out);
    assert_eq!(out.len(), 8);
    let mut r = Reader::new(&out);
    assert_eq!(Chat::read_from(&mut r), Ok(c));
}

#[test]
fn sync_truncated_extra_block_is_fatal() {
    let mut bytes = Vec::new();
    bytes.extend_from_slice(&0u32.to_le_bytes());
    bytes.extend_from_slice(&1u32.to_le_bytes());
    bytes.extend_from_slice(&2u32.to_le_bytes());
    bytes.extend_from_slice(&3u32.to_le_bytes());
    bytes.extend_from_slice(&[0; 100]);
    let mut r = Reader::new(&bytes);
    assert_eq!(Sync::read_from(&mut r), Err(DecodeError::Truncated));
}
