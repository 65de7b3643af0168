//! Per-variant encode/decode round trips on concrete values, and the error
//! cases of the variant decoders.
use genie_rec::cmd_basic::AddResourceCommand;
use genie_rec::cmd_basic::BackToWorkCommand;
use genie_rec::cmd_basic::BuyResourceCommand;
use genie_rec::cmd_basic::CancelBuildCommand;
use genie_rec::cmd_basic::CreateCommand;
use genie_rec::cmd_basic::MakeCommand;
use genie_rec::cmd_basic::QueueCommand;
use genie_rec::cmd_basic::ResearchCommand;
use genie_rec::cmd_basic::ResignCommand;
use genie_rec::cmd_basic::SellResourceCommand;
use genie_rec::cmd_basic::Unknown7FCommand;
use genie_rec::cmd_complex::AIOrderCommand;
use genie_rec::cmd_complex::BuildWallCommand;
use genie_rec::cmd_complex::FlareCommand;
use genie_rec::cmd_complex::PatrolCommand;
use genie_rec::cmd_complex::UserPatchAICommand;
use genie_rec::cmd_target::BuildCommand;
use genie_rec::cmd_target::SetGatherPointCommand;
use genie_rec::cmd_target::UngarrisonCommand;
use genie_rec::cmd_target::UnitOrderCommand;
use genie_rec::cmd_tasking::AttackGroundCommand;
use genie_rec::cmd_tasking::FollowCommand;
use genie_rec::cmd_tasking::FormFormationCommand;
use genie_rec::cmd_tasking::GroupWaypointCommand;
use genie_rec::cmd_tasking::GuardCommand;
use genie_rec::cmd_tasking::MoveCommand;
use genie_rec::cmd_tasking::OrderCommand;
use genie_rec::cmd_tasking::RepairCommand;
use genie_rec::cmd_tasking::StopCommand;
use genie_rec::cmd_tasking::UnitAIStateCommand;
use genie_rec::cmd_tasking::WorkCommand;
use genie_rec::objects::ObjectsList;
use genie_rec::reader::Reader;
use genie_rec::DecodeError;
use genie_rec::GridPoint;
use genie_rec::Location2;
use genie_rec::Location3;

fn bits(v: f32) -> u32 {
    v.to_bits()
}

#[test]
fn order_roundtrip() {
    let c = OrderCommand {
        player_id: 2,
        target_id: Some(77),
        location: Location2 { x: bits(12.5), y: bits(3.25) },
        objects: ObjectsList::List(vec![5, 6, 7]),
    };
    let mut out = Vec::new();
    c.write_to(&mut out);
    let mut r = Reader::new(&out);
    assert_eq!(OrderCommand::read_from(&mut r), Ok(c));
    assert_eq!(r.remaining(), 0);
}

#[test]
fn order_marker_roundtrip() {
    // The 32-bit count field can carry the reuse marker back out.
    let c = OrderCommand {
        player_id: 1,
        target_id: None,
        location: Location2 { x: 0, y: 0 },
        objects: ObjectsList::SameAsLast,
    };
    let mut out = Vec::new();
    c.write_to(&mut out);
    assert_eq!(out[7..11], [0xFF, 0, 0, 0]);
    let mut r = Reader::new(&out);
    assert_eq!(OrderCommand::read_from(&mut r), Ok(c));
}

#[test]
fn stop_marker_roundtrip() {
    // A signed one-byte count field carries the reuse marker as 0xFF.
    let c = StopCommand { objects: ObjectsList::SameAsLast };
    let mut out = Vec::new();
    c.write_to(&mut out);
    assert_eq!(out, vec![0xFF]);
    let mut r = Reader::new(&out);
    assert_eq!(StopCommand::read_from(&mut r), Ok(c));
    assert_eq!(r.remaining(), 0);
}

#[test]
fn stop_roundtrip() {
    let c = StopCommand { objects: ObjectsList::List(vec![42]) };
    let mut out = Vec::new();
    c.write_to(&mut out);
    assert_eq!(out, vec![1, 42, 0, 0, 0]);
    let mut r = Reader::new(&out);
    assert_eq!(StopCommand::read_from(&mut r), Ok(c));
}

#[test]
fn work_roundtrip() {
    let c = WorkCommand {
        target_id: None,
        location: Location2 { x: bits(1.0), y: bits(2.0) },
        objects: ObjectsList::List(vec![9, 10]),
    };
    let mut out = Vec::new();
    c.write_to(&mut out);
    let mut r = Reader::new(&out);
    assert_eq!(WorkCommand::read_from(&mut r), Ok(c));
}

#[test]
fn move_roundtrip() {
    let c = MoveCommand {
        player_id: 3,
        target_id: Some(0x100),
        location: Location2 { x: bits(8.0), y: bits(9.0) },
        objects: ObjectsList::List(vec![]),
    };
    let mut out = Vec::new();
    c.write_to(&mut out);
    let mut r = Reader::new(&out);
    assert_eq!(MoveCommand::read_from(&mut r), Ok(c));
}

#[test]
fn create_roundtrip() {
    let c = CreateCommand {
        player_id: 4,
        unit_type_id: 74,
        location: Location3 { x: bits(10.0), y: bits(20.0), z: 0 },
    };
    let mut out = Vec::new();
    c.write_to(&mut out);
    assert_eq!(out.len(), 17);
    let mut r = Reader::new(&out);
    assert_eq!(CreateCommand::read_from(&mut r), Ok(c));
}

#[test]
fn add_resource_roundtrip() {
    let c = AddResourceCommand { player_id: 1, resource: 2, amount: bits(500.0) };
    let mut out = Vec::new();
    c.write_to(&mut out);
    let mut r = Reader::new(&out);
    assert_eq!(AddResourceCommand::read_from(&mut r), Ok(c));
}

#[test]
fn ai_order_roundtrip_inline_single_object() {
    // A single selected object travels inline, not in a trailing list.
    let c = AIOrderCommand {
        player_id: 1,
        issuer: 2,
        objects: ObjectsList::List(vec![1234]),
        order_type: 3,
        order_priority: -1,
        target_id: Some(55),
        target_player_id: Some(4),
        target_location: Location3 { x: bits(1.0), y: bits(2.0), z: bits(3.0) },
        range: bits(9.5),
        immediate: true,
        add_to_front: false,
    };
    let mut out = Vec::new();
    c.write_to(&mut out);
    assert_eq!(out.len(), 39);
    assert_eq!(out[3..7], [0xD2, 0x04, 0, 0]);
    let mut r = Reader::new(&out);
    assert_eq!(AIOrderCommand::read_from(&mut r), Ok(c));
}

#[test]
fn ai_order_roundtrip_many_objects() {
    let c = AIOrderCommand {
        player_id: 1,
        issuer: 1,
        objects: ObjectsList::List(vec![5, 6]),
        order_type: 0,
        order_priority: 7,
        target_id: None,
        target_player_id: None,
        target_location: Location3 { x: 0, y: 0, z: 0 },
        range: 0,
        immediate: false,
        add_to_front: true,
    };
    let mut out = Vec::new();
    c.write_to(&mut out);
    assert_eq!(out.len(), 39 + 8);
    let mut r = Reader::new(&out);
    assert_eq!(AIOrderCommand::read_from(&mut r), Ok(c));
}

#[test]
fn ai_order_marker_roundtrip() {
    let c = AIOrderCommand { objects: ObjectsList::SameAsLast, ..Default::default() };
    let mut out = Vec::new();
    c.write_to(&mut out);
    assert_eq!(out.len(), 39);
    assert_eq!(out[0], 0xFF);
    let mut r = Reader::new(&out);
    assert_eq!(AIOrderCommand::read_from(&mut r), Ok(c));
}

#[test]
fn ai_order_bad_target_player_is_fatal() {
    let c = AIOrderCommand::default();
    let mut out = Vec::new();
    c.write_to(&mut out);
    out[15] = 0x80;
    let mut r = Reader::new(&out);
    assert_eq!(
        AIOrderCommand::read_from(&mut r),
        Err(DecodeError::BadIdentifier)
    );
}

#[test]
fn resign_roundtrip() {
    let c = ResignCommand { player_id: 5, comm_player_id: 6, dropped: true };
    let mut out = Vec::new();
    c.write_to(&mut out);
    assert_eq!(out, vec![5, 6, 1]);
    let mut r = Reader::new(&out);
    assert_eq!(ResignCommand::read_from(&mut r), Ok(c));
}

#[test]
fn group_waypoint_roundtrip() {
    let c = GroupWaypointCommand {
        player_id: 2,
        location: GridPoint { x: 10, y: 20 },
        objects: ObjectsList::List(vec![100, 200]),
    };
    let mut out = Vec::new();
    c.write_to(&mut out);
    let mut r = Reader::new(&out);
    assert_eq!(GroupWaypointCommand::read_from(&mut r), Ok(c));
}

#[test]
fn unit_ai_state_roundtrip() {
    let c = UnitAIStateCommand { state: -2, objects: ObjectsList::List(vec![8]) };
    let mut out = Vec::new();
    c.write_to(&mut out);
    let mut r = Reader::new(&out);
    assert_eq!(UnitAIStateCommand::read_from(&mut r), Ok(c));
}

#[test]
fn unit_ai_state_marker_roundtrip() {
    // An unsigned one-byte count can carry the reuse marker back out.
    let c = UnitAIStateCommand { state: 1, objects: ObjectsList::SameAsLast };
    let mut out = Vec::new();
    c.write_to(&mut out);
    assert_eq!(out, vec![0xFF, 1]);
    let mut r = Reader::new(&out);
    assert_eq!(UnitAIStateCommand::read_from(&mut r), Ok(c));
}

#[test]
fn guard_roundtrip() {
    let c = GuardCommand { target_id: Some(9), objects: ObjectsList::List(vec![1, 2]) };
    let mut out = Vec::new();
    c.write_to(&mut out);
    let mut r = Reader::new(&out);
    assert_eq!(GuardCommand::read_from(&mut r), Ok(c));
}

#[test]
fn follow_roundtrip() {
    let c = FollowCommand { target_id: None, objects: ObjectsList::List(vec![3]) };
    let mut out = Vec::new();
    c.write_to(&mut out);
    let mut r = Reader::new(&out);
    assert_eq!(FollowCommand::read_from(&mut r), Ok(c));
}

#[test]
fn patrol_roundtrip() {
    let c = PatrolCommand {
        waypoints: vec![
            Location2 { x: bits(1.0), y: bits(2.0) },
            Location2 { x: bits(3.0), y: bits(4.0) },
        ],
        objects: ObjectsList::List(vec![11, 12]),
    };
    let mut out = Vec::new();
    c.write_to(&mut out);
    assert_eq!(out.len(), 83 + 8);
    let mut r = Reader::new(&out);
    assert_eq!(PatrolCommand::read_from(&mut r), Ok(c));
}

#[test]
fn patrol_waypoint_count_beyond_capacity_is_fatal() {
    let c = PatrolCommand::default();
    let mut out = Vec::new();
    c.write_to(&mut out);
    out[1] = 11;
    let mut r = Reader::new(&out);
    assert_eq!(
        PatrolCommand::read_from(&mut r),
        Err(DecodeError::BadIdentifier)
    );
}

#[test]
fn form_formation_roundtrip() {
    let c = FormFormationCommand {
        player_id: 3,
        formation_type: -7,
        objects: ObjectsList::List(vec![1]),
    };
    let mut out = Vec::new();
    c.write_to(&mut out);
    let mut r = Reader::new(&out);
    assert_eq!(FormFormationCommand::read_from(&mut r), Ok(c));
}

#[test]
fn user_patch_ai_roundtrip() {
    // The parameter count is carried by the frame length, not the record.
    let c = UserPatchAICommand { player_id: 2, ai_action: 8, params: vec![7, 9] };
    let mut out = Vec::new();
    c.write_to(&mut out);
    assert_eq!(out.len(), 11);
    let size = 1 + out.len() as u32;
    let mut r = Reader::new(&out);
    assert_eq!(UserPatchAICommand::read_from(&mut r, size), Ok(c));
}

#[test]
fn user_patch_ai_four_params_roundtrip() {
    // The record's full capacity of four parameters.
    let c = UserPatchAICommand { player_id: 1, ai_action: 8, params: vec![1, 2, 3, 4] };
    let mut out = Vec::new();
    c.write_to(&mut out);
    let size = 1 + out.len() as u32;
    assert_eq!(size, 4 + 16);
    let mut r = Reader::new(&out);
    assert_eq!(UserPatchAICommand::read_from(&mut r, size), Ok(c));
}

#[test]
fn user_patch_ai_oversized_parameter_count_is_fatal() {
    let bytes = [0u8; 40];
    let mut r = Reader::new(&bytes);
    assert_eq!(
        UserPatchAICommand::read_from(&mut r, 4 + 20),
        Err(DecodeError::BadIdentifier)
    );
}

#[test]
fn make_roundtrip() {
    let c = MakeCommand { player_id: 1, building_id: 900, unit_type_id: 83, target_id: None };
    let mut out = Vec::new();
    c.write_to(&mut out);
    let mut r = Reader::new(&out);
    assert_eq!(MakeCommand::read_from(&mut r), Ok(c));
}

#[test]
fn research_roundtrip() {
    let c = ResearchCommand { player_id: 2, building_id: 901, tech_id: 22, target_id: Some(3) };
    let mut out = Vec::new();
    c.write_to(&mut out);
    let mut r = Reader::new(&out);
    assert_eq!(ResearchCommand::read_from(&mut r), Ok(c));
}

#[test]
fn build_roundtrip() {
    let c = BuildCommand {
        player_id: 1,
        location: Location2 { x: bits(33.0), y: bits(44.0) },
        unit_type_id: 70,
        unique_id: Some(5),
        frame: 2,
        builders: ObjectsList::List(vec![301, 302, 303]),
    };
    let mut out = Vec::new();
    c.write_to(&mut out);
    let mut r = Reader::new(&out);
    assert_eq!(BuildCommand::read_from(&mut r), Ok(c));
}

#[test]
fn build_wall_roundtrip() {
    let c = BuildWallCommand {
        player_id: 2,
        start: GridPoint { x: 3, y: 4 },
        end: GridPoint { x: 9, y: 4 },
        unit_type_id: 72,
        builders: ObjectsList::List(vec![55, 56]),
    };
    let mut out = Vec::new();
    c.write_to(&mut out);
    let mut r = Reader::new(&out);
    assert_eq!(BuildWallCommand::read_from(&mut r), Ok(c));
}

#[test]
fn build_wall_marker_roundtrip() {
    // This record's signed count reaches the reuse marker as the value -1.
    let c = BuildWallCommand {
        player_id: 1,
        start: GridPoint { x: 0, y: 0 },
        end: GridPoint { x: 5, y: 0 },
        unit_type_id: 72,
        builders: ObjectsList::SameAsLast,
    };
    let mut out = Vec::new();
    c.write_to(&mut out);
    assert_eq!(out[0], 0xFF);
    let mut r = Reader::new(&out);
    assert_eq!(BuildWallCommand::read_from(&mut r), Ok(c));
}

#[test]
fn build_wall_single_all_ones_collapses_to_empty_list() {
    let c = BuildWallCommand {
        builders: ObjectsList::List(vec![77]),
        ..Default::default()
    };
    let mut out = Vec::new();
    c.write_to(&mut out);
    out[15..19].copy_from_slice(&[0xFF, 0xFF, 0xFF, 0xFF]);
    let mut r = Reader::new(&out);
    let back = BuildWallCommand::read_from(&mut r).unwrap();
    assert_eq!(back.builders, ObjectsList::List(vec![]));
}

#[test]
fn build_wall_bad_guard_is_fatal() {
    let c = BuildWallCommand::default();
    let mut out = Vec::new();
    c.write_to(&mut out);
    out[11] = 0;
    let mut r = Reader::new(&out);
    assert_eq!(
        BuildWallCommand::read_from(&mut r),
        Err(DecodeError::BadMarker)
    );
}

#[test]
fn cancel_build_roundtrip() {
    let c = CancelBuildCommand { player_id: 3, building_id: 1000 };
    let mut out = Vec::new();
    c.write_to(&mut out);
    let mut r = Reader::new(&out);
    assert_eq!(CancelBuildCommand::read_from(&mut r), Ok(c));
}

#[test]
fn cancel_build_wide_player_is_fatal() {
    let bytes = [0, 0, 0, 1, 0, 0, 0, 0x2C, 0x01, 0, 0];
    let mut r = Reader::new(&bytes);
    assert_eq!(
        CancelBuildCommand::read_from(&mut r),
        Err(DecodeError::BadIdentifier)
    );
}

#[test]
fn attack_ground_roundtrip() {
    let c = AttackGroundCommand {
        location: Location2 { x: bits(7.0), y: bits(8.0) },
        objects: ObjectsList::List(vec![21, 22]),
    };
    let mut out = Vec::new();
    c.write_to(&mut out);
    let mut r = Reader::new(&out);
    assert_eq!(AttackGroundCommand::read_from(&mut r), Ok(c));
}

#[test]
fn repair_roundtrip() {
    let c = RepairCommand { target_id: Some(31), repairers: ObjectsList::List(vec![41, 42]) };
    let mut out = Vec::new();
    c.write_to(&mut out);
    let mut r = Reader::new(&out);
    assert_eq!(RepairCommand::read_from(&mut r), Ok(c));
}

#[test]
fn ungarrison_roundtrip_with_location() {
    let c = UngarrisonCommand {
        location: Some(Location2 { x: bits(5.0), y: bits(6.0) }),
        ungarrison_type: 1,
        unit_type_id: None,
        objects: ObjectsList::List(vec![61]),
    };
    let mut out = Vec::new();
    c.write_to(&mut out);
    let mut r = Reader::new(&out);
    assert_eq!(UngarrisonCommand::read_from(&mut r), Ok(c));
}

#[test]
fn ungarrison_all_ones_location_decodes_to_none() {
    let c = UngarrisonCommand {
        location: None,
        ungarrison_type: 0,
        unit_type_id: Some(3),
        objects: ObjectsList::List(vec![]),
    };
    let mut out = Vec::new();
    c.write_to(&mut out);
    assert_eq!(out[3..7], (-1.0f32).to_le_bytes());
    let mut r = Reader::new(&out);
    assert_eq!(UngarrisonCommand::read_from(&mut r), Ok(c));
}

#[test]
fn flare_roundtrip() {
    let c = FlareCommand {
        player_id: 1,
        comm_player_id: 2,
        recipients: vec![true, false, true, false, false, false, false, false, true],
        location: Location2 { x: bits(50.0), y: bits(60.0) },
    };
    let mut out = Vec::new();
    c.write_to(&mut out);
    assert_eq!(out.len(), 31);
    let mut r = Reader::new(&out);
    assert_eq!(FlareCommand::read_from(&mut r), Ok(c));
}

#[test]
fn flare_bad_marker_is_fatal() {
    let mut out = Vec::new();
    FlareCommand {
        recipients: vec![false; 9],
        ..Default::default()
    }
    .write_to(&mut out);
    out[3] = 0;
    let mut r = Reader::new(&out);
    assert_eq!(FlareCommand::read_from(&mut r), Err(DecodeError::BadMarker));
}

#[test]
fn unit_order_roundtrip() {
    let c = UnitOrderCommand {
        target_id: Some(70),
        action: -3,
        param: Some(9),
        location: Some(Location2 { x: bits(1.5), y: bits(2.5) }),
        unique_id: None,
        objects: ObjectsList::List(vec![81, 82]),
    };
    let mut out = Vec::new();
    c.write_to(&mut out);
    let mut r = Reader::new(&out);
    assert_eq!(UnitOrderCommand::read_from(&mut r), Ok(c));
}

#[test]
fn unit_order_all_ones_param_decodes_to_none() {
    let c = UnitOrderCommand {
        param: None,
        location: None,
        ..Default::default()
    };
    let mut out = Vec::new();
    c.write_to(&mut out);
    assert_eq!(out[8], 0xFF);
    let mut r = Reader::new(&out);
    assert_eq!(UnitOrderCommand::read_from(&mut r), Ok(c));
}

#[test]
fn queue_roundtrip() {
    let c = QueueCommand { building_id: 500, unit_type_id: 38, amount: 5 };
    let mut out = Vec::new();
    c.write_to(&mut out);
    let mut r = Reader::new(&out);
    assert_eq!(QueueCommand::read_from(&mut r), Ok(c));
}

#[test]
fn set_gather_point_roundtrip() {
    let c = SetGatherPointCommand {
        target_id: Some(90),
        target_type_id: Some(109),
        location: Some(Location2 { x: bits(4.0), y: bits(5.0) }),
        buildings: ObjectsList::List(vec![91, 92]),
    };
    let mut out = Vec::new();
    c.write_to(&mut out);
    let mut r = Reader::new(&out);
    assert_eq!(SetGatherPointCommand::read_from(&mut r), Ok(c));
}

#[test]
fn set_gather_point_absent_location_encodes_origin() {
    // An absent gather-point location is written as the origin; decoding
    // always yields a present location.
    let c = SetGatherPointCommand {
        target_id: None,
        target_type_id: None,
        location: None,
        buildings: ObjectsList::List(vec![5]),
    };
    let mut out = Vec::new();
    c.write_to(&mut out);
    assert_eq!(out[11..19], [0; 8]);
    let mut r = Reader::new(&out);
    let back = SetGatherPointCommand::read_from(&mut r).unwrap();
    assert_eq!(back.location, Some(Location2 { x: 0, y: 0 }));
    assert_eq!(back.buildings, c.buildings);
}

#[test]
fn set_gather_point_all_ones_type_decodes_to_none() {
    let c = SetGatherPointCommand {
        target_id: None,
        target_type_id: None,
        location: Some(Location2 { x: 0, y: 0 }),
        buildings: ObjectsList::List(vec![]),
    };
    let mut out = Vec::new();
    c.write_to(&mut out);
    assert_eq!(out[7..9], [0xFF, 0xFF]);
    let mut r = Reader::new(&out);
    assert_eq!(SetGatherPointCommand::read_from(&mut r), Ok(c));
}

#[test]
fn sell_resource_roundtrip() {
    let c = SellResourceCommand { player_id: 1, resource: 0, amount: 5, market_id: 777 };
    let mut out = Vec::new();
    c.write_to(&mut out);
    let mut r = Reader::new(&out);
    assert_eq!(SellResourceCommand::read_from(&mut r), Ok(c));
}

#[test]
fn buy_resource_roundtrip() {
    let c = BuyResourceCommand { player_id: 2, resource: 3, amount: -1, market_id: 778 };
    let mut out = Vec::new();
    c.write_to(&mut out);
    let mut r = Reader::new(&out);
    assert_eq!(BuyResourceCommand::read_from(&mut r), Ok(c));
}

#[test]
fn unknown7f_roundtrip() {
    let c = Unknown7FCommand { object_id: 1234, value: 0xDEADBEEF };
    let mut out = Vec::new();
    c.write_to(&mut out);
    let mut r = Reader::new(&out);
    assert_eq!(Unknown7FCommand::read_from(&mut r), Ok(c));
}

#[test]
fn back_to_work_roundtrip() {
    let c = BackToWorkCommand { building_id: 4242 };
    let mut out = Vec::new();
    c.write_to(&mut out);
    let mut r = Reader::new(&out);
    assert_eq!(BackToWorkCommand::read_from(&mut r), Ok(c));
}

#[test]
fn truncated_record_is_fatal() {
    let bytes = [5, 6];
    let mut r = Reader::new(&bytes);
    assert_eq!(ResignCommand::read_from(&mut r), Err(DecodeError::Truncated));
}
