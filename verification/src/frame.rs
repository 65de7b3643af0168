//! The frame codec and the closed command family: a 32-bit length prefix
//! bounds a sub-cursor, a leading opcode byte selects the command variant,
//! undeclared trailing bytes inside the bounded region are discarded, and a
//! trailing world-time word outside the bounded region closes the frame.
use vstd::prelude::*;

use crate::DecodeError;
use crate::cmd_basic::AddResourceCommand;
use crate::cmd_basic::BackToWorkCommand;
use crate::cmd_basic::BuyResourceCommand;
use crate::cmd_basic::CancelBuildCommand;
use crate::cmd_basic::CreateCommand;
use crate::cmd_basic::MakeCommand;
use crate::cmd_basic::QueueCommand;
use crate::cmd_basic::ResearchCommand;
use crate::cmd_basic::ResignCommand;
use crate::cmd_basic::SellResourceCommand;
use crate::cmd_basic::Unknown7FCommand;
use crate::cmd_basic::lemma_add_resource_roundtrip;
use crate::cmd_basic::lemma_back_to_work_roundtrip;
use crate::cmd_basic::lemma_buy_resource_roundtrip;
use crate::cmd_basic::lemma_cancel_build_roundtrip;
use crate::cmd_basic::lemma_create_roundtrip;
use crate::cmd_basic::lemma_make_roundtrip;
use crate::cmd_basic::lemma_queue_roundtrip;
use crate::cmd_basic::lemma_research_roundtrip;
use crate::cmd_basic::lemma_resign_roundtrip;
use crate::cmd_basic::lemma_sell_resource_roundtrip;
use crate::cmd_basic::lemma_unknown7f_roundtrip;
use crate::cmd_complex::AIOrderCommand;
use crate::cmd_complex::AIOrderCommandView;
use crate::cmd_complex::BuildWallCommand;
use crate::cmd_complex::BuildWallCommandView;
use crate::cmd_complex::FlareCommand;
use crate::cmd_complex::FlareCommandView;
use crate::cmd_complex::PatrolCommand;
use crate::cmd_complex::PatrolCommandView;
use crate::cmd_complex::UserPatchAICommand;
use crate::cmd_complex::UserPatchAICommandView;
use crate::cmd_complex::lemma_ai_order_roundtrip;
use crate::cmd_complex::lemma_build_wall_roundtrip;
use crate::cmd_complex::lemma_flare_roundtrip;
use crate::cmd_complex::lemma_patrol_roundtrip;
use crate::cmd_complex::lemma_user_patch_ai_roundtrip;
use crate::cmd_target::BuildCommand;
use crate::cmd_target::BuildCommandView;
use crate::cmd_target::SetGatherPointCommand;
use crate::cmd_target::SetGatherPointCommandView;
use crate::cmd_target::UngarrisonCommand;
use crate::cmd_target::UngarrisonCommandView;
use crate::cmd_target::UnitOrderCommand;
use crate::cmd_target::UnitOrderCommandView;
use crate::cmd_target::lemma_build_roundtrip;
use crate::cmd_target::lemma_set_gather_point_roundtrip;
use crate::cmd_target::lemma_ungarrison_roundtrip;
use crate::cmd_target::lemma_unit_order_roundtrip;
use crate::cmd_tasking::AttackGroundCommand;
use crate::cmd_tasking::AttackGroundCommandView;
use crate::cmd_tasking::FollowCommand;
use crate::cmd_tasking::FollowCommandView;
use crate::cmd_tasking::FormFormationCommand;
use crate::cmd_tasking::FormFormationCommandView;
use crate::cmd_tasking::GroupWaypointCommand;
use crate::cmd_tasking::GroupWaypointCommandView;
use crate::cmd_tasking::GuardCommand;
use crate::cmd_tasking::GuardCommandView;
use crate::cmd_tasking::MoveCommand;
use crate::cmd_tasking::MoveCommandView;
use crate::cmd_tasking::OrderCommand;
use crate::cmd_tasking::OrderCommandView;
use crate::cmd_tasking::RepairCommand;
use crate::cmd_tasking::RepairCommandView;
use crate::cmd_tasking::StopCommand;
use crate::cmd_tasking::StopCommandView;
use crate::cmd_tasking::UnitAIStateCommand;
use crate::cmd_tasking::UnitAIStateCommandView;
use crate::cmd_tasking::WorkCommand;
use crate::cmd_tasking::WorkCommandView;
use crate::cmd_tasking::lemma_attack_ground_roundtrip;
use crate::cmd_tasking::lemma_follow_roundtrip;
use crate::cmd_tasking::lemma_form_formation_roundtrip;
use crate::cmd_tasking::lemma_group_waypoint_roundtrip;
use crate::cmd_tasking::lemma_guard_roundtrip;
use crate::cmd_tasking::lemma_move_roundtrip;
use crate::cmd_tasking::lemma_order_roundtrip;
use crate::cmd_tasking::lemma_repair_roundtrip;
use crate::cmd_tasking::lemma_stop_roundtrip;
use crate::cmd_tasking::lemma_unit_ai_state_roundtrip;
use crate::cmd_tasking::lemma_work_roundtrip;
use crate::game::GameCommand;
use crate::game::lemma_game_roundtrip;
use crate::objects::lemma_wire_ids_len;
use crate::reader::Reader;
use crate::reader::le32_at;
use crate::reader::write_u32_le;
use crate::reader::write_u8;
use vstd::bytes::spec_u32_to_le_bytes;

verus! {

/// A player command: one variant per opcode of the closed table.
#[derive(Debug, Clone, PartialEq)]
pub enum Command {
    Order(OrderCommand),
    Stop(StopCommand),
    Work(WorkCommand),
    Move(MoveCommand),
    Create(CreateCommand),
    AddResource(AddResourceCommand),
    AIOrder(AIOrderCommand),
    Resign(ResignCommand),
    GroupWaypoint(GroupWaypointCommand),
    UnitAIState(UnitAIStateCommand),
    Guard(GuardCommand),
    Follow(FollowCommand),
    Patrol(PatrolCommand),
    FormFormation(FormFormationCommand),
    UserPatchAI(UserPatchAICommand),
    Make(MakeCommand),
    Research(ResearchCommand),
    Build(BuildCommand),
    Game(GameCommand),
    BuildWall(BuildWallCommand),
    CancelBuild(CancelBuildCommand),
    AttackGround(AttackGroundCommand),
    Repair(RepairCommand),
    Ungarrison(UngarrisonCommand),
    Flare(FlareCommand),
    UnitOrder(UnitOrderCommand),
    Queue(QueueCommand),
    SetGatherPoint(SetGatherPointCommand),
    SellResource(SellResourceCommand),
    BuyResource(BuyResourceCommand),
    Unknown7F(Unknown7FCommand),
    BackToWork(BackToWorkCommand),
}

/// The mathematical shape of a [`Command`].
pub enum CommandView {
    Order(OrderCommandView),
    Stop(StopCommandView),
    Work(WorkCommandView),
    Move(MoveCommandView),
    Create(CreateCommand),
    AddResource(AddResourceCommand),
    AIOrder(AIOrderCommandView),
    Resign(ResignCommand),
    GroupWaypoint(GroupWaypointCommandView),
    UnitAIState(UnitAIStateCommandView),
    Guard(GuardCommandView),
    Follow(FollowCommandView),
    Patrol(PatrolCommandView),
    FormFormation(FormFormationCommandView),
    UserPatchAI(UserPatchAICommandView),
    Make(MakeCommand),
    Research(ResearchCommand),
    Build(BuildCommandView),
    Game(GameCommand),
    BuildWall(BuildWallCommandView),
    CancelBuild(CancelBuildCommand),
    AttackGround(AttackGroundCommandView),
    Repair(RepairCommandView),
    Ungarrison(UngarrisonCommandView),
    Flare(FlareCommandView),
    UnitOrder(UnitOrderCommandView),
    Queue(QueueCommand),
    SetGatherPoint(SetGatherPointCommandView),
    SellResource(SellResourceCommand),
    BuyResource(BuyResourceCommand),
    Unknown7F(Unknown7FCommand),
    BackToWork(BackToWorkCommand),
}

impl View for Command {
    type V = CommandView;

    open spec fn view(&self) -> CommandView {
        match self {
            Command::Order(c) => CommandView::Order(c@),
            Command::Stop(c) => CommandView::Stop(c@),
            Command::Work(c) => CommandView::Work(c@),
            Command::Move(c) => CommandView::Move(c@),
            Command::Create(c) => CommandView::Create(*c),
            Command::AddResource(c) => CommandView::AddResource(*c),
            Command::AIOrder(c) => CommandView::AIOrder(c@),
            Command::Resign(c) => CommandView::Resign(*c),
            Command::GroupWaypoint(c) => CommandView::GroupWaypoint(c@),
            Command::UnitAIState(c) => CommandView::UnitAIState(c@),
            Command::Guard(c) => CommandView::Guard(c@),
            Command::Follow(c) => CommandView::Follow(c@),
            Command::Patrol(c) => CommandView::Patrol(c@),
            Command::FormFormation(c) => CommandView::FormFormation(c@),
            Command::UserPatchAI(c) => CommandView::UserPatchAI(c@),
            Command::Make(c) => CommandView::Make(*c),
            Command::Research(c) => CommandView::Research(*c),
            Command::Build(c) => CommandView::Build(c@),
            Command::Game(c) => CommandView::Game(*c),
            Command::BuildWall(c) => CommandView::BuildWall(c@),
            Command::CancelBuild(c) => CommandView::CancelBuild(*c),
            Command::AttackGround(c) => CommandView::AttackGround(c@),
            Command::Repair(c) => CommandView::Repair(c@),
            Command::Ungarrison(c) => CommandView::Ungarrison(c@),
            Command::Flare(c) => CommandView::Flare(c@),
            Command::UnitOrder(c) => CommandView::UnitOrder(c@),
            Command::Queue(c) => CommandView::Queue(*c),
            Command::SetGatherPoint(c) => CommandView::SetGatherPoint(c@),
            Command::SellResource(c) => CommandView::SellResource(*c),
            Command::BuyResource(c) => CommandView::BuyResource(*c),
            Command::Unknown7F(c) => CommandView::Unknown7F(*c),
            Command::BackToWork(c) => CommandView::BackToWork(*c),
        }
    }
}

impl CommandView {
    /// The opcode byte that selects this variant.
    pub open spec fn opcode(self) -> u8 {
        match self {
            CommandView::Order(_) => 0x00,
            CommandView::Stop(_) => 0x01,
            CommandView::Work(_) => 0x02,
            CommandView::Move(_) => 0x03,
            CommandView::Create(_) => 0x04,
            CommandView::AddResource(_) => 0x05,
            CommandView::AIOrder(_) => 0x0a,
            CommandView::Resign(_) => 0x0b,
            CommandView::GroupWaypoint(_) => 0x10,
            CommandView::UnitAIState(_) => 0x12,
            CommandView::Guard(_) => 0x13,
            CommandView::Follow(_) => 0x14,
            CommandView::Patrol(_) => 0x15,
            CommandView::FormFormation(_) => 0x17,
            CommandView::UserPatchAI(_) => 0x35,
            CommandView::Make(_) => 0x64,
            CommandView::Research(_) => 0x65,
            CommandView::Build(_) => 0x66,
            CommandView::Game(_) => 0x67,
            CommandView::BuildWall(_) => 0x69,
            CommandView::CancelBuild(_) => 0x6a,
            CommandView::AttackGround(_) => 0x6b,
            CommandView::Repair(_) => 0x6e,
            CommandView::Ungarrison(_) => 0x6f,
            CommandView::Flare(_) => 0x73,
            CommandView::UnitOrder(_) => 0x75,
            CommandView::Queue(_) => 0x77,
            CommandView::SetGatherPoint(_) => 0x78,
            CommandView::SellResource(_) => 0x7a,
            CommandView::BuyResource(_) => 0x7b,
            CommandView::Unknown7F(_) => 0x7f,
            CommandView::BackToWork(_) => 0x80,
        }
    }

    /// A command that the wire shape can carry back out.
    pub open spec fn valid(self) -> bool {
        match self {
            CommandView::Order(c) => c.valid(),
            CommandView::Stop(c) => c.valid(),
            CommandView::Work(c) => c.valid(),
            CommandView::Move(c) => c.valid(),
            CommandView::Create(c) => c.valid(),
            CommandView::AddResource(c) => c.valid(),
            CommandView::AIOrder(c) => c.valid(),
            CommandView::Resign(c) => c.valid(),
            CommandView::GroupWaypoint(c) => c.valid(),
            CommandView::UnitAIState(c) => c.valid(),
            CommandView::Guard(c) => c.valid(),
            CommandView::Follow(c) => c.valid(),
            CommandView::Patrol(c) => c.valid(),
            CommandView::FormFormation(c) => c.valid(),
            CommandView::UserPatchAI(c) => c.valid(),
            CommandView::Make(c) => c.valid(),
            CommandView::Research(c) => c.valid(),
            CommandView::Build(c) => c.valid(),
            CommandView::Game(c) => c.valid(),
            CommandView::BuildWall(c) => c.valid(),
            CommandView::CancelBuild(c) => c.valid(),
            CommandView::AttackGround(c) => c.valid(),
            CommandView::Repair(c) => c.valid(),
            CommandView::Ungarrison(c) => c.valid(),
            CommandView::Flare(c) => c.valid(),
            CommandView::UnitOrder(c) => c.valid(),
            CommandView::Queue(c) => c.valid(),
            CommandView::SetGatherPoint(c) => c.valid(),
            CommandView::SellResource(c) => c.valid(),
            CommandView::BuyResource(c) => c.valid(),
            CommandView::Unknown7F(c) => c.valid(),
            CommandView::BackToWork(c) => c.valid(),
        }
    }

    /// A command whose decoded image is itself: every valid command, except
    /// that a gather-point record must carry its location, since decoding
    /// always yields one (an absent location encodes as the origin).
    pub open spec fn lossless(self) -> bool {
        &&& self.valid()
        &&& (self matches CommandView::SetGatherPoint(v) ==> v.location is Some)
    }

    /// The whole bounded region of this command's frame: the opcode byte
    /// followed by the variant's record bytes.
    pub open spec fn wire(self) -> Seq<u8> {
        match self {
            CommandView::Order(c) => seq![self.opcode()] + c.wire(),
            CommandView::Stop(c) => seq![self.opcode()] + c.wire(),
            CommandView::Work(c) => seq![self.opcode()] + c.wire(),
            CommandView::Move(c) => seq![self.opcode()] + c.wire(),
            CommandView::Create(c) => seq![self.opcode()] + c.wire(),
            CommandView::AddResource(c) => seq![self.opcode()] + c.wire(),
            CommandView::AIOrder(c) => seq![self.opcode()] + c.wire(),
            CommandView::Resign(c) => seq![self.opcode()] + c.wire(),
            CommandView::GroupWaypoint(c) => seq![self.opcode()] + c.wire(),
            CommandView::UnitAIState(c) => seq![self.opcode()] + c.wire(),
            CommandView::Guard(c) => seq![self.opcode()] + c.wire(),
            CommandView::Follow(c) => seq![self.opcode()] + c.wire(),
            CommandView::Patrol(c) => seq![self.opcode()] + c.wire(),
            CommandView::FormFormation(c) => seq![self.opcode()] + c.wire(),
            CommandView::UserPatchAI(c) => seq![self.opcode()] + c.wire(),
            CommandView::Make(c) => seq![self.opcode()] + c.wire(),
            CommandView::Research(c) => seq![self.opcode()] + c.wire(),
            CommandView::Build(c) => seq![self.opcode()] + c.wire(),
            CommandView::Game(c) => seq![self.opcode()] + c.wire(),
            CommandView::BuildWall(c) => seq![self.opcode()] + c.wire(),
            CommandView::CancelBuild(c) => seq![self.opcode()] + c.wire(),
            CommandView::AttackGround(c) => seq![self.opcode()] + c.wire(),
            CommandView::Repair(c) => seq![self.opcode()] + c.wire(),
            CommandView::Ungarrison(c) => seq![self.opcode()] + c.wire(),
            CommandView::Flare(c) => seq![self.opcode()] + c.wire(),
            CommandView::UnitOrder(c) => seq![self.opcode()] + c.wire(),
            CommandView::Queue(c) => seq![self.opcode()] + c.wire(),
            CommandView::SetGatherPoint(c) => seq![self.opcode()] + c.wire(),
            CommandView::SellResource(c) => seq![self.opcode()] + c.wire(),
            CommandView::BuyResource(c) => seq![self.opcode()] + c.wire(),
            CommandView::Unknown7F(c) => seq![self.opcode()] + c.wire(),
            CommandView::BackToWork(c) => seq![self.opcode()] + c.wire(),
        }
    }

    /// Decode the bounded region of a frame: the leading opcode byte
    /// selects the variant, which reads from the following byte onward. A
    /// leading byte outside the opcode table is a hard failure. Bytes of
    /// the region that the variant leaves unread are tolerated and
    /// discarded by the frame codec.
    pub open spec fn parse(payload: Seq<u8>) -> Result<CommandView, DecodeError> {
        if payload.len() < 1 {
            Err(DecodeError::Truncated)
        } else {
            let op = payload[0];
            if op == 0x00 {
                match OrderCommandView::parse(payload, 1) {
                    Ok((c, used)) => Ok(CommandView::Order(c)),
                    Err(e) => Err(e),
                }
            } else if op == 0x01 {
                match StopCommandView::parse(payload, 1) {
                    Ok((c, used)) => Ok(CommandView::Stop(c)),
                    Err(e) => Err(e),
                }
            } else if op == 0x02 {
                match WorkCommandView::parse(payload, 1) {
                    Ok((c, used)) => Ok(CommandView::Work(c)),
                    Err(e) => Err(e),
                }
            } else if op == 0x03 {
                match MoveCommandView::parse(payload, 1) {
                    Ok((c, used)) => Ok(CommandView::Move(c)),
                    Err(e) => Err(e),
                }
            } else if op == 0x04 {
                match CreateCommand::parse(payload, 1) {
                    Ok((c, used)) => Ok(CommandView::Create(c)),
                    Err(e) => Err(e),
                }
            } else if op == 0x05 {
                match AddResourceCommand::parse(payload, 1) {
                    Ok((c, used)) => Ok(CommandView::AddResource(c)),
                    Err(e) => Err(e),
                }
            } else if op == 0x0a {
                match AIOrderCommandView::parse(payload, 1) {
                    Ok((c, used)) => Ok(CommandView::AIOrder(c)),
                    Err(e) => Err(e),
                }
            } else if op == 0x0b {
                match ResignCommand::parse(payload, 1) {
                    Ok((c, used)) => Ok(CommandView::Resign(c)),
                    Err(e) => Err(e),
                }
            } else if op == 0x10 {
                match GroupWaypointCommandView::parse(payload, 1) {
                    Ok((c, used)) => Ok(CommandView::GroupWaypoint(c)),
                    Err(e) => Err(e),
                }
            } else if op == 0x12 {
                match UnitAIStateCommandView::parse(payload, 1) {
                    Ok((c, used)) => Ok(CommandView::UnitAIState(c)),
                    Err(e) => Err(e),
                }
            } else if op == 0x13 {
                match GuardCommandView::parse(payload, 1) {
                    Ok((c, used)) => Ok(CommandView::Guard(c)),
                    Err(e) => Err(e),
                }
            } else if op == 0x14 {
                match FollowCommandView::parse(payload, 1) {
                    Ok((c, used)) => Ok(CommandView::Follow(c)),
                    Err(e) => Err(e),
                }
            } else if op == 0x15 {
                match PatrolCommandView::parse(payload, 1) {
                    Ok((c, used)) => Ok(CommandView::Patrol(c)),
                    Err(e) => Err(e),
                }
            } else if op == 0x17 {
                match FormFormationCommandView::parse(payload, 1) {
                    Ok((c, used)) => Ok(CommandView::FormFormation(c)),
                    Err(e) => Err(e),
                }
            } else if op == 0x35 {
                match UserPatchAICommandView::parse(payload, 1, payload.len() as int) {
                    Ok((c, used)) => Ok(CommandView::UserPatchAI(c)),
                    Err(e) => Err(e),
                }
            } else if op == 0x64 {
                match MakeCommand::parse(payload, 1) {
                    Ok((c, used)) => Ok(CommandView::Make(c)),
                    Err(e) => Err(e),
                }
            } else if op == 0x65 {
                match ResearchCommand::parse(payload, 1) {
                    Ok((c, used)) => Ok(CommandView::Research(c)),
                    Err(e) => Err(e),
                }
            } else if op == 0x66 {
                match BuildCommandView::parse(payload, 1) {
                    Ok((c, used)) => Ok(CommandView::Build(c)),
                    Err(e) => Err(e),
                }
            } else if op == 0x67 {
                match GameCommand::parse(payload, 1) {
                    Ok((c, used)) => Ok(CommandView::Game(c)),
                    Err(e) => Err(e),
                }
            } else if op == 0x69 {
                match BuildWallCommandView::parse(payload, 1) {
                    Ok((c, used)) => Ok(CommandView::BuildWall(c)),
                    Err(e) => Err(e),
                }
            } else if op == 0x6a {
                match CancelBuildCommand::parse(payload, 1) {
                    Ok((c, used)) => Ok(CommandView::CancelBuild(c)),
                    Err(e) => Err(e),
                }
            } else if op == 0x6b {
                match AttackGroundCommandView::parse(payload, 1) {
                    Ok((c, used)) => Ok(CommandView::AttackGround(c)),
                    Err(e) => Err(e),
                }
            } else if op == 0x6e {
                match RepairCommandView::parse(payload, 1) {
                    Ok((c, used)) => Ok(CommandView::Repair(c)),
                    Err(e) => Err(e),
                }
            } else if op == 0x6f {
                match UngarrisonCommandView::parse(payload, 1) {
                    Ok((c, used)) => Ok(CommandView::Ungarrison(c)),
                    Err(e) => Err(e),
                }
            } else if op == 0x73 {
                match FlareCommandView::parse(payload, 1) {
                    Ok((c, used)) => Ok(CommandView::Flare(c)),
                    Err(e) => Err(e),
                }
            } else if op == 0x75 {
                match UnitOrderCommandView::parse(payload, 1) {
                    Ok((c, used)) => Ok(CommandView::UnitOrder(c)),
                    Err(e) => Err(e),
                }
            } else if op == 0x77 {
                match QueueCommand::parse(payload, 1) {
                    Ok((c, used)) => Ok(CommandView::Queue(c)),
                    Err(e) => Err(e),
                }
            } else if op == 0x78 {
                match SetGatherPointCommandView::parse(payload, 1) {
                    Ok((c, used)) => Ok(CommandView::SetGatherPoint(c)),
                    Err(e) => Err(e),
                }
            } else if op == 0x7a {
                match SellResourceCommand::parse(payload, 1) {
                    Ok((c, used)) => Ok(CommandView::SellResource(c)),
                    Err(e) => Err(e),
                }
            } else if op == 0x7b {
                match BuyResourceCommand::parse(payload, 1) {
                    Ok((c, used)) => Ok(CommandView::BuyResource(c)),
                    Err(e) => Err(e),
                }
            } else if op == 0x7f {
                match Unknown7FCommand::parse(payload, 1) {
                    Ok((c, used)) => Ok(CommandView::Unknown7F(c)),
                    Err(e) => Err(e),
                }
            } else if op == 0x80 {
                match BackToWorkCommand::parse(payload, 1) {
                    Ok((c, used)) => Ok(CommandView::BackToWork(c)),
                    Err(e) => Err(e),
                }
            } else {
                Err(DecodeError::UnknownOpcode(op))
            }
        }
    }
}

/// Decode one whole frame at offset `p` of `s`: the declared length, the
/// bounded dispatch, the discarded trailing padding, and the trailing
/// world-time word. The result and the consumed size depend only on the
/// length prefix and the declared region; the frame always consumes the
/// declared length plus eight bytes, however much of its region the
/// variant read.
pub open spec fn parse_frame(s: Seq<u8>, p: int) -> Result<(CommandView, int), DecodeError> {
    if p + 4 > s.len() {
        Err(DecodeError::Truncated)
    } else {
        let flen = le32_at(s, p) as int;
        if p + 4 + flen + 4 > s.len() {
            Err(DecodeError::Truncated)
        } else {
            match CommandView::parse(s.subrange(p + 4, p + 4 + flen)) {
                Ok(c) => Ok((c, 4 + flen + 4)),
                Err(e) => Err(e),
            }
        }
    }
}

/// The wire image of one whole frame: the length prefix derived from the
/// command's own bytes, the bounded region, and the world-time word.
pub open spec fn frame_wire(c: CommandView, world_time: u32) -> Seq<u8> {
    spec_u32_to_le_bytes(c.wire().len() as u32) + c.wire() + spec_u32_to_le_bytes(world_time)
}

/// The bounded region of a valid command is short: its length always fits
/// the 32-bit length prefix with room to spare.
pub proof fn lemma_command_wire_len(c: CommandView)
    requires
        c.valid(),
    ensures
        1 <= c.wire().len() <= 1100,
{
    vstd::bytes::lemma_auto_spec_u16_to_from_le_bytes();
    vstd::bytes::lemma_auto_spec_u32_to_from_le_bytes();
    match c {
        CommandView::Order(v) => {
            lemma_wire_ids_len(v.objects.items());
        },
        CommandView::Stop(v) => {
            lemma_wire_ids_len(v.objects.items());
        },
        CommandView::Work(v) => {
            lemma_wire_ids_len(v.objects.items());
        },
        CommandView::Move(v) => {
            lemma_wire_ids_len(v.objects.items());
        },
        CommandView::Create(_) => {},
        CommandView::AddResource(_) => {},
        CommandView::AIOrder(v) => {
            lemma_wire_ids_len(v.objects.items());
        },
        CommandView::Resign(_) => {},
        CommandView::GroupWaypoint(v) => {
            lemma_wire_ids_len(v.objects.items());
        },
        CommandView::UnitAIState(v) => {
            lemma_wire_ids_len(v.objects.items());
        },
        CommandView::Guard(v) => {
            lemma_wire_ids_len(v.objects.items());
        },
        CommandView::Follow(v) => {
            lemma_wire_ids_len(v.objects.items());
        },
        CommandView::Patrol(v) => {
            lemma_wire_ids_len(v.objects.items());
            lemma_wire_ids_len(crate::cmd_complex::xs_padded(v.waypoints));
            lemma_wire_ids_len(crate::cmd_complex::ys_padded(v.waypoints));
        },
        CommandView::FormFormation(v) => {
            lemma_wire_ids_len(v.objects.items());
        },
        CommandView::UserPatchAI(v) => {
            lemma_wire_ids_len(v.params);
        },
        CommandView::Make(_) => {},
        CommandView::Research(_) => {},
        CommandView::Build(v) => {
            lemma_wire_ids_len(v.builders.items());
        },
        CommandView::Game(_) => {},
        CommandView::BuildWall(v) => {
            lemma_wire_ids_len(v.builders.items());
        },
        CommandView::CancelBuild(_) => {},
        CommandView::AttackGround(v) => {
            lemma_wire_ids_len(v.objects.items());
        },
        CommandView::Repair(v) => {
            lemma_wire_ids_len(v.repairers.items());
        },
        CommandView::Ungarrison(v) => {
            lemma_wire_ids_len(v.objects.items());
        },
        CommandView::Flare(_) => {},
        CommandView::UnitOrder(v) => {
            lemma_wire_ids_len(v.objects.items());
        },
        CommandView::Queue(_) => {},
        CommandView::SetGatherPoint(v) => {
            lemma_wire_ids_len(v.buildings.items());
        },
        CommandView::SellResource(_) => {},
        CommandView::BuyResource(_) => {},
        CommandView::Unknown7F(_) => {},
        CommandView::BackToWork(_) => {},
    }
}

impl Command {
    /// Decode the bounded region of one frame, handed over as its own
    /// cursor; `flen` is the region's declared length, which some variants
    /// need.
    #[verifier::rlimit(100)]
    fn dispatch(sub: &mut Reader, flen: u32) -> (res: Result<Command, DecodeError>)
        requires
            old(sub).wf(),
            old(sub).position() == 0,
            old(sub).bytes().len() == flen,
        ensures
            match res {
                Ok(c) => CommandView::parse(old(sub).bytes()) == Ok::<_, DecodeError>(c@),
                Err(e) => CommandView::parse(old(sub).bytes()) == Err::<CommandView, _>(e),
            },
    {
        let op = match sub.read_u8() {
            Ok(v) => v,
            Err(e) => return Err(e),
        };
        let command = match op {
            0x00 => match OrderCommand::read_from(&mut *sub) {
                Ok(c) => Command::Order(c),
                Err(e) => return Err(e),
            },
            0x01 => match StopCommand::read_from(&mut *sub) {
                Ok(c) => Command::Stop(c),
                Err(e) => return Err(e),
            },
            0x02 => match WorkCommand::read_from(&mut *sub) {
                Ok(c) => Command::Work(c),
                Err(e) => return Err(e),
            },
            0x03 => match MoveCommand::read_from(&mut *sub) {
                Ok(c) => Command::Move(c),
                Err(e) => return Err(e),
            },
            0x04 => match CreateCommand::read_from(&mut *sub) {
                Ok(c) => Command::Create(c),
                Err(e) => return Err(e),
            },
            0x05 => match AddResourceCommand::read_from(&mut *sub) {
                Ok(c) => Command::AddResource(c),
                Err(e) => return Err(e),
            },
            0x0a => match AIOrderCommand::read_from(&mut *sub) {
                Ok(c) => Command::AIOrder(c),
                Err(e) => return Err(e),
            },
            0x0b => match ResignCommand::read_from(&mut *sub) {
                Ok(c) => Command::Resign(c),
                Err(e) => return Err(e),
            },
            0x10 => match GroupWaypointCommand::read_from(&mut *sub) {
                Ok(c) => Command::GroupWaypoint(c),
                Err(e) => return Err(e),
            },
            0x12 => match UnitAIStateCommand::read_from(&mut *sub) {
                Ok(c) => Command::UnitAIState(c),
                Err(e) => return Err(e),
            },
            0x13 => match GuardCommand::read_from(&mut *sub) {
                Ok(c) => Command::Guard(c),
                Err(e) => return Err(e),
            },
            0x14 => match FollowCommand::read_from(&mut *sub) {
                Ok(c) => Command::Follow(c),
                Err(e) => return Err(e),
            },
            0x15 => match PatrolCommand::read_from(&mut *sub) {
                Ok(c) => Command::Patrol(c),
                Err(e) => return Err(e),
            },
            0x17 => match FormFormationCommand::read_from(&mut *sub) {
                Ok(c) => Command::FormFormation(c),
                Err(e) => return Err(e),
            },
            0x35 => match UserPatchAICommand::read_from(&mut *sub, flen) {
                Ok(c) => Command::UserPatchAI(c),
                Err(e) => return Err(e),
            },
            0x64 => match MakeCommand::read_from(&mut *sub) {
                Ok(c) => Command::Make(c),
                Err(e) => return Err(e),
            },
            0x65 => match ResearchCommand::read_from(&mut *sub) {
                Ok(c) => Command::Research(c),
                Err(e) => return Err(e),
            },
            0x66 => match BuildCommand::read_from(&mut *sub) {
                Ok(c) => Command::Build(c),
                Err(e) => return Err(e),
            },
            0x67 => match GameCommand::read_from(&mut *sub) {
                Ok(c) => Command::Game(c),
                Err(e) => return Err(e),
            },
            0x69 => match BuildWallCommand::read_from(&mut *sub) {
                Ok(c) => Command::BuildWall(c),
                Err(e) => return Err(e),
            },
            0x6a => match CancelBuildCommand::read_from(&mut *sub) {
                Ok(c) => Command::CancelBuild(c),
                Err(e) => return Err(e),
            },
            0x6b => match AttackGroundCommand::read_from(&mut *sub) {
                Ok(c) => Command::AttackGround(c),
                Err(e) => return Err(e),
            },
            0x6e => match RepairCommand::read_from(&mut *sub) {
                Ok(c) => Command::Repair(c),
                Err(e) => return Err(e),
            },
            0x6f => match UngarrisonCommand::read_from(&mut *sub) {
                Ok(c) => Command::Ungarrison(c),
                Err(e) => return Err(e),
            },
            0x73 => match FlareCommand::read_from(&mut *sub) {
                Ok(c) => Command::Flare(c),
                Err(e) => return Err(e),
            },
            0x75 => match UnitOrderCommand::read_from(&mut *sub) {
                Ok(c) => Command::UnitOrder(c),
                Err(e) => return Err(e),
            },
            0x77 => match QueueCommand::read_from(&mut *sub) {
                Ok(c) => Command::Queue(c),
                Err(e) => return Err(e),
            },
            0x78 => match SetGatherPointCommand::read_from(&mut *sub) {
                Ok(c) => Command::SetGatherPoint(c),
                Err(e) => return Err(e),
            },
            0x7a => match SellResourceCommand::read_from(&mut *sub) {
                Ok(c) => Command::SellResource(c),
                Err(e) => return Err(e),
            },
            0x7b => match BuyResourceCommand::read_from(&mut *sub) {
                Ok(c) => Command::BuyResource(c),
                Err(e) => return Err(e),
            },
            0x7f => match Unknown7FCommand::read_from(&mut *sub) {
                Ok(c) => Command::Unknown7F(c),
                Err(e) => return Err(e),
            },
            0x80 => match BackToWorkCommand::read_from(&mut *sub) {
                Ok(c) => Command::BackToWork(c),
                Err(e) => return Err(e),
            },
            _ => {
                return Err(DecodeError::UnknownOpcode(op));
            },
        };
        Ok(command)
    }

    /// Read one whole frame from a cursor: the length prefix, the bounded
    /// command region, any trailing padding of that region, and the
    /// trailing world-time word, which is discarded.
    pub fn read_from(r: &mut Reader) -> (res: Result<Command, DecodeError>)
        requires
            old(r).wf(),
        ensures
            final(r).bytes() == old(r).bytes(),
            final(r).wf(),
            old(r).position() <= final(r).position(),
            match res {
                Ok(c) => parse_frame(old(r).bytes(), old(r).position()) == Ok::<_, DecodeError>(
                    (c@, final(r).position() - old(r).position()),
                ),
                Err(e) => parse_frame(old(r).bytes(), old(r).position()) == Err::<
                    (CommandView, int),
                    _,
                >(e),
            },
    {
        let flen = match r.read_u32_le() {
            Ok(v) => v,
            Err(e) => return Err(e),
        };
        if (flen as u64) + 4 > r.remaining() as u64 {
            return Err(DecodeError::Truncated);
        }
        let start = r.pos();
        let end = start + flen as usize;
        let payload = r.subslice(start, end);
        let mut sub = Reader::new(payload);
        let command = match Self::dispatch(&mut sub, flen) {
            Ok(c) => c,
            Err(e) => return Err(e),
        };
        r.seek(end);
        let _world_time = match r.read_u32_le() {
            Ok(v) => v,
            Err(e) => return Err(e),
        };
        Ok(command)
    }

    /// Write one whole frame to a byte vector: the length prefix and the
    /// count fields inside are derived from the bytes actually written, so
    /// the frame is self-consistent by construction.
    pub fn write_to(&self, out: &mut Vec<u8>, world_time: u32)
        requires
            self@.valid(),
        ensures
            final(out)@ == old(out)@ + frame_wire(self@, world_time),
    {
        let mut body: Vec<u8> = Vec::new();
        let op: u8 = match self {
            Command::Order(_) => 0x00,
            Command::Stop(_) => 0x01,
            Command::Work(_) => 0x02,
            Command::Move(_) => 0x03,
            Command::Create(_) => 0x04,
            Command::AddResource(_) => 0x05,
            Command::AIOrder(_) => 0x0a,
            Command::Resign(_) => 0x0b,
            Command::GroupWaypoint(_) => 0x10,
            Command::UnitAIState(_) => 0x12,
            Command::Guard(_) => 0x13,
            Command::Follow(_) => 0x14,
            Command::Patrol(_) => 0x15,
            Command::FormFormation(_) => 0x17,
            Command::UserPatchAI(_) => 0x35,
            Command::Make(_) => 0x64,
            Command::Research(_) => 0x65,
            Command::Build(_) => 0x66,
            Command::Game(_) => 0x67,
            Command::BuildWall(_) => 0x69,
            Command::CancelBuild(_) => 0x6a,
            Command::AttackGround(_) => 0x6b,
            Command::Repair(_) => 0x6e,
            Command::Ungarrison(_) => 0x6f,
            Command::Flare(_) => 0x73,
            Command::UnitOrder(_) => 0x75,
            Command::Queue(_) => 0x77,
            Command::SetGatherPoint(_) => 0x78,
            Command::SellResource(_) => 0x7a,
            Command::BuyResource(_) => 0x7b,
            Command::Unknown7F(_) => 0x7f,
            Command::BackToWork(_) => 0x80,
        };
        write_u8(&mut body, op);
        match self {
            Command::Order(c) => {
                c.write_to(&mut body);
            },
            Command::Stop(c) => {
                c.write_to(&mut body);
            },
            Command::Work(c) => {
                c.write_to(&mut body);
            },
            Command::Move(c) => {
                c.write_to(&mut body);
            },
            Command::Create(c) => {
                c.write_to(&mut body);
            },
            Command::AddResource(c) => {
                c.write_to(&mut body);
            },
            Command::AIOrder(c) => {
                c.write_to(&mut body);
            },
            Command::Resign(c) => {
                c.write_to(&mut body);
            },
            Command::GroupWaypoint(c) => {
                c.write_to(&mut body);
            },
            Command::UnitAIState(c) => {
                c.write_to(&mut body);
            },
            Command::Guard(c) => {
                c.write_to(&mut body);
            },
            Command::Follow(c) => {
                c.write_to(&mut body);
            },
            Command::Patrol(c) => {
                c.write_to(&mut body);
            },
            Command::FormFormation(c) => {
                c.write_to(&mut body);
            },
            Command::UserPatchAI(c) => {
                c.write_to(&mut body);
            },
            Command::Make(c) => {
                c.write_to(&mut body);
            },
            Command::Research(c) => {
                c.write_to(&mut body);
            },
            Command::Build(c) => {
                c.write_to(&mut body);
            },
            Command::Game(c) => {
                c.write_to(&mut body);
            },
            Command::BuildWall(c) => {
                c.write_to(&mut body);
            },
            Command::CancelBuild(c) => {
                c.write_to(&mut body);
            },
            Command::AttackGround(c) => {
                c.write_to(&mut body);
            },
            Command::Repair(c) => {
                c.write_to(&mut body);
            },
            Command::Ungarrison(c) => {
                c.write_to(&mut body);
            },
            Command::Flare(c) => {
                c.write_to(&mut body);
            },
            Command::UnitOrder(c) => {
                c.write_to(&mut body);
            },
            Command::Queue(c) => {
                c.write_to(&mut body);
            },
            Command::SetGatherPoint(c) => {
                c.write_to(&mut body);
            },
            Command::SellResource(c) => {
                c.write_to(&mut body);
            },
            Command::BuyResource(c) => {
                c.write_to(&mut body);
            },
            Command::Unknown7F(c) => {
                c.write_to(&mut body);
            },
            Command::BackToWork(c) => {
                c.write_to(&mut body);
            },
        };
        proof {
            lemma_command_wire_len(self@);
            assert(body@ =~= self@.wire());
        }
        write_u32_le(out, body.len() as u32);
        out.append(&mut body);
        write_u32_le(out, world_time);
        proof {
            assert(out@ =~= old(out)@ + frame_wire(self@, world_time));
        }
    }
}

/// Round-trip law for the whole command family: decoding the frame image
/// of any valid command yields the command itself, whatever the world
/// time, and the frame's length prefix is exactly the bounded region's
/// size.
#[verifier::rlimit(100)]
pub proof fn lemma_frame_roundtrip(c: CommandView, world_time: u32)
    requires
        c.lossless(),
    ensures
        parse_frame(frame_wire(c, world_time), 0) == Ok::<_, DecodeError>(
            (c, frame_wire(c, world_time).len() as int),
        ),
        le32_at(frame_wire(c, world_time), 0) == c.wire().len(),
        frame_wire(c, world_time).len() == c.wire().len() + 8,
{
    vstd::bytes::lemma_auto_spec_u32_to_from_le_bytes();
    lemma_command_wire_len(c);
    let w = c.wire();
    let f = frame_wire(c, world_time);
    assert(f.len() == w.len() + 8);
    assert(f.subrange(0, 4) =~= spec_u32_to_le_bytes(w.len() as u32));
    assert(le32_at(f, 0) == w.len() as u32);
    let payload = f.subrange(4, 4 + w.len() as int);
    assert(payload =~= w);
    assert(w[0] == c.opcode());
    assert(w.subrange(1, 1 + w.len() - 1) =~= w.subrange(1, w.len() as int));
    match c {
        CommandView::Order(v) => {
            assert(w.subrange(1, 1 + v.wire().len() as int) =~= v.wire());
            lemma_order_roundtrip(w, 1, v);
        },
        CommandView::Stop(v) => {
            assert(w.subrange(1, 1 + v.wire().len() as int) =~= v.wire());
            lemma_stop_roundtrip(w, 1, v);
        },
        CommandView::Work(v) => {
            assert(w.subrange(1, 1 + v.wire().len() as int) =~= v.wire());
            lemma_work_roundtrip(w, 1, v);
        },
        CommandView::Move(v) => {
            assert(w.subrange(1, 1 + v.wire().len() as int) =~= v.wire());
            lemma_move_roundtrip(w, 1, v);
        },
        CommandView::Create(v) => {
            assert(w.subrange(1, 1 + v.wire().len() as int) =~= v.wire());
            lemma_create_roundtrip(w, 1, v);
        },
        CommandView::AddResource(v) => {
            assert(w.subrange(1, 1 + v.wire().len() as int) =~= v.wire());
            lemma_add_resource_roundtrip(w, 1, v);
        },
        CommandView::AIOrder(v) => {
            assert(w.subrange(1, 1 + v.wire().len() as int) =~= v.wire());
            lemma_ai_order_roundtrip(w, 1, v);
        },
        CommandView::Resign(v) => {
            assert(w.subrange(1, 1 + v.wire().len() as int) =~= v.wire());
            lemma_resign_roundtrip(w, 1, v);
        },
        CommandView::GroupWaypoint(v) => {
            assert(w.subrange(1, 1 + v.wire().len() as int) =~= v.wire());
            lemma_group_waypoint_roundtrip(w, 1, v);
        },
        CommandView::UnitAIState(v) => {
            assert(w.subrange(1, 1 + v.wire().len() as int) =~= v.wire());
            lemma_unit_ai_state_roundtrip(w, 1, v);
        },
        CommandView::Guard(v) => {
            assert(w.subrange(1, 1 + v.wire().len() as int) =~= v.wire());
            lemma_guard_roundtrip(w, 1, v);
        },
        CommandView::Follow(v) => {
            assert(w.subrange(1, 1 + v.wire().len() as int) =~= v.wire());
            lemma_follow_roundtrip(w, 1, v);
        },
        CommandView::Patrol(v) => {
            assert(w.subrange(1, 1 + v.wire().len() as int) =~= v.wire());
            lemma_patrol_roundtrip(w, 1, v);
        },
        CommandView::FormFormation(v) => {
            assert(w.subrange(1, 1 + v.wire().len() as int) =~= v.wire());
            lemma_form_formation_roundtrip(w, 1, v);
        },
        CommandView::UserPatchAI(v) => {
            lemma_wire_ids_len(v.params);
            assert(w.subrange(1, 1 + v.wire().len() as int) =~= v.wire());
            lemma_user_patch_ai_roundtrip(w, 1, v, w.len() as int);
        },
        CommandView::Make(v) => {
            assert(w.subrange(1, 1 + v.wire().len() as int) =~= v.wire());
            lemma_make_roundtrip(w, 1, v);
        },
        CommandView::Research(v) => {
            assert(w.subrange(1, 1 + v.wire().len() as int) =~= v.wire());
            lemma_research_roundtrip(w, 1, v);
        },
        CommandView::Build(v) => {
            assert(w.subrange(1, 1 + v.wire().len() as int) =~= v.wire());
            lemma_build_roundtrip(w, 1, v);
        },
        CommandView::Game(v) => {
            assert(w.subrange(1, 1 + v.wire().len() as int) =~= v.wire());
            lemma_game_roundtrip(w, 1, v);
        },
        CommandView::BuildWall(v) => {
            assert(w.subrange(1, 1 + v.wire().len() as int) =~= v.wire());
            lemma_build_wall_roundtrip(w, 1, v);
        },
        CommandView::CancelBuild(v) => {
            assert(w.subrange(1, 1 + v.wire().len() as int) =~= v.wire());
            lemma_cancel_build_roundtrip(w, 1, v);
        },
        CommandView::AttackGround(v) => {
            assert(w.subrange(1, 1 + v.wire().len() as int) =~= v.wire());
            lemma_attack_ground_roundtrip(w, 1, v);
        },
        CommandView::Repair(v) => {
            assert(w.subrange(1, 1 + v.wire().len() as int) =~= v.wire());
            lemma_repair_roundtrip(w, 1, v);
        },
        CommandView::Ungarrison(v) => {
            assert(w.subrange(1, 1 + v.wire().len() as int) =~= v.wire());
            lemma_ungarrison_roundtrip(w, 1, v);
        },
        CommandView::Flare(v) => {
            assert(w.subrange(1, 1 + v.wire().len() as int) =~= v.wire());
            lemma_flare_roundtrip(w, 1, v);
        },
        CommandView::UnitOrder(v) => {
            assert(w.subrange(1, 1 + v.wire().len() as int) =~= v.wire());
            lemma_unit_order_roundtrip(w, 1, v);
        },
        CommandView::Queue(v) => {
            assert(w.subrange(1, 1 + v.wire().len() as int) =~= v.wire());
            lemma_queue_roundtrip(w, 1, v);
        },
        CommandView::SetGatherPoint(v) => {
            assert(w.subrange(1, 1 + v.wire().len() as int) =~= v.wire());
            lemma_set_gather_point_roundtrip(w, 1, v);
        },
        CommandView::SellResource(v) => {
            assert(w.subrange(1, 1 + v.wire().len() as int) =~= v.wire());
            lemma_sell_resource_roundtrip(w, 1, v);
        },
        CommandView::BuyResource(v) => {
            assert(w.subrange(1, 1 + v.wire().len() as int) =~= v.wire());
            lemma_buy_resource_roundtrip(w, 1, v);
        },
        CommandView::Unknown7F(v) => {
            assert(w.subrange(1, 1 + v.wire().len() as int) =~= v.wire());
            lemma_unknown7f_roundtrip(w, 1, v);
        },
        CommandView::BackToWork(v) => {
            assert(w.subrange(1, 1 + v.wire().len() as int) =~= v.wire());
            lemma_back_to_work_roundtrip(w, 1, v);
        },
    }
}

/// Frame-bound law: the frame codec never reads past the declared length.
/// Two byte sources that agree on a frame's length prefix and on its
/// declared region decode to the very same result, whatever stands after
/// the region in either source, and both consume the declared length plus
/// eight bytes.
pub proof fn lemma_frame_bound(s1: Seq<u8>, p1: int, s2: Seq<u8>, p2: int)
    requires
        0 <= p1,
        0 <= p2,
        p1 + 4 <= s1.len(),
        p2 + 4 <= s2.len(),
        le32_at(s1, p1) == le32_at(s2, p2),
        p1 + 4 + le32_at(s1, p1) + 4 <= s1.len(),
        p2 + 4 + le32_at(s2, p2) + 4 <= s2.len(),
        s1.subrange(p1 + 4, p1 + 4 + le32_at(s1, p1)) == s2.subrange(
            p2 + 4,
            p2 + 4 + le32_at(s2, p2),
        ),
    ensures
        parse_frame(s1, p1) == parse_frame(s2, p2),
        parse_frame(s1, p1) matches Ok((c, used)) ==> used == 8 + le32_at(s1, p1),
{
}

} // verus!
