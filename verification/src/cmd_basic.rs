//! Command variants whose records carry only fixed-position scalar fields:
//! no object reference list and no variable-length tail. Each variant has a
//! byte-level parse function and wire image, an executable decoder and
//! encoder proved against them, and a round-trip lemma.
use vstd::prelude::*;

use crate::objects::id_in_range;
use crate::objects::opt32_bits;
use crate::objects::opt32_of;
use crate::reader::le16_at;
use crate::reader::le32_at;
use crate::reader::lemma_byte_at;
use crate::reader::lemma_field_bytes;
use crate::reader::write_u8;
use crate::reader::write_u16_le;
use crate::reader::write_u32_le;
use crate::reader::write_zeros;
use crate::reader::zero_bytes;
use crate::reader::Reader;
use crate::DecodeError;
use crate::Location3;
use crate::ObjectID;
use crate::PlayerID;
use crate::TechID;
use crate::UnitTypeID;
use vstd::bytes::spec_u16_to_le_bytes;
use vstd::bytes::spec_u32_to_le_bytes;

verus! {

/// An optional object identifier that the signed 32-bit wire convention can
/// carry: absent, or an identifier below the sign bit.
pub open spec fn opt_id_valid(o: Option<u32>) -> bool {
    o matches Some(v) ==> id_in_range(v)
}

/// A player resigns or drops from the game.
#[derive(Debug, Default, Clone, Copy, PartialEq, Eq)]
pub struct ResignCommand {
    /// The ID of the player that is resigning.
    pub player_id: PlayerID,
    /// The multiplayer ID of the player that is resigning.
    pub comm_player_id: PlayerID,
    /// Is this "resignation" because the player dropped from the game?
    pub dropped: bool,
}

impl ResignCommand {
    /// Every resign record can be re-encoded.
    pub open spec fn valid(self) -> bool {
        true
    }

    /// The bytes of this record after the opcode byte.
    pub open spec fn wire(self) -> Seq<u8> {
        seq![
            self.player_id,
            self.comm_player_id,
            if self.dropped {
                1u8
            } else {
                0u8
            },
        ]
    }

    /// Decode a resign record at offset `p`: the record and the bytes it
    /// consumed.
    pub open spec fn parse(s: Seq<u8>, p: int) -> Result<(ResignCommand, int), DecodeError> {
        if p + 3 > s.len() {
            Err(DecodeError::Truncated)
        } else {
            Ok(
                (
                    ResignCommand {
                        player_id: s[p],
                        comm_player_id: s[p + 1],
                        dropped: s[p + 2] != 0,
                    },
                    3,
                ),
            )
        }
    }

    /// Read a Resign command from a cursor.
    pub fn read_from(r: &mut Reader) -> (res: Result<ResignCommand, DecodeError>)
        requires
            old(r).wf(),
        ensures
            final(r).bytes() == old(r).bytes(),
            final(r).wf(),
            old(r).position() <= final(r).position(),
            match res {
                Ok(c) => Self::parse(old(r).bytes(), old(r).position()) == Ok::<_, DecodeError>(
                    (c, final(r).position() - old(r).position()),
                ),
                Err(e) => Self::parse(old(r).bytes(), old(r).position()) == Err::<
                    (ResignCommand, int),
                    _,
                >(e),
            },
    {
        let player_id = match r.read_u8() {
            Ok(v) => v,
            Err(e) => return Err(e),
        };
        let comm_player_id = match r.read_u8() {
            Ok(v) => v,
            Err(e) => return Err(e),
        };
        let dropped_byte = match r.read_u8() {
            Ok(v) => v,
            Err(e) => return Err(e),
        };
        Ok(ResignCommand { player_id, comm_player_id, dropped: dropped_byte != 0 })
    }

    /// Write this Resign command to a byte vector.
    pub fn write_to(&self, out: &mut Vec<u8>)
        requires
            self.valid(),
        ensures
            final(out)@ == old(out)@ + self.wire(),
    {
        write_u8(out, self.player_id);
        write_u8(out, self.comm_player_id);
        write_u8(out, if self.dropped {
            1
        } else {
            0
        });
        proof {
            assert(out@ =~= old(out)@ + self.wire());
        }
    }
}

/// Round-trip law for Resign: decoding the wire image of any valid record
/// yields the record itself and consumes its whole image.
pub proof fn lemma_resign_roundtrip(s: Seq<u8>, p: int, c: ResignCommand)
    requires
        c.valid(),
        0 <= p,
        p + c.wire().len() <= s.len(),
        s.subrange(p, p + c.wire().len() as int) == c.wire(),
    ensures
        ResignCommand::parse(s, p) == Ok::<_, DecodeError>((c, c.wire().len() as int)),
{
    let w = c.wire();
    lemma_byte_at(s, p, w, 0);
    lemma_byte_at(s, p, w, 1);
    lemma_byte_at(s, p, w, 2);
}

/// A command that instantly places a unit type at a given location.
///
/// Typically used for cheats and the like.
#[derive(Debug, Default, Clone, Copy, PartialEq, Eq, Structural)]
pub struct CreateCommand {
    /// The ID of the player issuing this command.
    pub player_id: PlayerID,
    /// The type of unit to create.
    pub unit_type_id: UnitTypeID,
    /// The location, as raw coordinate patterns.
    pub location: Location3,
}

impl CreateCommand {
    /// Every create record can be re-encoded.
    pub open spec fn valid(self) -> bool {
        true
    }

    /// The bytes of this record after the opcode byte.
    pub open spec fn wire(self) -> Seq<u8> {
        zero_bytes(1) + spec_u16_to_le_bytes(self.unit_type_id) + seq![self.player_id] + zero_bytes(
            1,
        ) + spec_u32_to_le_bytes(self.location.x) + spec_u32_to_le_bytes(self.location.y)
            + spec_u32_to_le_bytes(self.location.z)
    }

    /// Decode a create record at offset `p`.
    pub open spec fn parse(s: Seq<u8>, p: int) -> Result<(CreateCommand, int), DecodeError> {
        if p + 17 > s.len() {
            Err(DecodeError::Truncated)
        } else {
            Ok(
                (
                    CreateCommand {
                        player_id: s[p + 3],
                        unit_type_id: le16_at(s, p + 1),
                        location: Location3 {
                            x: le32_at(s, p + 5),
                            y: le32_at(s, p + 9),
                            z: le32_at(s, p + 13),
                        },
                    },
                    17,
                ),
            )
        }
    }

    /// Read a Create command from a cursor.
    pub fn read_from(r: &mut Reader) -> (res: Result<CreateCommand, DecodeError>)
        requires
            old(r).wf(),
        ensures
            final(r).bytes() == old(r).bytes(),
            final(r).wf(),
            old(r).position() <= final(r).position(),
            match res {
                Ok(c) => Self::parse(old(r).bytes(), old(r).position()) == Ok::<_, DecodeError>(
                    (c, final(r).position() - old(r).position()),
                ),
                Err(e) => Self::parse(old(r).bytes(), old(r).position()) == Err::<
                    (CreateCommand, int),
                    _,
                >(e),
            },
    {
        let _padding = match r.read_u8() {
            Ok(v) => v,
            Err(e) => return Err(e),
        };
        let unit_type_id = match r.read_u16_le() {
            Ok(v) => v,
            Err(e) => return Err(e),
        };
        let player_id = match r.read_u8() {
            Ok(v) => v,
            Err(e) => return Err(e),
        };
        let _padding = match r.read_u8() {
            Ok(v) => v,
            Err(e) => return Err(e),
        };
        let x = match r.read_u32_le() {
            Ok(v) => v,
            Err(e) => return Err(e),
        };
        let y = match r.read_u32_le() {
            Ok(v) => v,
            Err(e) => return Err(e),
        };
        let z = match r.read_u32_le() {
            Ok(v) => v,
            Err(e) => return Err(e),
        };
        Ok(CreateCommand { player_id, unit_type_id, location: Location3 { x, y, z } })
    }

    /// Write this Create command to a byte vector.
    pub fn write_to(&self, out: &mut Vec<u8>)
        requires
            self.valid(),
        ensures
            final(out)@ == old(out)@ + self.wire(),
    {
        write_u8(out, 0);
        write_u16_le(out, self.unit_type_id);
        write_u8(out, self.player_id);
        write_u8(out, 0);
        write_u32_le(out, self.location.x);
        write_u32_le(out, self.location.y);
        write_u32_le(out, self.location.z);
        proof {
            assert(out@ =~= old(out)@ + self.wire());
        }
    }
}

/// Round-trip law for Create.
pub proof fn lemma_create_roundtrip(s: Seq<u8>, p: int, c: CreateCommand)
    requires
        c.valid(),
        0 <= p,
        p + c.wire().len() <= s.len(),
        s.subrange(p, p + c.wire().len() as int) == c.wire(),
    ensures
        CreateCommand::parse(s, p) == Ok::<_, DecodeError>((c, c.wire().len() as int)),
{
    vstd::bytes::lemma_auto_spec_u16_to_from_le_bytes();
    vstd::bytes::lemma_auto_spec_u32_to_from_le_bytes();
    let w = c.wire();
    assert(w.len() == 17);
    lemma_byte_at(s, p, w, 3);
    lemma_field_bytes(s, p, w, 1, 3);
    assert(w.subrange(1, 3) =~= spec_u16_to_le_bytes(c.unit_type_id));
    lemma_field_bytes(s, p, w, 5, 9);
    assert(w.subrange(5, 9) =~= spec_u32_to_le_bytes(c.location.x));
    lemma_field_bytes(s, p, w, 9, 13);
    assert(w.subrange(9, 13) =~= spec_u32_to_le_bytes(c.location.y));
    lemma_field_bytes(s, p, w, 13, 17);
    assert(w.subrange(13, 17) =~= spec_u32_to_le_bytes(c.location.z));
}

/// Add resources to a player's stockpile.
///
/// Typically used for cheats.
#[derive(Debug, Default, Clone, Copy, PartialEq, Eq)]
pub struct AddResourceCommand {
    /// The player this command applies to.
    pub player_id: PlayerID,
    /// The resource to add.
    pub resource: u8,
    /// The amount to add to this resource, as a raw single-precision
    /// pattern. May encode a negative amount for subtracting.
    pub amount: u32,
}

impl AddResourceCommand {
    /// Every add-resource record can be re-encoded.
    pub open spec fn valid(self) -> bool {
        true
    }

    /// The bytes of this record after the opcode byte.
    pub open spec fn wire(self) -> Seq<u8> {
        seq![self.player_id, self.resource] + zero_bytes(1) + spec_u32_to_le_bytes(self.amount)
    }

    /// Decode an add-resource record at offset `p`.
    pub open spec fn parse(s: Seq<u8>, p: int) -> Result<(AddResourceCommand, int), DecodeError> {
        if p + 7 > s.len() {
            Err(DecodeError::Truncated)
        } else {
            Ok(
                (
                    AddResourceCommand {
                        player_id: s[p],
                        resource: s[p + 1],
                        amount: le32_at(s, p + 3),
                    },
                    7,
                ),
            )
        }
    }

    /// Read an AddResource command from a cursor.
    pub fn read_from(r: &mut Reader) -> (res: Result<AddResourceCommand, DecodeError>)
        requires
            old(r).wf(),
        ensures
            final(r).bytes() == old(r).bytes(),
            final(r).wf(),
            old(r).position() <= final(r).position(),
            match res {
                Ok(c) => Self::parse(old(r).bytes(), old(r).position()) == Ok::<_, DecodeError>(
                    (c, final(r).position() - old(r).position()),
                ),
                Err(e) => Self::parse(old(r).bytes(), old(r).position()) == Err::<
                    (AddResourceCommand, int),
                    _,
                >(e),
            },
    {
        let player_id = match r.read_u8() {
            Ok(v) => v,
            Err(e) => return Err(e),
        };
        let resource = match r.read_u8() {
            Ok(v) => v,
            Err(e) => return Err(e),
        };
        let _padding = match r.read_u8() {
            Ok(v) => v,
            Err(e) => return Err(e),
        };
        let amount = match r.read_u32_le() {
            Ok(v) => v,
            Err(e) => return Err(e),
        };
        Ok(AddResourceCommand { player_id, resource, amount })
    }

    /// Write this AddResource command to a byte vector.
    pub fn write_to(&self, out: &mut Vec<u8>)
        requires
            self.valid(),
        ensures
            final(out)@ == old(out)@ + self.wire(),
    {
        write_u8(out, self.player_id);
        write_u8(out, self.resource);
        write_u8(out, 0);
        write_u32_le(out, self.amount);
        proof {
            assert(out@ =~= old(out)@ + self.wire());
        }
    }
}

/// Round-trip law for AddResource.
pub proof fn lemma_add_resource_roundtrip(s: Seq<u8>, p: int, c: AddResourceCommand)
    requires
        c.valid(),
        0 <= p,
        p + c.wire().len() <= s.len(),
        s.subrange(p, p + c.wire().len() as int) == c.wire(),
    ensures
        AddResourceCommand::parse(s, p) == Ok::<_, DecodeError>((c, c.wire().len() as int)),
{
    vstd::bytes::lemma_auto_spec_u32_to_from_le_bytes();
    let w = c.wire();
    assert(w.len() == 7);
    lemma_byte_at(s, p, w, 0);
    lemma_byte_at(s, p, w, 1);
    lemma_field_bytes(s, p, w, 3, 7);
    assert(w.subrange(3, 7) =~= spec_u32_to_le_bytes(c.amount));
}

/// Task a building to produce a unit.
#[derive(Debug, Default, Clone, Copy, PartialEq, Eq)]
pub struct MakeCommand {
    /// The ID of the player issuing this command.
    pub player_id: PlayerID,
    /// The building where the unit is made.
    pub building_id: ObjectID,
    /// The type of unit to make.
    pub unit_type_id: UnitTypeID,
    /// An optional target object.
    pub target_id: Option<ObjectID>,
}

impl MakeCommand {
    /// A make record whose optional target the signed wire convention can
    /// carry.
    pub open spec fn valid(self) -> bool {
        opt_id_valid(self.target_id)
    }

    /// The bytes of this record after the opcode byte.
    pub open spec fn wire(self) -> Seq<u8> {
        zero_bytes(3) + spec_u32_to_le_bytes(self.building_id) + seq![self.player_id] + zero_bytes(
            1,
        ) + spec_u16_to_le_bytes(self.unit_type_id) + spec_u32_to_le_bytes(
            opt32_bits(self.target_id),
        )
    }

    /// Decode a make record at offset `p`.
    pub open spec fn parse(s: Seq<u8>, p: int) -> Result<(MakeCommand, int), DecodeError> {
        if p + 15 > s.len() {
            Err(DecodeError::Truncated)
        } else {
            Ok(
                (
                    MakeCommand {
                        player_id: s[p + 7],
                        building_id: le32_at(s, p + 3),
                        unit_type_id: le16_at(s, p + 9),
                        target_id: opt32_of(le32_at(s, p + 11)),
                    },
                    15,
                ),
            )
        }
    }

    /// Read a Make command from a cursor.
    pub fn read_from(r: &mut Reader) -> (res: Result<MakeCommand, DecodeError>)
        requires
            old(r).wf(),
        ensures
            final(r).bytes() == old(r).bytes(),
            final(r).wf(),
            old(r).position() <= final(r).position(),
            match res {
                Ok(c) => Self::parse(old(r).bytes(), old(r).position()) == Ok::<_, DecodeError>(
                    (c, final(r).position() - old(r).position()),
                ),
                Err(e) => Self::parse(old(r).bytes(), old(r).position()) == Err::<
                    (MakeCommand, int),
                    _,
                >(e),
            },
    {
        match r.skip(3) {
            Ok(()) => (),
            Err(e) => return Err(e),
        };
        let building_id = match r.read_u32_le() {
            Ok(v) => v,
            Err(e) => return Err(e),
        };
        let player_id = match r.read_u8() {
            Ok(v) => v,
            Err(e) => return Err(e),
        };
        let _padding = match r.read_u8() {
            Ok(v) => v,
            Err(e) => return Err(e),
        };
        let unit_type_id = match r.read_u16_le() {
            Ok(v) => v,
            Err(e) => return Err(e),
        };
        let target_id = match crate::objects::read_opt_u32(r) {
            Ok(v) => v,
            Err(e) => return Err(e),
        };
        Ok(MakeCommand { player_id, building_id, unit_type_id, target_id })
    }

    /// Write this Make command to a byte vector.
    pub fn write_to(&self, out: &mut Vec<u8>)
        requires
            self.valid(),
        ensures
            final(out)@ == old(out)@ + self.wire(),
    {
        write_zeros(out, 3);
        write_u32_le(out, self.building_id);
        write_u8(out, self.player_id);
        write_u8(out, 0);
        write_u16_le(out, self.unit_type_id);
        crate::objects::write_opt_u32(out, self.target_id);
        proof {
            assert(out@ =~= old(out)@ + self.wire());
        }
    }
}

/// Round-trip law for Make.
pub proof fn lemma_make_roundtrip(s: Seq<u8>, p: int, c: MakeCommand)
    requires
        c.valid(),
        0 <= p,
        p + c.wire().len() <= s.len(),
        s.subrange(p, p + c.wire().len() as int) == c.wire(),
    ensures
        MakeCommand::parse(s, p) == Ok::<_, DecodeError>((c, c.wire().len() as int)),
{
    vstd::bytes::lemma_auto_spec_u16_to_from_le_bytes();
    vstd::bytes::lemma_auto_spec_u32_to_from_le_bytes();
    let w = c.wire();
    assert(w.len() == 15);
    lemma_byte_at(s, p, w, 7);
    lemma_field_bytes(s, p, w, 3, 7);
    assert(w.subrange(3, 7) =~= spec_u32_to_le_bytes(c.building_id));
    lemma_field_bytes(s, p, w, 9, 11);
    assert(w.subrange(9, 11) =~= spec_u16_to_le_bytes(c.unit_type_id));
    lemma_field_bytes(s, p, w, 11, 15);
    assert(w.subrange(11, 15) =~= spec_u32_to_le_bytes(opt32_bits(c.target_id)));
}

/// Start a research.
#[derive(Debug, Default, Clone, Copy, PartialEq, Eq)]
pub struct ResearchCommand {
    /// The ID of the player starting the research.
    pub player_id: PlayerID,
    /// The building where the research is taking place.
    pub building_id: ObjectID,
    /// The tech ID of the research.
    pub tech_id: TechID,
    /// An optional target object.
    pub target_id: Option<ObjectID>,
}

impl ResearchCommand {
    /// A research record whose optional target the signed wire convention
    /// can carry.
    pub open spec fn valid(self) -> bool {
        opt_id_valid(self.target_id)
    }

    /// The bytes of this record after the opcode byte.
    pub open spec fn wire(self) -> Seq<u8> {
        zero_bytes(3) + spec_u32_to_le_bytes(self.building_id) + seq![self.player_id] + zero_bytes(
            1,
        ) + spec_u16_to_le_bytes(self.tech_id) + spec_u32_to_le_bytes(opt32_bits(self.target_id))
    }

    /// Decode a research record at offset `p`.
    pub open spec fn parse(s: Seq<u8>, p: int) -> Result<(ResearchCommand, int), DecodeError> {
        if p + 15 > s.len() {
            Err(DecodeError::Truncated)
        } else {
            Ok(
                (
                    ResearchCommand {
                        player_id: s[p + 7],
                        building_id: le32_at(s, p + 3),
                        tech_id: le16_at(s, p + 9),
                        target_id: opt32_of(le32_at(s, p + 11)),
                    },
                    15,
                ),
            )
        }
    }

    /// Read a Research command from a cursor.
    pub fn read_from(r: &mut Reader) -> (res: Result<ResearchCommand, DecodeError>)
        requires
            old(r).wf(),
        ensures
            final(r).bytes() == old(r).bytes(),
            final(r).wf(),
            old(r).position() <= final(r).position(),
            match res {
                Ok(c) => Self::parse(old(r).bytes(), old(r).position()) == Ok::<_, DecodeError>(
                    (c, final(r).position() - old(r).position()),
                ),
                Err(e) => Self::parse(old(r).bytes(), old(r).position()) == Err::<
                    (ResearchCommand, int),
                    _,
                >(e),
            },
    {
        match r.skip(3) {
            Ok(()) => (),
            Err(e) => return Err(e),
        };
        let building_id = match r.read_u32_le() {
            Ok(v) => v,
            Err(e) => return Err(e),
        };
        let player_id = match r.read_u8() {
            Ok(v) => v,
            Err(e) => return Err(e),
        };
        let _padding = match r.read_u8() {
            Ok(v) => v,
            Err(e) => return Err(e),
        };
        let tech_id = match r.read_u16_le() {
            Ok(v) => v,
            Err(e) => return Err(e),
        };
        let target_id = match crate::objects::read_opt_u32(r) {
            Ok(v) => v,
            Err(e) => return Err(e),
        };
        Ok(ResearchCommand { player_id, building_id, tech_id, target_id })
    }

    /// Write this Research command to a byte vector.
    pub fn write_to(&self, out: &mut Vec<u8>)
        requires
            self.valid(),
        ensures
            final(out)@ == old(out)@ + self.wire(),
    {
        write_zeros(out, 3);
        write_u32_le(out, self.building_id);
        write_u8(out, self.player_id);
        write_u8(out, 0);
        write_u16_le(out, self.tech_id);
        crate::objects::write_opt_u32(out, self.target_id);
        proof {
            assert(out@ =~= old(out)@ + self.wire());
        }
    }
}

/// Round-trip law for Research.
pub proof fn lemma_research_roundtrip(s: Seq<u8>, p: int, c: ResearchCommand)
    requires
        c.valid(),
        0 <= p,
        p + c.wire().len() <= s.len(),
        s.subrange(p, p + c.wire().len() as int) == c.wire(),
    ensures
        ResearchCommand::parse(s, p) == Ok::<_, DecodeError>((c, c.wire().len() as int)),
{
    vstd::bytes::lemma_auto_spec_u16_to_from_le_bytes();
    vstd::bytes::lemma_auto_spec_u32_to_from_le_bytes();
    let w = c.wire();
    assert(w.len() == 15);
    lemma_byte_at(s, p, w, 7);
    lemma_field_bytes(s, p, w, 3, 7);
    assert(w.subrange(3, 7) =~= spec_u32_to_le_bytes(c.building_id));
    lemma_field_bytes(s, p, w, 9, 11);
    assert(w.subrange(9, 11) =~= spec_u16_to_le_bytes(c.tech_id));
    lemma_field_bytes(s, p, w, 11, 15);
    assert(w.subrange(11, 15) =~= spec_u32_to_le_bytes(opt32_bits(c.target_id)));
}

/// Delete a building or cancel a building that's not fully built yet.
#[derive(Debug, Default, Clone, Copy, PartialEq, Eq)]
pub struct CancelBuildCommand {
    /// The ID of the player issuing this command.
    pub player_id: PlayerID,
    /// The ID of the building to cancel.
    pub building_id: ObjectID,
}

impl CancelBuildCommand {
    /// Every cancel-build record can be re-encoded.
    pub open spec fn valid(self) -> bool {
        true
    }

    /// The bytes of this record after the opcode byte. The player identifier
    /// travels as a full 32-bit word.
    pub open spec fn wire(self) -> Seq<u8> {
        zero_bytes(3) + spec_u32_to_le_bytes(self.building_id) + spec_u32_to_le_bytes(
            self.player_id as u32,
        )
    }

    /// Decode a cancel-build record at offset `p`. A player word outside the
    /// one-byte identifier domain is a narrowing failure.
    pub open spec fn parse(s: Seq<u8>, p: int) -> Result<(CancelBuildCommand, int), DecodeError> {
        if p + 11 > s.len() {
            Err(DecodeError::Truncated)
        } else if le32_at(s, p + 7) > 0xFF {
            Err(DecodeError::BadIdentifier)
        } else {
            Ok(
                (
                    CancelBuildCommand {
                        player_id: le32_at(s, p + 7) as u8,
                        building_id: le32_at(s, p + 3),
                    },
                    11,
                ),
            )
        }
    }

    /// Read a CancelBuild command from a cursor.
    pub fn read_from(r: &mut Reader) -> (res: Result<CancelBuildCommand, DecodeError>)
        requires
            old(r).wf(),
        ensures
            final(r).bytes() == old(r).bytes(),
            final(r).wf(),
            old(r).position() <= final(r).position(),
            match res {
                Ok(c) => Self::parse(old(r).bytes(), old(r).position()) == Ok::<_, DecodeError>(
                    (c, final(r).position() - old(r).position()),
                ),
                Err(e) => Self::parse(old(r).bytes(), old(r).position()) == Err::<
                    (CancelBuildCommand, int),
                    _,
                >(e),
            },
    {
        match r.skip(3) {
            Ok(()) => (),
            Err(e) => return Err(e),
        };
        let building_id = match r.read_u32_le() {
            Ok(v) => v,
            Err(e) => return Err(e),
        };
        let player_word = match r.read_u32_le() {
            Ok(v) => v,
            Err(e) => return Err(e),
        };
        if player_word > 0xFF {
            return Err(DecodeError::BadIdentifier);
        }
        Ok(CancelBuildCommand { player_id: player_word as u8, building_id })
    }

    /// Write this CancelBuild command to a byte vector.
    pub fn write_to(&self, out: &mut Vec<u8>)
        requires
            self.valid(),
        ensures
            final(out)@ == old(out)@ + self.wire(),
    {
        write_zeros(out, 3);
        write_u32_le(out, self.building_id);
        write_u32_le(out, self.player_id as u32);
        proof {
            assert(out@ =~= old(out)@ + self.wire());
        }
    }
}

/// Round-trip law for CancelBuild.
pub proof fn lemma_cancel_build_roundtrip(s: Seq<u8>, p: int, c: CancelBuildCommand)
    requires
        c.valid(),
        0 <= p,
        p + c.wire().len() <= s.len(),
        s.subrange(p, p + c.wire().len() as int) == c.wire(),
    ensures
        CancelBuildCommand::parse(s, p) == Ok::<_, DecodeError>((c, c.wire().len() as int)),
{
    vstd::bytes::lemma_auto_spec_u32_to_from_le_bytes();
    let w = c.wire();
    assert(w.len() == 11);
    lemma_field_bytes(s, p, w, 3, 7);
    assert(w.subrange(3, 7) =~= spec_u32_to_le_bytes(c.building_id));
    lemma_field_bytes(s, p, w, 7, 11);
    assert(w.subrange(7, 11) =~= spec_u32_to_le_bytes(c.player_id as u32));
}

/// Queue one or more units of one type at a building.
#[derive(Debug, Default, Clone, Copy, PartialEq, Eq)]
pub struct QueueCommand {
    /// The ID of the building where this unit is being queued.
    pub building_id: ObjectID,
    /// The ID of the unit type being queued.
    pub unit_type_id: UnitTypeID,
    /// The amount of units to queue.
    pub amount: u16,
}

impl QueueCommand {
    /// Every queue record can be re-encoded.
    pub open spec fn valid(self) -> bool {
        true
    }

    /// The bytes of this record after the opcode byte.
    pub open spec fn wire(self) -> Seq<u8> {
        zero_bytes(3) + spec_u32_to_le_bytes(self.building_id) + spec_u16_to_le_bytes(
            self.unit_type_id,
        ) + spec_u16_to_le_bytes(self.amount)
    }

    /// Decode a queue record at offset `p`.
    pub open spec fn parse(s: Seq<u8>, p: int) -> Result<(QueueCommand, int), DecodeError> {
        if p + 11 > s.len() {
            Err(DecodeError::Truncated)
        } else {
            Ok(
                (
                    QueueCommand {
                        building_id: le32_at(s, p + 3),
                        unit_type_id: le16_at(s, p + 7),
                        amount: le16_at(s, p + 9),
                    },
                    11,
                ),
            )
        }
    }

    /// Read a Queue command from a cursor.
    pub fn read_from(r: &mut Reader) -> (res: Result<QueueCommand, DecodeError>)
        requires
            old(r).wf(),
        ensures
            final(r).bytes() == old(r).bytes(),
            final(r).wf(),
            old(r).position() <= final(r).position(),
            match res {
                Ok(c) => Self::parse(old(r).bytes(), old(r).position()) == Ok::<_, DecodeError>(
                    (c, final(r).position() - old(r).position()),
                ),
                Err(e) => Self::parse(old(r).bytes(), old(r).position()) == Err::<
                    (QueueCommand, int),
                    _,
                >(e),
            },
    {
        match r.skip(3) {
            Ok(()) => (),
            Err(e) => return Err(e),
        };
        let building_id = match r.read_u32_le() {
            Ok(v) => v,
            Err(e) => return Err(e),
        };
        let unit_type_id = match r.read_u16_le() {
            Ok(v) => v,
            Err(e) => return Err(e),
        };
        let amount = match r.read_u16_le() {
            Ok(v) => v,
            Err(e) => return Err(e),
        };
        Ok(QueueCommand { building_id, unit_type_id, amount })
    }

    /// Write this Queue command to a byte vector.
    pub fn write_to(&self, out: &mut Vec<u8>)
        requires
            self.valid(),
        ensures
            final(out)@ == old(out)@ + self.wire(),
    {
        write_zeros(out, 3);
        write_u32_le(out, self.building_id);
        write_u16_le(out, self.unit_type_id);
        write_u16_le(out, self.amount);
        proof {
            assert(out@ =~= old(out)@ + self.wire());
        }
    }
}

/// Round-trip law for Queue.
pub proof fn lemma_queue_roundtrip(s: Seq<u8>, p: int, c: QueueCommand)
    requires
        c.valid(),
        0 <= p,
        p + c.wire().len() <= s.len(),
        s.subrange(p, p + c.wire().len() as int) == c.wire(),
    ensures
        QueueCommand::parse(s, p) == Ok::<_, DecodeError>((c, c.wire().len() as int)),
{
    vstd::bytes::lemma_auto_spec_u16_to_from_le_bytes();
    vstd::bytes::lemma_auto_spec_u32_to_from_le_bytes();
    let w = c.wire();
    assert(w.len() == 11);
    lemma_field_bytes(s, p, w, 3, 7);
    assert(w.subrange(3, 7) =~= spec_u32_to_le_bytes(c.building_id));
    lemma_field_bytes(s, p, w, 7, 9);
    assert(w.subrange(7, 9) =~= spec_u16_to_le_bytes(c.unit_type_id));
    lemma_field_bytes(s, p, w, 9, 11);
    assert(w.subrange(9, 11) =~= spec_u16_to_le_bytes(c.amount));
}

/// Sell a resource at the market.
#[derive(Debug, Default, Clone, Copy, PartialEq, Eq)]
pub struct SellResourceCommand {
    /// The ID of the player issuing this command.
    pub player_id: PlayerID,
    /// The resource being sold.
    pub resource: u8,
    /// The amount being sold, in 100s.
    pub amount: i8,
    /// The ID of the building where this resource is being sold.
    pub market_id: ObjectID,
}

impl SellResourceCommand {
    /// Every market record can be re-encoded.
    pub open spec fn valid(self) -> bool {
        true
    }

    /// The bytes of this record after the opcode byte.
    pub open spec fn wire(self) -> Seq<u8> {
        seq![self.player_id, self.resource, self.amount as u8] + spec_u32_to_le_bytes(
            self.market_id,
        )
    }

    /// Decode a sell-resource record at offset `p`.
    pub open spec fn parse(s: Seq<u8>, p: int) -> Result<(SellResourceCommand, int), DecodeError> {
        if p + 7 > s.len() {
            Err(DecodeError::Truncated)
        } else {
            Ok(
                (
                    SellResourceCommand {
                        player_id: s[p],
                        resource: s[p + 1],
                        amount: s[p + 2] as i8,
                        market_id: le32_at(s, p + 3),
                    },
                    7,
                ),
            )
        }
    }

    /// Read a SellResource command from a cursor.
    pub fn read_from(r: &mut Reader) -> (res: Result<SellResourceCommand, DecodeError>)
        requires
            old(r).wf(),
        ensures
            final(r).bytes() == old(r).bytes(),
            final(r).wf(),
            old(r).position() <= final(r).position(),
            match res {
                Ok(c) => Self::parse(old(r).bytes(), old(r).position()) == Ok::<_, DecodeError>(
                    (c, final(r).position() - old(r).position()),
                ),
                Err(e) => Self::parse(old(r).bytes(), old(r).position()) == Err::<
                    (SellResourceCommand, int),
                    _,
                >(e),
            },
    {
        let player_id = match r.read_u8() {
            Ok(v) => v,
            Err(e) => return Err(e),
        };
        let resource = match r.read_u8() {
            Ok(v) => v,
            Err(e) => return Err(e),
        };
        let amount = match r.read_i8() {
            Ok(v) => v,
            Err(e) => return Err(e),
        };
        let market_id = match r.read_u32_le() {
            Ok(v) => v,
            Err(e) => return Err(e),
        };
        Ok(SellResourceCommand { player_id, resource, amount, market_id })
    }

    /// Write this SellResource command to a byte vector.
    pub fn write_to(&self, out: &mut Vec<u8>)
        requires
            self.valid(),
        ensures
            final(out)@ == old(out)@ + self.wire(),
    {
        write_u8(out, self.player_id);
        write_u8(out, self.resource);
        crate::reader::write_i8(out, self.amount);
        write_u32_le(out, self.market_id);
        proof {
            assert(out@ =~= old(out)@ + self.wire());
        }
    }
}

/// Round-trip law for SellResource.
pub proof fn lemma_sell_resource_roundtrip(s: Seq<u8>, p: int, c: SellResourceCommand)
    requires
        c.valid(),
        0 <= p,
        p + c.wire().len() <= s.len(),
        s.subrange(p, p + c.wire().len() as int) == c.wire(),
    ensures
        SellResourceCommand::parse(s, p) == Ok::<_, DecodeError>((c, c.wire().len() as int)),
{
    vstd::bytes::lemma_auto_spec_u32_to_from_le_bytes();
    let w = c.wire();
    assert(w.len() == 7);
    lemma_byte_at(s, p, w, 0);
    lemma_byte_at(s, p, w, 1);
    lemma_byte_at(s, p, w, 2);
    lemma_field_bytes(s, p, w, 3, 7);
    assert(w.subrange(3, 7) =~= spec_u32_to_le_bytes(c.market_id));
    let a = c.amount;
    assert((a as u8) as i8 == a) by (bit_vector);
}

/// Buy a resource at the market. Same shape as selling, with the opposite
/// semantic sign convention.
#[derive(Debug, Default, Clone, Copy, PartialEq, Eq)]
pub struct BuyResourceCommand {
    /// The ID of the player issuing this command.
    pub player_id: PlayerID,
    /// The resource being bought.
    pub resource: u8,
    /// The amount being bought, in 100s.
    pub amount: i8,
    /// The ID of the building where this resource is being bought.
    pub market_id: ObjectID,
}

impl BuyResourceCommand {
    /// Every market record can be re-encoded.
    pub open spec fn valid(self) -> bool {
        true
    }

    /// The bytes of this record after the opcode byte.
    pub open spec fn wire(self) -> Seq<u8> {
        seq![self.player_id, self.resource, self.amount as u8] + spec_u32_to_le_bytes(
            self.market_id,
        )
    }

    /// Decode a buy-resource record at offset `p`.
    pub open spec fn parse(s: Seq<u8>, p: int) -> Result<(BuyResourceCommand, int), DecodeError> {
        if p + 7 > s.len() {
            Err(DecodeError::Truncated)
        } else {
            Ok(
                (
                    BuyResourceCommand {
                        player_id: s[p],
                        resource: s[p + 1],
                        amount: s[p + 2] as i8,
                        market_id: le32_at(s, p + 3),
                    },
                    7,
                ),
            )
        }
    }

    /// Read a BuyResource command from a cursor.
    pub fn read_from(r: &mut Reader) -> (res: Result<BuyResourceCommand, DecodeError>)
        requires
            old(r).wf(),
        ensures
            final(r).bytes() == old(r).bytes(),
            final(r).wf(),
            old(r).position() <= final(r).position(),
            match res {
                Ok(c) => Self::parse(old(r).bytes(), old(r).position()) == Ok::<_, DecodeError>(
                    (c, final(r).position() - old(r).position()),
                ),
                Err(e) => Self::parse(old(r).bytes(), old(r).position()) == Err::<
                    (BuyResourceCommand, int),
                    _,
                >(e),
            },
    {
        let player_id = match r.read_u8() {
            Ok(v) => v,
            Err(e) => return Err(e),
        };
        let resource = match r.read_u8() {
            Ok(v) => v,
            Err(e) => return Err(e),
        };
        let amount = match r.read_i8() {
            Ok(v) => v,
            Err(e) => return Err(e),
        };
        let market_id = match r.read_u32_le() {
            Ok(v) => v,
            Err(e) => return Err(e),
        };
        Ok(BuyResourceCommand { player_id, resource, amount, market_id })
    }

    /// Write this BuyResource command to a byte vector.
    pub fn write_to(&self, out: &mut Vec<u8>)
        requires
            self.valid(),
        ensures
            final(out)@ == old(out)@ + self.wire(),
    {
        write_u8(out, self.player_id);
        write_u8(out, self.resource);
        crate::reader::write_i8(out, self.amount);
        write_u32_le(out, self.market_id);
        proof {
            assert(out@ =~= old(out)@ + self.wire());
        }
    }
}

/// Round-trip law for BuyResource.
pub proof fn lemma_buy_resource_roundtrip(s: Seq<u8>, p: int, c: BuyResourceCommand)
    requires
        c.valid(),
        0 <= p,
        p + c.wire().len() <= s.len(),
        s.subrange(p, p + c.wire().len() as int) == c.wire(),
    ensures
        BuyResourceCommand::parse(s, p) == Ok::<_, DecodeError>((c, c.wire().len() as int)),
{
    vstd::bytes::lemma_auto_spec_u32_to_from_le_bytes();
    let w = c.wire();
    assert(w.len() == 7);
    lemma_byte_at(s, p, w, 0);
    lemma_byte_at(s, p, w, 1);
    lemma_byte_at(s, p, w, 2);
    lemma_field_bytes(s, p, w, 3, 7);
    assert(w.subrange(3, 7) =~= spec_u32_to_le_bytes(c.market_id));
    let a = c.amount;
    assert((a as u8) as i8 == a) by (bit_vector);
}

/// A passthrough record of unconfirmed purpose, preserved bit for bit.
#[derive(Debug, Default, Clone, Copy, PartialEq, Eq)]
pub struct Unknown7FCommand {
    /// The object the record refers to.
    pub object_id: ObjectID,
    /// The record's uninterpreted value.
    pub value: u32,
}

impl Unknown7FCommand {
    /// Every such record can be re-encoded.
    pub open spec fn valid(self) -> bool {
        true
    }

    /// The bytes of this record after the opcode byte.
    pub open spec fn wire(self) -> Seq<u8> {
        zero_bytes(3) + spec_u32_to_le_bytes(self.object_id) + spec_u32_to_le_bytes(self.value)
    }

    /// Decode the record at offset `p`.
    pub open spec fn parse(s: Seq<u8>, p: int) -> Result<(Unknown7FCommand, int), DecodeError> {
        if p + 11 > s.len() {
            Err(DecodeError::Truncated)
        } else {
            Ok(
                (
                    Unknown7FCommand { object_id: le32_at(s, p + 3), value: le32_at(s, p + 7) },
                    11,
                ),
            )
        }
    }

    /// Read the command from a cursor.
    pub fn read_from(r: &mut Reader) -> (res: Result<Unknown7FCommand, DecodeError>)
        requires
            old(r).wf(),
        ensures
            final(r).bytes() == old(r).bytes(),
            final(r).wf(),
            old(r).position() <= final(r).position(),
            match res {
                Ok(c) => Self::parse(old(r).bytes(), old(r).position()) == Ok::<_, DecodeError>(
                    (c, final(r).position() - old(r).position()),
                ),
                Err(e) => Self::parse(old(r).bytes(), old(r).position()) == Err::<
                    (Unknown7FCommand, int),
                    _,
                >(e),
            },
    {
        match r.skip(3) {
            Ok(()) => (),
            Err(e) => return Err(e),
        };
        let object_id = match r.read_u32_le() {
            Ok(v) => v,
            Err(e) => return Err(e),
        };
        let value = match r.read_u32_le() {
            Ok(v) => v,
            Err(e) => return Err(e),
        };
        Ok(Unknown7FCommand { object_id, value })
    }

    /// Write this command to a byte vector.
    pub fn write_to(&self, out: &mut Vec<u8>)
        requires
            self.valid(),
        ensures
            final(out)@ == old(out)@ + self.wire(),
    {
        write_zeros(out, 3);
        write_u32_le(out, self.object_id);
        write_u32_le(out, self.value);
        proof {
            assert(out@ =~= old(out)@ + self.wire());
        }
    }
}

/// Round-trip law for the passthrough record.
pub proof fn lemma_unknown7f_roundtrip(s: Seq<u8>, p: int, c: Unknown7FCommand)
    requires
        c.valid(),
        0 <= p,
        p + c.wire().len() <= s.len(),
        s.subrange(p, p + c.wire().len() as int) == c.wire(),
    ensures
        Unknown7FCommand::parse(s, p) == Ok::<_, DecodeError>((c, c.wire().len() as int)),
{
    vstd::bytes::lemma_auto_spec_u32_to_from_le_bytes();
    let w = c.wire();
    assert(w.len() == 11);
    lemma_field_bytes(s, p, w, 3, 7);
    assert(w.subrange(3, 7) =~= spec_u32_to_le_bytes(c.object_id));
    lemma_field_bytes(s, p, w, 7, 11);
    assert(w.subrange(7, 11) =~= spec_u32_to_le_bytes(c.value));
}

/// Send villagers back to work after they've been garrisoned into the Town
/// Center.
#[derive(Debug, Default, Clone, Copy, PartialEq, Eq)]
pub struct BackToWorkCommand {
    /// The building whose garrisoned villagers go back to work.
    pub building_id: ObjectID,
}

impl BackToWorkCommand {
    /// Every back-to-work record can be re-encoded.
    pub open spec fn valid(self) -> bool {
        true
    }

    /// The bytes of this record after the opcode byte.
    pub open spec fn wire(self) -> Seq<u8> {
        zero_bytes(3) + spec_u32_to_le_bytes(self.building_id)
    }

    /// Decode a back-to-work record at offset `p`.
    pub open spec fn parse(s: Seq<u8>, p: int) -> Result<(BackToWorkCommand, int), DecodeError> {
        if p + 7 > s.len() {
            Err(DecodeError::Truncated)
        } else {
            Ok((BackToWorkCommand { building_id: le32_at(s, p + 3) }, 7))
        }
    }

    /// Read a BackToWork command from a cursor.
    pub fn read_from(r: &mut Reader) -> (res: Result<BackToWorkCommand, DecodeError>)
        requires
            old(r).wf(),
        ensures
            final(r).bytes() == old(r).bytes(),
            final(r).wf(),
            old(r).position() <= final(r).position(),
            match res {
                Ok(c) => Self::parse(old(r).bytes(), old(r).position()) == Ok::<_, DecodeError>(
                    (c, final(r).position() - old(r).position()),
                ),
                Err(e) => Self::parse(old(r).bytes(), old(r).position()) == Err::<
                    (BackToWorkCommand, int),
                    _,
                >(e),
            },
    {
        match r.skip(3) {
            Ok(()) => (),
            Err(e) => return Err(e),
        };
        let building_id = match r.read_u32_le() {
            Ok(v) => v,
            Err(e) => return Err(e),
        };
        Ok(BackToWorkCommand { building_id })
    }

    /// Write this BackToWork command to a byte vector.
    pub fn write_to(&self, out: &mut Vec<u8>)
        requires
            self.valid(),
        ensures
            final(out)@ == old(out)@ + self.wire(),
    {
        write_zeros(out, 3);
        write_u32_le(out, self.building_id);
        proof {
            assert(out@ =~= old(out)@ + self.wire());
        }
    }
}

/// Round-trip law for BackToWork.
pub proof fn lemma_back_to_work_roundtrip(s: Seq<u8>, p: int, c: BackToWorkCommand)
    requires
        c.valid(),
        0 <= p,
        p + c.wire().len() <= s.len(),
        s.subrange(p, p + c.wire().len() as int) == c.wire(),
    ensures
        BackToWorkCommand::parse(s, p) == Ok::<_, DecodeError>((c, c.wire().len() as int)),
{
    vstd::bytes::lemma_auto_spec_u32_to_from_le_bytes();
    let w = c.wire();
    assert(w.len() == 7);
    lemma_field_bytes(s, p, w, 3, 7);
    assert(w.subrange(3, 7) =~= spec_u32_to_le_bytes(c.building_id));
}

} // verus!
