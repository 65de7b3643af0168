//! Command variants that mix optional targets with an object reference
//! list: placing and supplying buildings, releasing garrisons, and the
//! generic parameterized unit order.
//! Each variant has a byte-level parse function and wire image, an
//! executable decoder and encoder proved against them, and a round-trip
//! lemma.
use vstd::prelude::*;

use crate::objects::opt32_bits;
use crate::objects::opt32_of;
use crate::objects::opt16_bits;
use crate::objects::opt16_of;
use crate::objects::opt16_valid;
use crate::objects::opt32_valid;
use crate::objects::parse_list;
use crate::objects::read_opt_u16;
use crate::objects::read_opt_u32;
use crate::objects::write_opt_u16;
use crate::objects::write_opt_u32;
use crate::objects::lemma_count_sentinel_byte;
use crate::objects::lemma_list_roundtrip;
use crate::objects::lemma_wire_ids_len;
use crate::objects::wire_ids;
use crate::objects::ObjectsList;
use crate::objects::ObjectsListView;
use crate::reader::le16_at;
use crate::reader::le32_at;
use crate::reader::lemma_byte_at;
use crate::reader::lemma_field_bytes;
use crate::reader::write_u8;
use crate::reader::write_u16_le;
use crate::reader::write_u32_le;
use crate::reader::write_zeros;
use crate::reader::zero_bytes;
use crate::reader::Reader;
use crate::DecodeError;
use crate::Location2;
use crate::ObjectID;
use crate::PlayerID;
use crate::UnitTypeID;
use vstd::bytes::spec_u16_to_le_bytes;
use vstd::bytes::spec_u32_to_le_bytes;

verus! {

/// Place a building foundation and task a group of villagers to start
/// building.
#[derive(Debug, Default, Clone, PartialEq)]
pub struct BuildCommand {
    /// The ID of the player issuing this command.
    pub player_id: PlayerID,
    /// The location of the new building foundation.
    pub location: Location2,
    /// The type of building to place.
    pub unit_type_id: UnitTypeID,
    /// Unique ID for the command itself, used by AIs.
    pub unique_id: Option<ObjectID>,
    /// The index of the frame to use, for buildings with multiple graphics.
    pub frame: u8,
    /// The IDs of the villagers that are tasked to build this building.
    pub builders: ObjectsList,
}

/// The mathematical shape of a [`BuildCommand`].
pub struct BuildCommandView {
    pub player_id: PlayerID,
    pub location: Location2,
    pub unit_type_id: UnitTypeID,
    pub unique_id: Option<ObjectID>,
    pub frame: u8,
    pub builders: ObjectsListView,
}

impl View for BuildCommand {
    type V = BuildCommandView;

    open spec fn view(&self) -> BuildCommandView {
        BuildCommandView {
            player_id: self.player_id,
            location: self.location,
            unit_type_id: self.unit_type_id,
            unique_id: self.unique_id,
            frame: self.frame,
            builders: self.builders@,
        }
    }
}

impl BuildCommandView {
    /// A record that the wire shape can carry back out.
    pub open spec fn valid(self) -> bool {
        &&& self.builders.valid_count_i8()
        &&& opt32_valid(self.unique_id)
    }

    /// The bytes of this record after the opcode byte.
    pub open spec fn wire(self) -> Seq<u8> {
        seq![self.builders.count_byte()]
            + seq![self.player_id]
            + zero_bytes(1)
            + spec_u32_to_le_bytes(self.location.x)
            + spec_u32_to_le_bytes(self.location.y)
            + spec_u16_to_le_bytes(self.unit_type_id)
            + zero_bytes(2)
            + spec_u32_to_le_bytes(opt32_bits(self.unique_id))
            + seq![self.frame]
            + zero_bytes(3)
            + self.builders.wire_tail()
    }

    /// Decode this record at offset `p`: the record and the bytes it
    /// consumed.
    pub open spec fn parse(s: Seq<u8>, p: int) -> Result<(BuildCommandView, int), DecodeError> {
        if p + 23 > s.len() {
            Err(DecodeError::Truncated)
        } else {
            let count = (s[p] as i8) as int;
            match parse_list(s, p + 23, count) {
                Ok((l, used)) => Ok(
                    (
                        BuildCommandView {
                            player_id: s[p + 1],
                            location: Location2 { x: le32_at(s, p + 3), y: le32_at(s, p + 7) },
                            unit_type_id: le16_at(s, p + 11),
                            unique_id: opt32_of(le32_at(s, p + 15)),
                            frame: s[p + 19],
                            builders: l,
                        },
                        23 + used,
                    ),
                ),
                Err(e) => Err(e),
            }
        }
    }
}

impl BuildCommand {
    /// Read this command from a cursor.
    pub fn read_from(r: &mut Reader) -> (res: Result<BuildCommand, DecodeError>)
        requires
            old(r).wf(),
        ensures
            final(r).bytes() == old(r).bytes(),
            final(r).wf(),
            old(r).position() <= final(r).position(),
            match res {
                Ok(c) => BuildCommandView::parse(old(r).bytes(), old(r).position()) == Ok::<_, DecodeError>(
                    (c@, final(r).position() - old(r).position()),
                ),
                Err(e) => BuildCommandView::parse(old(r).bytes(), old(r).position()) == Err::<
                    (BuildCommandView, int),
                    _,
                >(e),
            },
    {
        let selected_count = match r.read_i8() {
            Ok(v) => v,
            Err(e) => return Err(e),
        };
        let player_id = match r.read_u8() {
            Ok(v) => v,
            Err(e) => return Err(e),
        };
        match r.skip(1) {
            Ok(()) => (),
            Err(e) => return Err(e),
        };
        let loc_x = match r.read_u32_le() {
            Ok(v) => v,
            Err(e) => return Err(e),
        };
        let loc_y = match r.read_u32_le() {
            Ok(v) => v,
            Err(e) => return Err(e),
        };
        let location = Location2 { x: loc_x, y: loc_y };
        let unit_type_id = match r.read_u16_le() {
            Ok(v) => v,
            Err(e) => return Err(e),
        };
        match r.skip(2) {
            Ok(()) => (),
            Err(e) => return Err(e),
        };
        let unique_id = match read_opt_u32(r) {
            Ok(v) => v,
            Err(e) => return Err(e),
        };
        let frame = match r.read_u8() {
            Ok(v) => v,
            Err(e) => return Err(e),
        };
        match r.skip(3) {
            Ok(()) => (),
            Err(e) => return Err(e),
        };
        let builders = match ObjectsList::read_from(r, selected_count as i32) {
            Ok(v) => v,
            Err(e) => return Err(e),
        };
        Ok(BuildCommand { player_id, location, unit_type_id, unique_id, frame, builders })
    }

    /// Write this command to a byte vector.
    pub fn write_to(&self, out: &mut Vec<u8>)
        requires
            self@.valid(),
        ensures
            final(out)@ == old(out)@ + self@.wire(),
    {
        let count_byte: u8 = match &self.builders {
            ObjectsList::SameAsLast => 0xFF,
            ObjectsList::List(l) => l.len() as u8,
        };
        write_u8(out, count_byte);
        write_u8(out, self.player_id);
        write_zeros(out, 1);
        write_u32_le(out, self.location.x);
        write_u32_le(out, self.location.y);
        write_u16_le(out, self.unit_type_id);
        write_zeros(out, 2);
        write_opt_u32(out, self.unique_id);
        write_u8(out, self.frame);
        write_zeros(out, 3);
        self.builders.write_to(out);
        proof {
            assert(out@ =~= old(out)@ + self@.wire());
        }
    }
}

/// Round-trip law: decoding the wire image of any valid record yields the
/// record itself and consumes its whole image.
pub proof fn lemma_build_roundtrip(s: Seq<u8>, p: int, c: BuildCommandView)
    requires
        c.valid(),
        0 <= p,
        p + c.wire().len() <= s.len(),
        s.subrange(p, p + c.wire().len() as int) == c.wire(),
    ensures
        BuildCommandView::parse(s, p) == Ok::<_, DecodeError>((c, c.wire().len() as int)),
{
    vstd::bytes::lemma_auto_spec_u16_to_from_le_bytes();
    vstd::bytes::lemma_auto_spec_u32_to_from_le_bytes();
    let w = c.wire();
    let ids = c.builders.items();
    lemma_wire_ids_len(ids);
    assert(w.len() == 23 + if c.builders.is_marker() {
        0int
    } else {
        4 * ids.len() as int
    });
    lemma_byte_at(s, p, w, 0);
    assert(w[0] == c.builders.count_byte());
    lemma_byte_at(s, p, w, 1);
    assert(w[1] == c.player_id);
    lemma_field_bytes(s, p, w, 3, 7);
    assert(w.subrange(3, 7) =~= spec_u32_to_le_bytes(c.location.x));
    lemma_field_bytes(s, p, w, 7, 11);
    assert(w.subrange(7, 11) =~= spec_u32_to_le_bytes(c.location.y));
    lemma_field_bytes(s, p, w, 11, 13);
    assert(w.subrange(11, 13) =~= spec_u16_to_le_bytes(c.unit_type_id));
    lemma_field_bytes(s, p, w, 15, 19);
    assert(w.subrange(15, 19) =~= spec_u32_to_le_bytes(opt32_bits(c.unique_id)));
    lemma_byte_at(s, p, w, 19);
    assert(w[19] == c.frame);
    if c.builders.is_marker() {
        lemma_count_sentinel_byte();
        assert(c.builders == ObjectsListView::SameAsLast);
    } else {
        lemma_field_bytes(s, p, w, 23, 23 + 4 * ids.len() as int);
        assert(w.subrange(23, 23 + 4 * ids.len() as int) =~= wire_ids(ids));
        lemma_list_roundtrip(s, p + 23, ids);
        assert(c.builders == ObjectsListView::List(ids));
    }
    let n8 = c.builders.count_byte();
    assert(n8 <= 127 ==> (n8 as i8) >= 0 && ((n8 as i8) as u8) == n8) by (bit_vector);
}

/// Set the gather point of one or more buildings, either to an object or
/// to a location.
#[derive(Debug, Default, Clone, PartialEq)]
pub struct SetGatherPointCommand {
    /// The ID of the object being targeted, if the gather point is set to an object.
    pub target_id: Option<ObjectID>,
    /// The type ID of the unit being targeted, if the gather point is set to an object.
    pub target_type_id: Option<UnitTypeID>,
    /// The location of the new gather point. Decoding always yields a location.
    pub location: Option<Location2>,
    /// The IDs of the buildings whose gather points are being set.
    pub buildings: ObjectsList,
}

/// The mathematical shape of a [`SetGatherPointCommand`].
pub struct SetGatherPointCommandView {
    pub target_id: Option<ObjectID>,
    pub target_type_id: Option<UnitTypeID>,
    pub location: Option<Location2>,
    pub buildings: ObjectsListView,
}

impl View for SetGatherPointCommand {
    type V = SetGatherPointCommandView;

    open spec fn view(&self) -> SetGatherPointCommandView {
        SetGatherPointCommandView {
            target_id: self.target_id,
            target_type_id: self.target_type_id,
            location: self.location,
            buildings: self.buildings@,
        }
    }
}

impl SetGatherPointCommandView {
    /// A record that the wire shape can carry back out: an absent location
    /// is encoded as the origin.
    pub open spec fn valid(self) -> bool {
        &&& self.buildings.valid_count_i8()
        &&& opt32_valid(self.target_id)
        &&& opt16_valid(self.target_type_id)
    }

    /// The bytes of this record after the opcode byte.
    pub open spec fn wire(self) -> Seq<u8> {
        seq![self.buildings.count_byte()]
            + zero_bytes(2)
            + spec_u32_to_le_bytes(opt32_bits(self.target_id))
            + spec_u16_to_le_bytes(opt16_bits(self.target_type_id))
            + zero_bytes(2)
            + (match self.location {
                Some(l) => spec_u32_to_le_bytes(l.x) + spec_u32_to_le_bytes(l.y),
                None => spec_u32_to_le_bytes(0u32) + spec_u32_to_le_bytes(0u32),
            })
            + self.buildings.wire_tail()
    }

    /// Decode this record at offset `p`: the record and the bytes it
    /// consumed.
    pub open spec fn parse(s: Seq<u8>, p: int) -> Result<(SetGatherPointCommandView, int), DecodeError> {
        if p + 19 > s.len() {
            Err(DecodeError::Truncated)
        } else {
            let count = (s[p] as i8) as int;
            match parse_list(s, p + 19, count) {
                Ok((l, used)) => Ok(
                    (
                        SetGatherPointCommandView {
                            target_id: opt32_of(le32_at(s, p + 3)),
                            target_type_id: opt16_of(le16_at(s, p + 7)),
                            location: Some(Location2 { x: le32_at(s, p + 11), y: le32_at(s, p + 15) }),
                            buildings: l,
                        },
                        19 + used,
                    ),
                ),
                Err(e) => Err(e),
            }
        }
    }
}

impl SetGatherPointCommand {
    /// Read this command from a cursor.
    pub fn read_from(r: &mut Reader) -> (res: Result<SetGatherPointCommand, DecodeError>)
        requires
            old(r).wf(),
        ensures
            final(r).bytes() == old(r).bytes(),
            final(r).wf(),
            old(r).position() <= final(r).position(),
            match res {
                Ok(c) => SetGatherPointCommandView::parse(old(r).bytes(), old(r).position()) == Ok::<_, DecodeError>(
                    (c@, final(r).position() - old(r).position()),
                ),
                Err(e) => SetGatherPointCommandView::parse(old(r).bytes(), old(r).position()) == Err::<
                    (SetGatherPointCommandView, int),
                    _,
                >(e),
            },
    {
        let selected_count = match r.read_i8() {
            Ok(v) => v,
            Err(e) => return Err(e),
        };
        match r.skip(2) {
            Ok(()) => (),
            Err(e) => return Err(e),
        };
        let target_id = match read_opt_u32(r) {
            Ok(v) => v,
            Err(e) => return Err(e),
        };
        let target_type_id = match read_opt_u16(r) {
            Ok(v) => v,
            Err(e) => return Err(e),
        };
        match r.skip(2) {
            Ok(()) => (),
            Err(e) => return Err(e),
        };
        let loc_x = match r.read_u32_le() {
            Ok(v) => v,
            Err(e) => return Err(e),
        };
        let loc_y = match r.read_u32_le() {
            Ok(v) => v,
            Err(e) => return Err(e),
        };
        let location = Some(Location2 { x: loc_x, y: loc_y });
        let buildings = match ObjectsList::read_from(r, selected_count as i32) {
            Ok(v) => v,
            Err(e) => return Err(e),
        };
        Ok(SetGatherPointCommand { target_id, target_type_id, location, buildings })
    }

    /// Write this command to a byte vector.
    pub fn write_to(&self, out: &mut Vec<u8>)
        requires
            self@.valid(),
        ensures
            final(out)@ == old(out)@ + self@.wire(),
    {
        let count_byte: u8 = match &self.buildings {
            ObjectsList::SameAsLast => 0xFF,
            ObjectsList::List(l) => l.len() as u8,
        };
        write_u8(out, count_byte);
        write_zeros(out, 2);
        write_opt_u32(out, self.target_id);
        write_opt_u16(out, self.target_type_id);
        write_zeros(out, 2);
        match self.location {
            Some(l) => {
                write_u32_le(out, l.x);
                write_u32_le(out, l.y);
            },
            None => {
                write_u32_le(out, 0);
                write_u32_le(out, 0);
            },
        };
        self.buildings.write_to(out);
        proof {
            assert(out@ =~= old(out)@ + self@.wire());
        }
    }
}

/// Round-trip law: decoding the wire image of any valid record yields the
/// record itself and consumes its whole image.
pub proof fn lemma_set_gather_point_roundtrip(s: Seq<u8>, p: int, c: SetGatherPointCommandView)
    requires
        c.valid(),
        c.location is Some,
        0 <= p,
        p + c.wire().len() <= s.len(),
        s.subrange(p, p + c.wire().len() as int) == c.wire(),
    ensures
        SetGatherPointCommandView::parse(s, p) == Ok::<_, DecodeError>((c, c.wire().len() as int)),
{
    vstd::bytes::lemma_auto_spec_u16_to_from_le_bytes();
    vstd::bytes::lemma_auto_spec_u32_to_from_le_bytes();
    let w = c.wire();
    let ids = c.buildings.items();
    lemma_wire_ids_len(ids);
    assert(w.len() == 19 + if c.buildings.is_marker() {
        0int
    } else {
        4 * ids.len() as int
    });
    lemma_byte_at(s, p, w, 0);
    assert(w[0] == c.buildings.count_byte());
    lemma_field_bytes(s, p, w, 3, 7);
    assert(w.subrange(3, 7) =~= spec_u32_to_le_bytes(opt32_bits(c.target_id)));
    lemma_field_bytes(s, p, w, 7, 9);
    assert(w.subrange(7, 9) =~= spec_u16_to_le_bytes(opt16_bits(c.target_type_id)));
    lemma_field_bytes(s, p, w, 11, 15);
    lemma_field_bytes(s, p, w, 15, 19);
    match c.location {
        Some(l) => {
            assert(w.subrange(11, 15) =~= spec_u32_to_le_bytes(l.x));
            assert(w.subrange(15, 19) =~= spec_u32_to_le_bytes(l.y));
        },
        None => {
            assert(w.subrange(11, 15) =~= spec_u32_to_le_bytes(0u32));
            assert(w.subrange(15, 19) =~= spec_u32_to_le_bytes(0u32));
        },
    }
    if c.buildings.is_marker() {
        lemma_count_sentinel_byte();
        assert(c.buildings == ObjectsListView::SameAsLast);
    } else {
        lemma_field_bytes(s, p, w, 19, 19 + 4 * ids.len() as int);
        assert(w.subrange(19, 19 + 4 * ids.len() as int) =~= wire_ids(ids));
        lemma_list_roundtrip(s, p + 19, ids);
        assert(c.buildings == ObjectsListView::List(ids));
    }
    let n8 = c.buildings.count_byte();
    assert(n8 <= 127 ==> (n8 as i8) >= 0 && ((n8 as i8) as u8) == n8) by (bit_vector);
}

/// Ungarrison objects from a given list of objects.
#[derive(Debug, Default, Clone, PartialEq)]
pub struct UngarrisonCommand {
    /// Where to ungarrison to, absent when both coordinates carry the all-ones float pattern.
    pub location: Option<Location2>,
    /// How the objects are released.
    pub ungarrison_type: i8,
    /// An optional unit type filter.
    pub unit_type_id: Option<ObjectID>,
    /// The objects to ungarrison from.
    pub objects: ObjectsList,
}

/// The mathematical shape of a [`UngarrisonCommand`].
pub struct UngarrisonCommandView {
    pub location: Option<Location2>,
    pub ungarrison_type: i8,
    pub unit_type_id: Option<ObjectID>,
    pub objects: ObjectsListView,
}

impl View for UngarrisonCommand {
    type V = UngarrisonCommandView;

    open spec fn view(&self) -> UngarrisonCommandView {
        UngarrisonCommandView {
            location: self.location,
            ungarrison_type: self.ungarrison_type,
            unit_type_id: self.unit_type_id,
            objects: self.objects@,
        }
    }
}

impl UngarrisonCommandView {
    /// A record that the wire shape can carry back out.
    pub open spec fn valid(self) -> bool {
        &&& self.objects.valid_count_i8()
        &&& (self.location matches Some(l) ==> l.x != 0xBF80_0000u32 && l.y != 0xBF80_0000u32)
        &&& opt32_valid(self.unit_type_id)
    }

    /// The bytes of this record after the opcode byte.
    pub open spec fn wire(self) -> Seq<u8> {
        seq![self.objects.count_byte()]
            + zero_bytes(2)
            + (match self.location {
                Some(l) => spec_u32_to_le_bytes(l.x) + spec_u32_to_le_bytes(l.y),
                None => spec_u32_to_le_bytes(0xBF80_0000u32) + spec_u32_to_le_bytes(0xBF80_0000u32),
            })
            + seq![self.ungarrison_type as u8]
            + zero_bytes(3)
            + spec_u32_to_le_bytes(opt32_bits(self.unit_type_id))
            + self.objects.wire_tail()
    }

    /// Decode this record at offset `p`: the record and the bytes it
    /// consumed.
    pub open spec fn parse(s: Seq<u8>, p: int) -> Result<(UngarrisonCommandView, int), DecodeError> {
        if p + 19 > s.len() {
            Err(DecodeError::Truncated)
        } else {
            let count = (s[p] as i8) as int;
            match parse_list(s, p + 19, count) {
                Ok((l, used)) => Ok(
                    (
                        UngarrisonCommandView {
                            location: (if le32_at(s, p + 3) != 0xBF80_0000u32 && le32_at(s, p + 7) != 0xBF80_0000u32 { Some(Location2 { x: le32_at(s, p + 3), y: le32_at(s, p + 7) }) } else { None }),
                            ungarrison_type: s[p + 11] as i8,
                            unit_type_id: opt32_of(le32_at(s, p + 15)),
                            objects: l,
                        },
                        19 + used,
                    ),
                ),
                Err(e) => Err(e),
            }
        }
    }
}

impl UngarrisonCommand {
    /// Read this command from a cursor.
    pub fn read_from(r: &mut Reader) -> (res: Result<UngarrisonCommand, DecodeError>)
        requires
            old(r).wf(),
        ensures
            final(r).bytes() == old(r).bytes(),
            final(r).wf(),
            old(r).position() <= final(r).position(),
            match res {
                Ok(c) => UngarrisonCommandView::parse(old(r).bytes(), old(r).position()) == Ok::<_, DecodeError>(
                    (c@, final(r).position() - old(r).position()),
                ),
                Err(e) => UngarrisonCommandView::parse(old(r).bytes(), old(r).position()) == Err::<
                    (UngarrisonCommandView, int),
                    _,
                >(e),
            },
    {
        let selected_count = match r.read_i8() {
            Ok(v) => v,
            Err(e) => return Err(e),
        };
        match r.skip(2) {
            Ok(()) => (),
            Err(e) => return Err(e),
        };
        let loc_x = match r.read_u32_le() {
            Ok(v) => v,
            Err(e) => return Err(e),
        };
        let loc_y = match r.read_u32_le() {
            Ok(v) => v,
            Err(e) => return Err(e),
        };
        let location = if loc_x != 0xBF80_0000u32 && loc_y != 0xBF80_0000u32 {
            Some(Location2 { x: loc_x, y: loc_y })
        } else {
            None
        };
        let ungarrison_type = match r.read_i8() {
            Ok(v) => v,
            Err(e) => return Err(e),
        };
        match r.skip(3) {
            Ok(()) => (),
            Err(e) => return Err(e),
        };
        let unit_type_id = match read_opt_u32(r) {
            Ok(v) => v,
            Err(e) => return Err(e),
        };
        let objects = match ObjectsList::read_from(r, selected_count as i32) {
            Ok(v) => v,
            Err(e) => return Err(e),
        };
        Ok(UngarrisonCommand { location, ungarrison_type, unit_type_id, objects })
    }

    /// Write this command to a byte vector.
    pub fn write_to(&self, out: &mut Vec<u8>)
        requires
            self@.valid(),
        ensures
            final(out)@ == old(out)@ + self@.wire(),
    {
        let count_byte: u8 = match &self.objects {
            ObjectsList::SameAsLast => 0xFF,
            ObjectsList::List(l) => l.len() as u8,
        };
        write_u8(out, count_byte);
        write_zeros(out, 2);
        match self.location {
            Some(l) => {
                write_u32_le(out, l.x);
                write_u32_le(out, l.y);
            },
            None => {
                write_u32_le(out, 0xBF80_0000u32);
                write_u32_le(out, 0xBF80_0000u32);
            },
        };
        crate::reader::write_i8(out, self.ungarrison_type);
        write_zeros(out, 3);
        write_opt_u32(out, self.unit_type_id);
        self.objects.write_to(out);
        proof {
            assert(out@ =~= old(out)@ + self@.wire());
        }
    }
}

/// Round-trip law: decoding the wire image of any valid record yields the
/// record itself and consumes its whole image.
pub proof fn lemma_ungarrison_roundtrip(s: Seq<u8>, p: int, c: UngarrisonCommandView)
    requires
        c.valid(),
        0 <= p,
        p + c.wire().len() <= s.len(),
        s.subrange(p, p + c.wire().len() as int) == c.wire(),
    ensures
        UngarrisonCommandView::parse(s, p) == Ok::<_, DecodeError>((c, c.wire().len() as int)),
{
    vstd::bytes::lemma_auto_spec_u16_to_from_le_bytes();
    vstd::bytes::lemma_auto_spec_u32_to_from_le_bytes();
    let w = c.wire();
    let ids = c.objects.items();
    lemma_wire_ids_len(ids);
    assert(w.len() == 19 + if c.objects.is_marker() {
        0int
    } else {
        4 * ids.len() as int
    });
    lemma_byte_at(s, p, w, 0);
    assert(w[0] == c.objects.count_byte());
    lemma_field_bytes(s, p, w, 3, 7);
    lemma_field_bytes(s, p, w, 7, 11);
    match c.location {
        Some(l) => {
            assert(w.subrange(3, 7) =~= spec_u32_to_le_bytes(l.x));
            assert(w.subrange(7, 11) =~= spec_u32_to_le_bytes(l.y));
        },
        None => {
            assert(w.subrange(3, 7) =~= spec_u32_to_le_bytes(0xBF80_0000u32));
            assert(w.subrange(7, 11) =~= spec_u32_to_le_bytes(0xBF80_0000u32));
        },
    }
    lemma_byte_at(s, p, w, 11);
    assert(w[11] == c.ungarrison_type as u8);
    let ungarrison_type_v = c.ungarrison_type;
    assert((ungarrison_type_v as u8) as i8 == ungarrison_type_v) by (bit_vector);
    lemma_field_bytes(s, p, w, 15, 19);
    assert(w.subrange(15, 19) =~= spec_u32_to_le_bytes(opt32_bits(c.unit_type_id)));
    if c.objects.is_marker() {
        lemma_count_sentinel_byte();
        assert(c.objects == ObjectsListView::SameAsLast);
    } else {
        lemma_field_bytes(s, p, w, 19, 19 + 4 * ids.len() as int);
        assert(w.subrange(19, 19 + 4 * ids.len() as int) =~= wire_ids(ids));
        lemma_list_roundtrip(s, p + 19, ids);
        assert(c.objects == ObjectsListView::List(ids));
    }
    let n8 = c.objects.count_byte();
    assert(n8 <= 127 ==> (n8 as i8) >= 0 && ((n8 as i8) as u8) == n8) by (bit_vector);
}

/// A generic unit order with an action code, an optional parameter, and an
/// optional target or location.
#[derive(Debug, Default, Clone, PartialEq)]
pub struct UnitOrderCommand {
    /// The target object of this order.
    pub target_id: Option<ObjectID>,
    /// The action code of this order.
    pub action: i8,
    /// An optional one-byte parameter, absent when the byte is all ones.
    pub param: Option<u8>,
    /// The target location, absent when both coordinates carry the all-ones float pattern.
    pub location: Option<Location2>,
    /// Unique ID for the command itself.
    pub unique_id: Option<ObjectID>,
    /// The objects this command applies to.
    pub objects: ObjectsList,
}

/// The mathematical shape of a [`UnitOrderCommand`].
pub struct UnitOrderCommandView {
    pub target_id: Option<ObjectID>,
    pub action: i8,
    pub param: Option<u8>,
    pub location: Option<Location2>,
    pub unique_id: Option<ObjectID>,
    pub objects: ObjectsListView,
}

impl View for UnitOrderCommand {
    type V = UnitOrderCommandView;

    open spec fn view(&self) -> UnitOrderCommandView {
        UnitOrderCommandView {
            target_id: self.target_id,
            action: self.action,
            param: self.param,
            location: self.location,
            unique_id: self.unique_id,
            objects: self.objects@,
        }
    }
}

impl UnitOrderCommandView {
    /// A record that the wire shape can carry back out.
    pub open spec fn valid(self) -> bool {
        &&& self.objects.valid_count_i8()
        &&& opt32_valid(self.target_id)
        &&& (self.param matches Some(v) ==> v != 0xFFu8)
        &&& (self.location matches Some(l) ==> l.x != 0xBF80_0000u32 && l.y != 0xBF80_0000u32)
        &&& opt32_valid(self.unique_id)
    }

    /// The bytes of this record after the opcode byte.
    pub open spec fn wire(self) -> Seq<u8> {
        seq![self.objects.count_byte()]
            + zero_bytes(2)
            + spec_u32_to_le_bytes(opt32_bits(self.target_id))
            + seq![self.action as u8]
            + seq![(match self.param {
                None => 0xFFu8,
                Some(v) => v,
            })]
            + zero_bytes(2)
            + (match self.location {
                Some(l) => spec_u32_to_le_bytes(l.x) + spec_u32_to_le_bytes(l.y),
                None => spec_u32_to_le_bytes(0xBF80_0000u32) + spec_u32_to_le_bytes(0xBF80_0000u32),
            })
            + spec_u32_to_le_bytes(opt32_bits(self.unique_id))
            + self.objects.wire_tail()
    }

    /// Decode this record at offset `p`: the record and the bytes it
    /// consumed.
    pub open spec fn parse(s: Seq<u8>, p: int) -> Result<(UnitOrderCommandView, int), DecodeError> {
        if p + 23 > s.len() {
            Err(DecodeError::Truncated)
        } else {
            let count = (s[p] as i8) as int;
            match parse_list(s, p + 23, count) {
                Ok((l, used)) => Ok(
                    (
                        UnitOrderCommandView {
                            target_id: opt32_of(le32_at(s, p + 3)),
                            action: s[p + 7] as i8,
                            param: (if s[p + 8] == 0xFF { None } else { Some(s[p + 8]) }),
                            location: (if le32_at(s, p + 11) != 0xBF80_0000u32 && le32_at(s, p + 15) != 0xBF80_0000u32 { Some(Location2 { x: le32_at(s, p + 11), y: le32_at(s, p + 15) }) } else { None }),
                            unique_id: opt32_of(le32_at(s, p + 19)),
                            objects: l,
                        },
                        23 + used,
                    ),
                ),
                Err(e) => Err(e),
            }
        }
    }
}

impl UnitOrderCommand {
    /// Read this command from a cursor.
    pub fn read_from(r: &mut Reader) -> (res: Result<UnitOrderCommand, DecodeError>)
        requires
            old(r).wf(),
        ensures
            final(r).bytes() == old(r).bytes(),
            final(r).wf(),
            old(r).position() <= final(r).position(),
            match res {
                Ok(c) => UnitOrderCommandView::parse(old(r).bytes(), old(r).position()) == Ok::<_, DecodeError>(
                    (c@, final(r).position() - old(r).position()),
                ),
                Err(e) => UnitOrderCommandView::parse(old(r).bytes(), old(r).position()) == Err::<
                    (UnitOrderCommandView, int),
                    _,
                >(e),
            },
    {
        let selected_count = match r.read_i8() {
            Ok(v) => v,
            Err(e) => return Err(e),
        };
        match r.skip(2) {
            Ok(()) => (),
            Err(e) => return Err(e),
        };
        let target_id = match read_opt_u32(r) {
            Ok(v) => v,
            Err(e) => return Err(e),
        };
        let action = match r.read_i8() {
            Ok(v) => v,
            Err(e) => return Err(e),
        };
        let param_byte = match r.read_u8() {
            Ok(v) => v,
            Err(e) => return Err(e),
        };
        let param = if param_byte == 0xFF {
            None
        } else {
            Some(param_byte)
        };
        match r.skip(2) {
            Ok(()) => (),
            Err(e) => return Err(e),
        };
        let loc_x = match r.read_u32_le() {
            Ok(v) => v,
            Err(e) => return Err(e),
        };
        let loc_y = match r.read_u32_le() {
            Ok(v) => v,
            Err(e) => return Err(e),
        };
        let location = if loc_x != 0xBF80_0000u32 && loc_y != 0xBF80_0000u32 {
            Some(Location2 { x: loc_x, y: loc_y })
        } else {
            None
        };
        let unique_id = match read_opt_u32(r) {
            Ok(v) => v,
            Err(e) => return Err(e),
        };
        let objects = match ObjectsList::read_from(r, selected_count as i32) {
            Ok(v) => v,
            Err(e) => return Err(e),
        };
        Ok(UnitOrderCommand { target_id, action, param, location, unique_id, objects })
    }

    /// Write this command to a byte vector.
    pub fn write_to(&self, out: &mut Vec<u8>)
        requires
            self@.valid(),
        ensures
            final(out)@ == old(out)@ + self@.wire(),
    {
        let count_byte: u8 = match &self.objects {
            ObjectsList::SameAsLast => 0xFF,
            ObjectsList::List(l) => l.len() as u8,
        };
        write_u8(out, count_byte);
        write_zeros(out, 2);
        write_opt_u32(out, self.target_id);
        crate::reader::write_i8(out, self.action);
        match self.param {
            None => write_u8(out, 0xFF),
            Some(v) => write_u8(out, v),
        };
        write_zeros(out, 2);
        match self.location {
            Some(l) => {
                write_u32_le(out, l.x);
                write_u32_le(out, l.y);
            },
            None => {
                write_u32_le(out, 0xBF80_0000u32);
                write_u32_le(out, 0xBF80_0000u32);
            },
        };
        write_opt_u32(out, self.unique_id);
        self.objects.write_to(out);
        proof {
            assert(out@ =~= old(out)@ + self@.wire());
        }
    }
}

/// Round-trip law: decoding the wire image of any valid record yields the
/// record itself and consumes its whole image.
pub proof fn lemma_unit_order_roundtrip(s: Seq<u8>, p: int, c: UnitOrderCommandView)
    requires
        c.valid(),
        0 <= p,
        p + c.wire().len() <= s.len(),
        s.subrange(p, p + c.wire().len() as int) == c.wire(),
    ensures
        UnitOrderCommandView::parse(s, p) == Ok::<_, DecodeError>((c, c.wire().len() as int)),
{
    vstd::bytes::lemma_auto_spec_u16_to_from_le_bytes();
    vstd::bytes::lemma_auto_spec_u32_to_from_le_bytes();
    let w = c.wire();
    let ids = c.objects.items();
    lemma_wire_ids_len(ids);
    assert(w.len() == 23 + if c.objects.is_marker() {
        0int
    } else {
        4 * ids.len() as int
    });
    lemma_byte_at(s, p, w, 0);
    assert(w[0] == c.objects.count_byte());
    lemma_field_bytes(s, p, w, 3, 7);
    assert(w.subrange(3, 7) =~= spec_u32_to_le_bytes(opt32_bits(c.target_id)));
    lemma_byte_at(s, p, w, 7);
    assert(w[7] == c.action as u8);
    let action_v = c.action;
    assert((action_v as u8) as i8 == action_v) by (bit_vector);
    lemma_byte_at(s, p, w, 8);
    assert(w[8] == (match c.param {
        None => 0xFFu8,
        Some(v) => v,
    }));
    lemma_field_bytes(s, p, w, 11, 15);
    lemma_field_bytes(s, p, w, 15, 19);
    match c.location {
        Some(l) => {
            assert(w.subrange(11, 15) =~= spec_u32_to_le_bytes(l.x));
            assert(w.subrange(15, 19) =~= spec_u32_to_le_bytes(l.y));
        },
        None => {
            assert(w.subrange(11, 15) =~= spec_u32_to_le_bytes(0xBF80_0000u32));
            assert(w.subrange(15, 19) =~= spec_u32_to_le_bytes(0xBF80_0000u32));
        },
    }
    lemma_field_bytes(s, p, w, 19, 23);
    assert(w.subrange(19, 23) =~= spec_u32_to_le_bytes(opt32_bits(c.unique_id)));
    if c.objects.is_marker() {
        lemma_count_sentinel_byte();
        assert(c.objects == ObjectsListView::SameAsLast);
    } else {
        lemma_field_bytes(s, p, w, 23, 23 + 4 * ids.len() as int);
        assert(w.subrange(23, 23 + 4 * ids.len() as int) =~= wire_ids(ids));
        lemma_list_roundtrip(s, p + 23, ids);
        assert(c.objects == ObjectsListView::List(ids));
    }
    let n8 = c.objects.count_byte();
    assert(n8 <= 127 ==> (n8 as i8) >= 0 && ((n8 as i8) as u8) == n8) by (bit_vector);
}

} // verus!
