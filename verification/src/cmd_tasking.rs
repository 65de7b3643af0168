//! Command variants that task a selection of objects: each record carries a
//! count-prefixed object reference list after its fixed-position fields.
//! Each variant has a byte-level parse function and wire image, an
//! executable decoder and encoder proved against them, and a round-trip
//! lemma.
use vstd::prelude::*;

use crate::cmd_basic::opt_id_valid;
use crate::objects::opt32_bits;
use crate::objects::opt32_of;
use crate::objects::opt32_valid;
use crate::objects::parse_list;
use crate::objects::read_opt_u32;
use crate::objects::write_opt_u32;
use crate::objects::lemma_count_sentinel_byte;
use crate::objects::lemma_list_roundtrip;
use crate::objects::lemma_wire_ids_len;
use crate::objects::wire_ids;
use crate::objects::ObjectsList;
use crate::objects::ObjectsListView;
use crate::reader::le32_at;
use crate::reader::lemma_byte_at;
use crate::reader::lemma_field_bytes;
use crate::reader::write_u8;
use crate::reader::write_u32_le;
use crate::reader::write_zeros;
use crate::reader::zero_bytes;
use crate::reader::Reader;
use crate::DecodeError;
use crate::GridPoint;
use crate::Location2;
use crate::ObjectID;
use crate::PlayerID;
use vstd::bytes::spec_u32_to_le_bytes;

verus! {

/// Task a selection of objects to a target object or a target location.
#[derive(Debug, Default, Clone, PartialEq)]
pub struct OrderCommand {
    /// The ID of the player executing this command.
    pub player_id: PlayerID,
    /// The target object of this order.
    pub target_id: Option<ObjectID>,
    /// The target location of this order.
    pub location: Location2,
    /// The objects this command applies to.
    pub objects: ObjectsList,
}

/// The mathematical shape of a [`OrderCommand`].
pub struct OrderCommandView {
    pub player_id: PlayerID,
    pub target_id: Option<ObjectID>,
    pub location: Location2,
    pub objects: ObjectsListView,
}

impl View for OrderCommand {
    type V = OrderCommandView;

    open spec fn view(&self) -> OrderCommandView {
        OrderCommandView {
            player_id: self.player_id,
            target_id: self.target_id,
            location: self.location,
            objects: self.objects@,
        }
    }
}

impl OrderCommandView {
    /// A record that the wire shape can carry back out.
    pub open spec fn valid(self) -> bool {
        &&& self.objects.valid_count_u32()
        &&& opt_id_valid(self.target_id)
    }

    /// The bytes of this record after the opcode byte.
    pub open spec fn wire(self) -> Seq<u8> {
        seq![self.player_id]
            + zero_bytes(2)
            + spec_u32_to_le_bytes(opt32_bits(self.target_id))
            + spec_u32_to_le_bytes(self.objects.count_word())
            + spec_u32_to_le_bytes(self.location.x)
            + spec_u32_to_le_bytes(self.location.y)
            + self.objects.wire_tail()
    }

    /// Decode this record at offset `p`: the record and the bytes it
    /// consumed.
    pub open spec fn parse(s: Seq<u8>, p: int) -> Result<(OrderCommandView, int), DecodeError> {
        if p + 19 > s.len() {
            Err(DecodeError::Truncated)
        } else {
            let count = le32_at(s, p + 7) as int;
            match parse_list(s, p + 19, count) {
                Ok((l, used)) => Ok(
                    (
                        OrderCommandView {
                            player_id: s[p],
                            target_id: opt32_of(le32_at(s, p + 3)),
                            location: Location2 { x: le32_at(s, p + 11), y: le32_at(s, p + 15) },
                            objects: l,
                        },
                        19 + used,
                    ),
                ),
                Err(e) => Err(e),
            }
        }
    }
}

impl OrderCommand {
    /// Read this command from a cursor.
    pub fn read_from(r: &mut Reader) -> (res: Result<OrderCommand, DecodeError>)
        requires
            old(r).wf(),
        ensures
            final(r).bytes() == old(r).bytes(),
            final(r).wf(),
            old(r).position() <= final(r).position(),
            match res {
                Ok(c) => OrderCommandView::parse(old(r).bytes(), old(r).position()) == Ok::<_, DecodeError>(
                    (c@, final(r).position() - old(r).position()),
                ),
                Err(e) => OrderCommandView::parse(old(r).bytes(), old(r).position()) == Err::<
                    (OrderCommandView, int),
                    _,
                >(e),
            },
    {
        let player_id = match r.read_u8() {
            Ok(v) => v,
            Err(e) => return Err(e),
        };
        match r.skip(2) {
            Ok(()) => (),
            Err(e) => return Err(e),
        };
        let target_id = match read_opt_u32(r) {
            Ok(v) => v,
            Err(e) => return Err(e),
        };
        let selected_count = match r.read_u32_le() {
            Ok(v) => v,
            Err(e) => return Err(e),
        };
        let loc_x = match r.read_u32_le() {
            Ok(v) => v,
            Err(e) => return Err(e),
        };
        let loc_y = match r.read_u32_le() {
            Ok(v) => v,
            Err(e) => return Err(e),
        };
        let location = Location2 { x: loc_x, y: loc_y };
        let objects = if selected_count >= 0xFF {
            ObjectsList::SameAsLast
        } else {
            match ObjectsList::read_from(r, selected_count as i32) {
                Ok(v) => v,
                Err(e) => return Err(e),
            }
        };
        Ok(OrderCommand { player_id, target_id, location, objects })
    }

    /// Write this command to a byte vector.
    pub fn write_to(&self, out: &mut Vec<u8>)
        requires
            self@.valid(),
        ensures
            final(out)@ == old(out)@ + self@.wire(),
    {
        write_u8(out, self.player_id);
        write_zeros(out, 2);
        write_opt_u32(out, self.target_id);
        let count_word: u32 = match &self.objects {
            ObjectsList::SameAsLast => 0xFF,
            ObjectsList::List(l) => l.len() as u32,
        };
        write_u32_le(out, count_word);
        write_u32_le(out, self.location.x);
        write_u32_le(out, self.location.y);
        self.objects.write_to(out);
        proof {
            assert(out@ =~= old(out)@ + self@.wire());
        }
    }
}

/// Round-trip law: decoding the wire image of any valid record yields the
/// record itself and consumes its whole image.
pub proof fn lemma_order_roundtrip(s: Seq<u8>, p: int, c: OrderCommandView)
    requires
        c.valid(),
        0 <= p,
        p + c.wire().len() <= s.len(),
        s.subrange(p, p + c.wire().len() as int) == c.wire(),
    ensures
        OrderCommandView::parse(s, p) == Ok::<_, DecodeError>((c, c.wire().len() as int)),
{
    vstd::bytes::lemma_auto_spec_u16_to_from_le_bytes();
    vstd::bytes::lemma_auto_spec_u32_to_from_le_bytes();
    let w = c.wire();
    let ids = c.objects.items();
    lemma_wire_ids_len(ids);
    assert(w.len() == 19 + if c.objects.is_marker() {
        0int
    } else {
        4 * ids.len() as int
    });
    lemma_byte_at(s, p, w, 0);
    assert(w[0] == c.player_id);
    lemma_field_bytes(s, p, w, 3, 7);
    assert(w.subrange(3, 7) =~= spec_u32_to_le_bytes(opt32_bits(c.target_id)));
    lemma_field_bytes(s, p, w, 7, 11);
    assert(w.subrange(7, 11) =~= spec_u32_to_le_bytes(c.objects.count_word()));
    lemma_field_bytes(s, p, w, 11, 15);
    assert(w.subrange(11, 15) =~= spec_u32_to_le_bytes(c.location.x));
    lemma_field_bytes(s, p, w, 15, 19);
    assert(w.subrange(15, 19) =~= spec_u32_to_le_bytes(c.location.y));
    if c.objects.is_marker() {
        assert(c.objects == ObjectsListView::SameAsLast);
    } else {
        lemma_field_bytes(s, p, w, 19, 19 + 4 * ids.len() as int);
        assert(w.subrange(19, 19 + 4 * ids.len() as int) =~= wire_ids(ids));
        lemma_list_roundtrip(s, p + 19, ids);
        assert(c.objects == ObjectsListView::List(ids));
    }
}

/// Task objects to stop.
#[derive(Debug, Default, Clone, PartialEq)]
pub struct StopCommand {
    /// The objects to stop.
    pub objects: ObjectsList,
}

/// The mathematical shape of a [`StopCommand`].
pub struct StopCommandView {
    pub objects: ObjectsListView,
}

impl View for StopCommand {
    type V = StopCommandView;

    open spec fn view(&self) -> StopCommandView {
        StopCommandView {
            objects: self.objects@,
        }
    }
}

impl StopCommandView {
    /// A record that the wire shape can carry back out.
    pub open spec fn valid(self) -> bool {
        self.objects.valid_count_i8()
    }

    /// The bytes of this record after the opcode byte.
    pub open spec fn wire(self) -> Seq<u8> {
        seq![self.objects.count_byte()]
            + self.objects.wire_tail()
    }

    /// Decode this record at offset `p`: the record and the bytes it
    /// consumed.
    pub open spec fn parse(s: Seq<u8>, p: int) -> Result<(StopCommandView, int), DecodeError> {
        if p + 1 > s.len() {
            Err(DecodeError::Truncated)
        } else {
            let count = (s[p] as i8) as int;
            match parse_list(s, p + 1, count) {
                Ok((l, used)) => Ok(
                    (
                        StopCommandView {
                            objects: l,
                        },
                        1 + used,
                    ),
                ),
                Err(e) => Err(e),
            }
        }
    }
}

impl StopCommand {
    /// Read this command from a cursor.
    pub fn read_from(r: &mut Reader) -> (res: Result<StopCommand, DecodeError>)
        requires
            old(r).wf(),
        ensures
            final(r).bytes() == old(r).bytes(),
            final(r).wf(),
            old(r).position() <= final(r).position(),
            match res {
                Ok(c) => StopCommandView::parse(old(r).bytes(), old(r).position()) == Ok::<_, DecodeError>(
                    (c@, final(r).position() - old(r).position()),
                ),
                Err(e) => StopCommandView::parse(old(r).bytes(), old(r).position()) == Err::<
                    (StopCommandView, int),
                    _,
                >(e),
            },
    {
        let selected_count = match r.read_i8() {
            Ok(v) => v,
            Err(e) => return Err(e),
        };
        let objects = match ObjectsList::read_from(r, selected_count as i32) {
            Ok(v) => v,
            Err(e) => return Err(e),
        };
        Ok(StopCommand { objects })
    }

    /// Write this command to a byte vector.
    pub fn write_to(&self, out: &mut Vec<u8>)
        requires
            self@.valid(),
        ensures
            final(out)@ == old(out)@ + self@.wire(),
    {
        let count_byte: u8 = match &self.objects {
            ObjectsList::SameAsLast => 0xFF,
            ObjectsList::List(l) => l.len() as u8,
        };
        write_u8(out, count_byte);
        self.objects.write_to(out);
        proof {
            assert(out@ =~= old(out)@ + self@.wire());
        }
    }
}

/// Round-trip law: decoding the wire image of any valid record yields the
/// record itself and consumes its whole image.
pub proof fn lemma_stop_roundtrip(s: Seq<u8>, p: int, c: StopCommandView)
    requires
        c.valid(),
        0 <= p,
        p + c.wire().len() <= s.len(),
        s.subrange(p, p + c.wire().len() as int) == c.wire(),
    ensures
        StopCommandView::parse(s, p) == Ok::<_, DecodeError>((c, c.wire().len() as int)),
{
    vstd::bytes::lemma_auto_spec_u16_to_from_le_bytes();
    vstd::bytes::lemma_auto_spec_u32_to_from_le_bytes();
    let w = c.wire();
    let ids = c.objects.items();
    lemma_wire_ids_len(ids);
    assert(w.len() == 1 + if c.objects.is_marker() {
        0int
    } else {
        4 * ids.len() as int
    });
    lemma_byte_at(s, p, w, 0);
    assert(w[0] == c.objects.count_byte());
    if c.objects.is_marker() {
        lemma_count_sentinel_byte();
        assert(c.objects == ObjectsListView::SameAsLast);
    } else {
        lemma_field_bytes(s, p, w, 1, 1 + 4 * ids.len() as int);
        assert(w.subrange(1, 1 + 4 * ids.len() as int) =~= wire_ids(ids));
        lemma_list_roundtrip(s, p + 1, ids);
        assert(c.objects == ObjectsListView::List(ids));
    }
    let n8 = c.objects.count_byte();
    assert(n8 <= 127 ==> (n8 as i8) >= 0 && ((n8 as i8) as u8) == n8) by (bit_vector);
}

/// Task an object to work.
#[derive(Debug, Default, Clone, PartialEq)]
pub struct WorkCommand {
    /// The target object of this command.
    pub target_id: Option<ObjectID>,
    /// The target location of this command.
    pub location: Location2,
    /// The objects being tasked.
    pub objects: ObjectsList,
}

/// The mathematical shape of a [`WorkCommand`].
pub struct WorkCommandView {
    pub target_id: Option<ObjectID>,
    pub location: Location2,
    pub objects: ObjectsListView,
}

impl View for WorkCommand {
    type V = WorkCommandView;

    open spec fn view(&self) -> WorkCommandView {
        WorkCommandView {
            target_id: self.target_id,
            location: self.location,
            objects: self.objects@,
        }
    }
}

impl WorkCommandView {
    /// A record that the wire shape can carry back out.
    pub open spec fn valid(self) -> bool {
        &&& self.objects.valid_count_i8()
        &&& opt32_valid(self.target_id)
    }

    /// The bytes of this record after the opcode byte.
    pub open spec fn wire(self) -> Seq<u8> {
        zero_bytes(3)
            + spec_u32_to_le_bytes(opt32_bits(self.target_id))
            + seq![self.objects.count_byte()]
            + zero_bytes(3)
            + spec_u32_to_le_bytes(self.location.x)
            + spec_u32_to_le_bytes(self.location.y)
            + self.objects.wire_tail()
    }

    /// Decode this record at offset `p`: the record and the bytes it
    /// consumed.
    pub open spec fn parse(s: Seq<u8>, p: int) -> Result<(WorkCommandView, int), DecodeError> {
        if p + 19 > s.len() {
            Err(DecodeError::Truncated)
        } else {
            let count = (s[p + 7] as i8) as int;
            match parse_list(s, p + 19, count) {
                Ok((l, used)) => Ok(
                    (
                        WorkCommandView {
                            target_id: opt32_of(le32_at(s, p + 3)),
                            location: Location2 { x: le32_at(s, p + 11), y: le32_at(s, p + 15) },
                            objects: l,
                        },
                        19 + used,
                    ),
                ),
                Err(e) => Err(e),
            }
        }
    }
}

impl WorkCommand {
    /// Read this command from a cursor.
    pub fn read_from(r: &mut Reader) -> (res: Result<WorkCommand, DecodeError>)
        requires
            old(r).wf(),
        ensures
            final(r).bytes() == old(r).bytes(),
            final(r).wf(),
            old(r).position() <= final(r).position(),
            match res {
                Ok(c) => WorkCommandView::parse(old(r).bytes(), old(r).position()) == Ok::<_, DecodeError>(
                    (c@, final(r).position() - old(r).position()),
                ),
                Err(e) => WorkCommandView::parse(old(r).bytes(), old(r).position()) == Err::<
                    (WorkCommandView, int),
                    _,
                >(e),
            },
    {
        match r.skip(3) {
            Ok(()) => (),
            Err(e) => return Err(e),
        };
        let target_id = match read_opt_u32(r) {
            Ok(v) => v,
            Err(e) => return Err(e),
        };
        let selected_count = match r.read_i8() {
            Ok(v) => v,
            Err(e) => return Err(e),
        };
        match r.skip(3) {
            Ok(()) => (),
            Err(e) => return Err(e),
        };
        let loc_x = match r.read_u32_le() {
            Ok(v) => v,
            Err(e) => return Err(e),
        };
        let loc_y = match r.read_u32_le() {
            Ok(v) => v,
            Err(e) => return Err(e),
        };
        let location = Location2 { x: loc_x, y: loc_y };
        let objects = match ObjectsList::read_from(r, selected_count as i32) {
            Ok(v) => v,
            Err(e) => return Err(e),
        };
        Ok(WorkCommand { target_id, location, objects })
    }

    /// Write this command to a byte vector.
    pub fn write_to(&self, out: &mut Vec<u8>)
        requires
            self@.valid(),
        ensures
            final(out)@ == old(out)@ + self@.wire(),
    {
        write_zeros(out, 3);
        write_opt_u32(out, self.target_id);
        let count_byte: u8 = match &self.objects {
            ObjectsList::SameAsLast => 0xFF,
            ObjectsList::List(l) => l.len() as u8,
        };
        write_u8(out, count_byte);
        write_zeros(out, 3);
        write_u32_le(out, self.location.x);
        write_u32_le(out, self.location.y);
        self.objects.write_to(out);
        proof {
            assert(out@ =~= old(out)@ + self@.wire());
        }
    }
}

/// Round-trip law: decoding the wire image of any valid record yields the
/// record itself and consumes its whole image.
pub proof fn lemma_work_roundtrip(s: Seq<u8>, p: int, c: WorkCommandView)
    requires
        c.valid(),
        0 <= p,
        p + c.wire().len() <= s.len(),
        s.subrange(p, p + c.wire().len() as int) == c.wire(),
    ensures
        WorkCommandView::parse(s, p) == Ok::<_, DecodeError>((c, c.wire().len() as int)),
{
    vstd::bytes::lemma_auto_spec_u16_to_from_le_bytes();
    vstd::bytes::lemma_auto_spec_u32_to_from_le_bytes();
    let w = c.wire();
    let ids = c.objects.items();
    lemma_wire_ids_len(ids);
    assert(w.len() == 19 + if c.objects.is_marker() {
        0int
    } else {
        4 * ids.len() as int
    });
    lemma_field_bytes(s, p, w, 3, 7);
    assert(w.subrange(3, 7) =~= spec_u32_to_le_bytes(opt32_bits(c.target_id)));
    lemma_byte_at(s, p, w, 7);
    assert(w[7] == c.objects.count_byte());
    lemma_field_bytes(s, p, w, 11, 15);
    assert(w.subrange(11, 15) =~= spec_u32_to_le_bytes(c.location.x));
    lemma_field_bytes(s, p, w, 15, 19);
    assert(w.subrange(15, 19) =~= spec_u32_to_le_bytes(c.location.y));
    if c.objects.is_marker() {
        lemma_count_sentinel_byte();
        assert(c.objects == ObjectsListView::SameAsLast);
    } else {
        lemma_field_bytes(s, p, w, 19, 19 + 4 * ids.len() as int);
        assert(w.subrange(19, 19 + 4 * ids.len() as int) =~= wire_ids(ids));
        lemma_list_roundtrip(s, p + 19, ids);
        assert(c.objects == ObjectsListView::List(ids));
    }
    let n8 = c.objects.count_byte();
    assert(n8 <= 127 ==> (n8 as i8) >= 0 && ((n8 as i8) as u8) == n8) by (bit_vector);
}

/// Task an object to move.
#[derive(Debug, Default, Clone, PartialEq)]
pub struct MoveCommand {
    /// The ID of the player issuing this command.
    pub player_id: PlayerID,
    /// The target object of this command.
    pub target_id: Option<ObjectID>,
    /// The target location of this command.
    pub location: Location2,
    /// The objects being tasked.
    pub objects: ObjectsList,
}

/// The mathematical shape of a [`MoveCommand`].
pub struct MoveCommandView {
    pub player_id: PlayerID,
    pub target_id: Option<ObjectID>,
    pub location: Location2,
    pub objects: ObjectsListView,
}

impl View for MoveCommand {
    type V = MoveCommandView;

    open spec fn view(&self) -> MoveCommandView {
        MoveCommandView {
            player_id: self.player_id,
            target_id: self.target_id,
            location: self.location,
            objects: self.objects@,
        }
    }
}

impl MoveCommandView {
    /// A record that the wire shape can carry back out.
    pub open spec fn valid(self) -> bool {
        &&& self.objects.valid_count_i8()
        &&& opt32_valid(self.target_id)
    }

    /// The bytes of this record after the opcode byte.
    pub open spec fn wire(self) -> Seq<u8> {
        seq![self.player_id]
            + zero_bytes(2)
            + spec_u32_to_le_bytes(opt32_bits(self.target_id))
            + seq![self.objects.count_byte()]
            + zero_bytes(3)
            + spec_u32_to_le_bytes(self.location.x)
            + spec_u32_to_le_bytes(self.location.y)
            + self.objects.wire_tail()
    }

    /// Decode this record at offset `p`: the record and the bytes it
    /// consumed.
    pub open spec fn parse(s: Seq<u8>, p: int) -> Result<(MoveCommandView, int), DecodeError> {
        if p + 19 > s.len() {
            Err(DecodeError::Truncated)
        } else {
            let count = (s[p + 7] as i8) as int;
            match parse_list(s, p + 19, count) {
                Ok((l, used)) => Ok(
                    (
                        MoveCommandView {
                            player_id: s[p],
                            target_id: opt32_of(le32_at(s, p + 3)),
                            location: Location2 { x: le32_at(s, p + 11), y: le32_at(s, p + 15) },
                            objects: l,
                        },
                        19 + used,
                    ),
                ),
                Err(e) => Err(e),
            }
        }
    }
}

impl MoveCommand {
    /// Read this command from a cursor.
    pub fn read_from(r: &mut Reader) -> (res: Result<MoveCommand, DecodeError>)
        requires
            old(r).wf(),
        ensures
            final(r).bytes() == old(r).bytes(),
            final(r).wf(),
            old(r).position() <= final(r).position(),
            match res {
                Ok(c) => MoveCommandView::parse(old(r).bytes(), old(r).position()) == Ok::<_, DecodeError>(
                    (c@, final(r).position() - old(r).position()),
                ),
                Err(e) => MoveCommandView::parse(old(r).bytes(), old(r).position()) == Err::<
                    (MoveCommandView, int),
                    _,
                >(e),
            },
    {
        let player_id = match r.read_u8() {
            Ok(v) => v,
            Err(e) => return Err(e),
        };
        match r.skip(2) {
            Ok(()) => (),
            Err(e) => return Err(e),
        };
        let target_id = match read_opt_u32(r) {
            Ok(v) => v,
            Err(e) => return Err(e),
        };
        let selected_count = match r.read_i8() {
            Ok(v) => v,
            Err(e) => return Err(e),
        };
        match r.skip(3) {
            Ok(()) => (),
            Err(e) => return Err(e),
        };
        let loc_x = match r.read_u32_le() {
            Ok(v) => v,
            Err(e) => return Err(e),
        };
        let loc_y = match r.read_u32_le() {
            Ok(v) => v,
            Err(e) => return Err(e),
        };
        let location = Location2 { x: loc_x, y: loc_y };
        let objects = match ObjectsList::read_from(r, selected_count as i32) {
            Ok(v) => v,
            Err(e) => return Err(e),
        };
        Ok(MoveCommand { player_id, target_id, location, objects })
    }

    /// Write this command to a byte vector.
    pub fn write_to(&self, out: &mut Vec<u8>)
        requires
            self@.valid(),
        ensures
            final(out)@ == old(out)@ + self@.wire(),
    {
        write_u8(out, self.player_id);
        write_zeros(out, 2);
        write_opt_u32(out, self.target_id);
        let count_byte: u8 = match &self.objects {
            ObjectsList::SameAsLast => 0xFF,
            ObjectsList::List(l) => l.len() as u8,
        };
        write_u8(out, count_byte);
        write_zeros(out, 3);
        write_u32_le(out, self.location.x);
        write_u32_le(out, self.location.y);
        self.objects.write_to(out);
        proof {
            assert(out@ =~= old(out)@ + self@.wire());
        }
    }
}

/// Round-trip law: decoding the wire image of any valid record yields the
/// record itself and consumes its whole image.
pub proof fn lemma_move_roundtrip(s: Seq<u8>, p: int, c: MoveCommandView)
    requires
        c.valid(),
        0 <= p,
        p + c.wire().len() <= s.len(),
        s.subrange(p, p + c.wire().len() as int) == c.wire(),
    ensures
        MoveCommandView::parse(s, p) == Ok::<_, DecodeError>((c, c.wire().len() as int)),
{
    vstd::bytes::lemma_auto_spec_u16_to_from_le_bytes();
    vstd::bytes::lemma_auto_spec_u32_to_from_le_bytes();
    let w = c.wire();
    let ids = c.objects.items();
    lemma_wire_ids_len(ids);
    assert(w.len() == 19 + if c.objects.is_marker() {
        0int
    } else {
        4 * ids.len() as int
    });
    lemma_byte_at(s, p, w, 0);
    assert(w[0] == c.player_id);
    lemma_field_bytes(s, p, w, 3, 7);
    assert(w.subrange(3, 7) =~= spec_u32_to_le_bytes(opt32_bits(c.target_id)));
    lemma_byte_at(s, p, w, 7);
    assert(w[7] == c.objects.count_byte());
    lemma_field_bytes(s, p, w, 11, 15);
    assert(w.subrange(11, 15) =~= spec_u32_to_le_bytes(c.location.x));
    lemma_field_bytes(s, p, w, 15, 19);
    assert(w.subrange(15, 19) =~= spec_u32_to_le_bytes(c.location.y));
    if c.objects.is_marker() {
        lemma_count_sentinel_byte();
        assert(c.objects == ObjectsListView::SameAsLast);
    } else {
        lemma_field_bytes(s, p, w, 19, 19 + 4 * ids.len() as int);
        assert(w.subrange(19, 19 + 4 * ids.len() as int) =~= wire_ids(ids));
        lemma_list_roundtrip(s, p + 19, ids);
        assert(c.objects == ObjectsListView::List(ids));
    }
    let n8 = c.objects.count_byte();
    assert(n8 <= 127 ==> (n8 as i8) >= 0 && ((n8 as i8) as u8) == n8) by (bit_vector);
}

/// Set a waypoint for a group of objects.
#[derive(Debug, Default, Clone, PartialEq)]
pub struct GroupWaypointCommand {
    /// The ID of the player issuing this command.
    pub player_id: PlayerID,
    /// The waypoint tile.
    pub location: GridPoint,
    /// The objects the waypoint applies to.
    pub objects: ObjectsList,
}

/// The mathematical shape of a [`GroupWaypointCommand`].
pub struct GroupWaypointCommandView {
    pub player_id: PlayerID,
    pub location: GridPoint,
    pub objects: ObjectsListView,
}

impl View for GroupWaypointCommand {
    type V = GroupWaypointCommandView;

    open spec fn view(&self) -> GroupWaypointCommandView {
        GroupWaypointCommandView {
            player_id: self.player_id,
            location: self.location,
            objects: self.objects@,
        }
    }
}

impl GroupWaypointCommandView {
    /// A record that the wire shape can carry back out.
    pub open spec fn valid(self) -> bool {
        self.objects.valid_count_u8()
    }

    /// The bytes of this record after the opcode byte.
    pub open spec fn wire(self) -> Seq<u8> {
        seq![self.player_id]
            + seq![self.objects.count_byte()]
            + seq![self.location.x, self.location.y]
            + self.objects.wire_tail()
    }

    /// Decode this record at offset `p`: the record and the bytes it
    /// consumed.
    pub open spec fn parse(s: Seq<u8>, p: int) -> Result<(GroupWaypointCommandView, int), DecodeError> {
        if p + 4 > s.len() {
            Err(DecodeError::Truncated)
        } else {
            let count = s[p + 1] as int;
            match parse_list(s, p + 4, count) {
                Ok((l, used)) => Ok(
                    (
                        GroupWaypointCommandView {
                            player_id: s[p],
                            location: GridPoint { x: s[p + 2], y: s[p + 3] },
                            objects: l,
                        },
                        4 + used,
                    ),
                ),
                Err(e) => Err(e),
            }
        }
    }
}

impl GroupWaypointCommand {
    /// Read this command from a cursor.
    pub fn read_from(r: &mut Reader) -> (res: Result<GroupWaypointCommand, DecodeError>)
        requires
            old(r).wf(),
        ensures
            final(r).bytes() == old(r).bytes(),
            final(r).wf(),
            old(r).position() <= final(r).position(),
            match res {
                Ok(c) => GroupWaypointCommandView::parse(old(r).bytes(), old(r).position()) == Ok::<_, DecodeError>(
                    (c@, final(r).position() - old(r).position()),
                ),
                Err(e) => GroupWaypointCommandView::parse(old(r).bytes(), old(r).position()) == Err::<
                    (GroupWaypointCommandView, int),
                    _,
                >(e),
            },
    {
        let player_id = match r.read_u8() {
            Ok(v) => v,
            Err(e) => return Err(e),
        };
        let selected_count = match r.read_u8() {
            Ok(v) => v,
            Err(e) => return Err(e),
        };
        let grid_x = match r.read_u8() {
            Ok(v) => v,
            Err(e) => return Err(e),
        };
        let grid_y = match r.read_u8() {
            Ok(v) => v,
            Err(e) => return Err(e),
        };
        let location = GridPoint { x: grid_x, y: grid_y };
        let objects = match ObjectsList::read_from(r, selected_count as i32) {
            Ok(v) => v,
            Err(e) => return Err(e),
        };
        Ok(GroupWaypointCommand { player_id, location, objects })
    }

    /// Write this command to a byte vector.
    pub fn write_to(&self, out: &mut Vec<u8>)
        requires
            self@.valid(),
        ensures
            final(out)@ == old(out)@ + self@.wire(),
    {
        write_u8(out, self.player_id);
        let count_byte: u8 = match &self.objects {
            ObjectsList::SameAsLast => 0xFF,
            ObjectsList::List(l) => l.len() as u8,
        };
        write_u8(out, count_byte);
        write_u8(out, self.location.x);
        write_u8(out, self.location.y);
        self.objects.write_to(out);
        proof {
            assert(out@ =~= old(out)@ + self@.wire());
        }
    }
}

/// Round-trip law: decoding the wire image of any valid record yields the
/// record itself and consumes its whole image.
pub proof fn lemma_group_waypoint_roundtrip(s: Seq<u8>, p: int, c: GroupWaypointCommandView)
    requires
        c.valid(),
        0 <= p,
        p + c.wire().len() <= s.len(),
        s.subrange(p, p + c.wire().len() as int) == c.wire(),
    ensures
        GroupWaypointCommandView::parse(s, p) == Ok::<_, DecodeError>((c, c.wire().len() as int)),
{
    vstd::bytes::lemma_auto_spec_u16_to_from_le_bytes();
    vstd::bytes::lemma_auto_spec_u32_to_from_le_bytes();
    let w = c.wire();
    let ids = c.objects.items();
    lemma_wire_ids_len(ids);
    assert(w.len() == 4 + if c.objects.is_marker() {
        0int
    } else {
        4 * ids.len() as int
    });
    lemma_byte_at(s, p, w, 0);
    assert(w[0] == c.player_id);
    lemma_byte_at(s, p, w, 1);
    assert(w[1] == c.objects.count_byte());
    lemma_byte_at(s, p, w, 2);
    assert(w[2] == c.location.x);
    lemma_byte_at(s, p, w, 3);
    assert(w[3] == c.location.y);
    if c.objects.is_marker() {
        assert(c.objects == ObjectsListView::SameAsLast);
    } else {
        lemma_field_bytes(s, p, w, 4, 4 + 4 * ids.len() as int);
        assert(w.subrange(4, 4 + 4 * ids.len() as int) =~= wire_ids(ids));
        lemma_list_roundtrip(s, p + 4, ids);
        assert(c.objects == ObjectsListView::List(ids));
    }
}

/// Set a group of objects's "AI State" (usually known as "stance").
#[derive(Debug, Default, Clone, PartialEq)]
pub struct UnitAIStateCommand {
    /// The new state. Aggressive/Defensive/No Attack/ etc.
    pub state: i8,
    /// The objects whose AI state is being changed.
    pub objects: ObjectsList,
}

/// The mathematical shape of a [`UnitAIStateCommand`].
pub struct UnitAIStateCommandView {
    pub state: i8,
    pub objects: ObjectsListView,
}

impl View for UnitAIStateCommand {
    type V = UnitAIStateCommandView;

    open spec fn view(&self) -> UnitAIStateCommandView {
        UnitAIStateCommandView {
            state: self.state,
            objects: self.objects@,
        }
    }
}

impl UnitAIStateCommandView {
    /// A record that the wire shape can carry back out.
    pub open spec fn valid(self) -> bool {
        self.objects.valid_count_u8()
    }

    /// The bytes of this record after the opcode byte.
    pub open spec fn wire(self) -> Seq<u8> {
        seq![self.objects.count_byte()]
            + seq![self.state as u8]
            + self.objects.wire_tail()
    }

    /// Decode this record at offset `p`: the record and the bytes it
    /// consumed.
    pub open spec fn parse(s: Seq<u8>, p: int) -> Result<(UnitAIStateCommandView, int), DecodeError> {
        if p + 2 > s.len() {
            Err(DecodeError::Truncated)
        } else {
            let count = s[p] as int;
            match parse_list(s, p + 2, count) {
                Ok((l, used)) => Ok(
                    (
                        UnitAIStateCommandView {
                            state: s[p + 1] as i8,
                            objects: l,
                        },
                        2 + used,
                    ),
                ),
                Err(e) => Err(e),
            }
        }
    }
}

impl UnitAIStateCommand {
    /// Read this command from a cursor.
    pub fn read_from(r: &mut Reader) -> (res: Result<UnitAIStateCommand, DecodeError>)
        requires
            old(r).wf(),
        ensures
            final(r).bytes() == old(r).bytes(),
            final(r).wf(),
            old(r).position() <= final(r).position(),
            match res {
                Ok(c) => UnitAIStateCommandView::parse(old(r).bytes(), old(r).position()) == Ok::<_, DecodeError>(
                    (c@, final(r).position() - old(r).position()),
                ),
                Err(e) => UnitAIStateCommandView::parse(old(r).bytes(), old(r).position()) == Err::<
                    (UnitAIStateCommandView, int),
                    _,
                >(e),
            },
    {
        let selected_count = match r.read_u8() {
            Ok(v) => v,
            Err(e) => return Err(e),
        };
        let state = match r.read_i8() {
            Ok(v) => v,
            Err(e) => return Err(e),
        };
        let objects = match ObjectsList::read_from(r, selected_count as i32) {
            Ok(v) => v,
            Err(e) => return Err(e),
        };
        Ok(UnitAIStateCommand { state, objects })
    }

    /// Write this command to a byte vector.
    pub fn write_to(&self, out: &mut Vec<u8>)
        requires
            self@.valid(),
        ensures
            final(out)@ == old(out)@ + self@.wire(),
    {
        let count_byte: u8 = match &self.objects {
            ObjectsList::SameAsLast => 0xFF,
            ObjectsList::List(l) => l.len() as u8,
        };
        write_u8(out, count_byte);
        crate::reader::write_i8(out, self.state);
        self.objects.write_to(out);
        proof {
            assert(out@ =~= old(out)@ + self@.wire());
        }
    }
}

/// Round-trip law: decoding the wire image of any valid record yields the
/// record itself and consumes its whole image.
pub proof fn lemma_unit_ai_state_roundtrip(s: Seq<u8>, p: int, c: UnitAIStateCommandView)
    requires
        c.valid(),
        0 <= p,
        p + c.wire().len() <= s.len(),
        s.subrange(p, p + c.wire().len() as int) == c.wire(),
    ensures
        UnitAIStateCommandView::parse(s, p) == Ok::<_, DecodeError>((c, c.wire().len() as int)),
{
    vstd::bytes::lemma_auto_spec_u16_to_from_le_bytes();
    vstd::bytes::lemma_auto_spec_u32_to_from_le_bytes();
    let w = c.wire();
    let ids = c.objects.items();
    lemma_wire_ids_len(ids);
    assert(w.len() == 2 + if c.objects.is_marker() {
        0int
    } else {
        4 * ids.len() as int
    });
    lemma_byte_at(s, p, w, 0);
    assert(w[0] == c.objects.count_byte());
    lemma_byte_at(s, p, w, 1);
    assert(w[1] == c.state as u8);
    let state_v = c.state;
    assert((state_v as u8) as i8 == state_v) by (bit_vector);
    if c.objects.is_marker() {
        assert(c.objects == ObjectsListView::SameAsLast);
    } else {
        lemma_field_bytes(s, p, w, 2, 2 + 4 * ids.len() as int);
        assert(w.subrange(2, 2 + 4 * ids.len() as int) =~= wire_ids(ids));
        lemma_list_roundtrip(s, p + 2, ids);
        assert(c.objects == ObjectsListView::List(ids));
    }
}

/// Task units to guard an object.
#[derive(Debug, Default, Clone, PartialEq)]
pub struct GuardCommand {
    /// The target object of this order.
    pub target_id: Option<ObjectID>,
    /// The objects this command applies to.
    pub objects: ObjectsList,
}

/// The mathematical shape of a [`GuardCommand`].
pub struct GuardCommandView {
    pub target_id: Option<ObjectID>,
    pub objects: ObjectsListView,
}

impl View for GuardCommand {
    type V = GuardCommandView;

    open spec fn view(&self) -> GuardCommandView {
        GuardCommandView {
            target_id: self.target_id,
            objects: self.objects@,
        }
    }
}

impl GuardCommandView {
    /// A record that the wire shape can carry back out.
    pub open spec fn valid(self) -> bool {
        &&& self.objects.valid_count_u8()
        &&& opt_id_valid(self.target_id)
    }

    /// The bytes of this record after the opcode byte.
    pub open spec fn wire(self) -> Seq<u8> {
        seq![self.objects.count_byte()]
            + zero_bytes(2)
            + spec_u32_to_le_bytes(opt32_bits(self.target_id))
            + self.objects.wire_tail()
    }

    /// Decode this record at offset `p`: the record and the bytes it
    /// consumed.
    pub open spec fn parse(s: Seq<u8>, p: int) -> Result<(GuardCommandView, int), DecodeError> {
        if p + 7 > s.len() {
            Err(DecodeError::Truncated)
        } else {
            let count = s[p] as int;
            match parse_list(s, p + 7, count) {
                Ok((l, used)) => Ok(
                    (
                        GuardCommandView {
                            target_id: opt32_of(le32_at(s, p + 3)),
                            objects: l,
                        },
                        7 + used,
                    ),
                ),
                Err(e) => Err(e),
            }
        }
    }
}

impl GuardCommand {
    /// Read this command from a cursor.
    pub fn read_from(r: &mut Reader) -> (res: Result<GuardCommand, DecodeError>)
        requires
            old(r).wf(),
        ensures
            final(r).bytes() == old(r).bytes(),
            final(r).wf(),
            old(r).position() <= final(r).position(),
            match res {
                Ok(c) => GuardCommandView::parse(old(r).bytes(), old(r).position()) == Ok::<_, DecodeError>(
                    (c@, final(r).position() - old(r).position()),
                ),
                Err(e) => GuardCommandView::parse(old(r).bytes(), old(r).position()) == Err::<
                    (GuardCommandView, int),
                    _,
                >(e),
            },
    {
        let selected_count = match r.read_u8() {
            Ok(v) => v,
            Err(e) => return Err(e),
        };
        match r.skip(2) {
            Ok(()) => (),
            Err(e) => return Err(e),
        };
        let target_id = match read_opt_u32(r) {
            Ok(v) => v,
            Err(e) => return Err(e),
        };
        let objects = match ObjectsList::read_from(r, selected_count as i32) {
            Ok(v) => v,
            Err(e) => return Err(e),
        };
        Ok(GuardCommand { target_id, objects })
    }

    /// Write this command to a byte vector.
    pub fn write_to(&self, out: &mut Vec<u8>)
        requires
            self@.valid(),
        ensures
            final(out)@ == old(out)@ + self@.wire(),
    {
        let count_byte: u8 = match &self.objects {
            ObjectsList::SameAsLast => 0xFF,
            ObjectsList::List(l) => l.len() as u8,
        };
        write_u8(out, count_byte);
        write_zeros(out, 2);
        write_opt_u32(out, self.target_id);
        self.objects.write_to(out);
        proof {
            assert(out@ =~= old(out)@ + self@.wire());
        }
    }
}

/// Round-trip law: decoding the wire image of any valid record yields the
/// record itself and consumes its whole image.
pub proof fn lemma_guard_roundtrip(s: Seq<u8>, p: int, c: GuardCommandView)
    requires
        c.valid(),
        0 <= p,
        p + c.wire().len() <= s.len(),
        s.subrange(p, p + c.wire().len() as int) == c.wire(),
    ensures
        GuardCommandView::parse(s, p) == Ok::<_, DecodeError>((c, c.wire().len() as int)),
{
    vstd::bytes::lemma_auto_spec_u16_to_from_le_bytes();
    vstd::bytes::lemma_auto_spec_u32_to_from_le_bytes();
    let w = c.wire();
    let ids = c.objects.items();
    lemma_wire_ids_len(ids);
    assert(w.len() == 7 + if c.objects.is_marker() {
        0int
    } else {
        4 * ids.len() as int
    });
    lemma_byte_at(s, p, w, 0);
    assert(w[0] == c.objects.count_byte());
    lemma_field_bytes(s, p, w, 3, 7);
    assert(w.subrange(3, 7) =~= spec_u32_to_le_bytes(opt32_bits(c.target_id)));
    if c.objects.is_marker() {
        assert(c.objects == ObjectsListView::SameAsLast);
    } else {
        lemma_field_bytes(s, p, w, 7, 7 + 4 * ids.len() as int);
        assert(w.subrange(7, 7 + 4 * ids.len() as int) =~= wire_ids(ids));
        lemma_list_roundtrip(s, p + 7, ids);
        assert(c.objects == ObjectsListView::List(ids));
    }
}

/// Task units to follow an object.
#[derive(Debug, Default, Clone, PartialEq)]
pub struct FollowCommand {
    /// The target object of this order.
    pub target_id: Option<ObjectID>,
    /// The objects this command applies to.
    pub objects: ObjectsList,
}

/// The mathematical shape of a [`FollowCommand`].
pub struct FollowCommandView {
    pub target_id: Option<ObjectID>,
    pub objects: ObjectsListView,
}

impl View for FollowCommand {
    type V = FollowCommandView;

    open spec fn view(&self) -> FollowCommandView {
        FollowCommandView {
            target_id: self.target_id,
            objects: self.objects@,
        }
    }
}

impl FollowCommandView {
    /// A record that the wire shape can carry back out.
    pub open spec fn valid(self) -> bool {
        &&& self.objects.valid_count_u8()
        &&& opt_id_valid(self.target_id)
    }

    /// The bytes of this record after the opcode byte.
    pub open spec fn wire(self) -> Seq<u8> {
        seq![self.objects.count_byte()]
            + zero_bytes(2)
            + spec_u32_to_le_bytes(opt32_bits(self.target_id))
            + self.objects.wire_tail()
    }

    /// Decode this record at offset `p`: the record and the bytes it
    /// consumed.
    pub open spec fn parse(s: Seq<u8>, p: int) -> Result<(FollowCommandView, int), DecodeError> {
        if p + 7 > s.len() {
            Err(DecodeError::Truncated)
        } else {
            let count = s[p] as int;
            match parse_list(s, p + 7, count) {
                Ok((l, used)) => Ok(
                    (
                        FollowCommandView {
                            target_id: opt32_of(le32_at(s, p + 3)),
                            objects: l,
                        },
                        7 + used,
                    ),
                ),
                Err(e) => Err(e),
            }
        }
    }
}

impl FollowCommand {
    /// Read this command from a cursor.
    pub fn read_from(r: &mut Reader) -> (res: Result<FollowCommand, DecodeError>)
        requires
            old(r).wf(),
        ensures
            final(r).bytes() == old(r).bytes(),
            final(r).wf(),
            old(r).position() <= final(r).position(),
            match res {
                Ok(c) => FollowCommandView::parse(old(r).bytes(), old(r).position()) == Ok::<_, DecodeError>(
                    (c@, final(r).position() - old(r).position()),
                ),
                Err(e) => FollowCommandView::parse(old(r).bytes(), old(r).position()) == Err::<
                    (FollowCommandView, int),
                    _,
                >(e),
            },
    {
        let selected_count = match r.read_u8() {
            Ok(v) => v,
            Err(e) => return Err(e),
        };
        match r.skip(2) {
            Ok(()) => (),
            Err(e) => return Err(e),
        };
        let target_id = match read_opt_u32(r) {
            Ok(v) => v,
            Err(e) => return Err(e),
        };
        let objects = match ObjectsList::read_from(r, selected_count as i32) {
            Ok(v) => v,
            Err(e) => return Err(e),
        };
        Ok(FollowCommand { target_id, objects })
    }

    /// Write this command to a byte vector.
    pub fn write_to(&self, out: &mut Vec<u8>)
        requires
            self@.valid(),
        ensures
            final(out)@ == old(out)@ + self@.wire(),
    {
        let count_byte: u8 = match &self.objects {
            ObjectsList::SameAsLast => 0xFF,
            ObjectsList::List(l) => l.len() as u8,
        };
        write_u8(out, count_byte);
        write_zeros(out, 2);
        write_opt_u32(out, self.target_id);
        self.objects.write_to(out);
        proof {
            assert(out@ =~= old(out)@ + self@.wire());
        }
    }
}

/// Round-trip law: decoding the wire image of any valid record yields the
/// record itself and consumes its whole image.
pub proof fn lemma_follow_roundtrip(s: Seq<u8>, p: int, c: FollowCommandView)
    requires
        c.valid(),
        0 <= p,
        p + c.wire().len() <= s.len(),
        s.subrange(p, p + c.wire().len() as int) == c.wire(),
    ensures
        FollowCommandView::parse(s, p) == Ok::<_, DecodeError>((c, c.wire().len() as int)),
{
    vstd::bytes::lemma_auto_spec_u16_to_from_le_bytes();
    vstd::bytes::lemma_auto_spec_u32_to_from_le_bytes();
    let w = c.wire();
    let ids = c.objects.items();
    lemma_wire_ids_len(ids);
    assert(w.len() == 7 + if c.objects.is_marker() {
        0int
    } else {
        4 * ids.len() as int
    });
    lemma_byte_at(s, p, w, 0);
    assert(w[0] == c.objects.count_byte());
    lemma_field_bytes(s, p, w, 3, 7);
    assert(w.subrange(3, 7) =~= spec_u32_to_le_bytes(opt32_bits(c.target_id)));
    if c.objects.is_marker() {
        assert(c.objects == ObjectsListView::SameAsLast);
    } else {
        lemma_field_bytes(s, p, w, 7, 7 + 4 * ids.len() as int);
        assert(w.subrange(7, 7 + 4 * ids.len() as int) =~= wire_ids(ids));
        lemma_list_roundtrip(s, p + 7, ids);
        assert(c.objects == ObjectsListView::List(ids));
    }
}

/// Task a group of objects to form a formation.
#[derive(Debug, Default, Clone, PartialEq)]
pub struct FormFormationCommand {
    /// The ID of the player issuing this command.
    pub player_id: PlayerID,
    /// The type of formation to form.
    pub formation_type: i32,
    /// The objects to include in this formation.
    pub objects: ObjectsList,
}

/// The mathematical shape of a [`FormFormationCommand`].
pub struct FormFormationCommandView {
    pub player_id: PlayerID,
    pub formation_type: i32,
    pub objects: ObjectsListView,
}

impl View for FormFormationCommand {
    type V = FormFormationCommandView;

    open spec fn view(&self) -> FormFormationCommandView {
        FormFormationCommandView {
            player_id: self.player_id,
            formation_type: self.formation_type,
            objects: self.objects@,
        }
    }
}

impl FormFormationCommandView {
    /// A record that the wire shape can carry back out.
    pub open spec fn valid(self) -> bool {
        self.objects.valid_count_i8()
    }

    /// The bytes of this record after the opcode byte.
    pub open spec fn wire(self) -> Seq<u8> {
        seq![self.objects.count_byte()]
            + seq![self.player_id]
            + zero_bytes(1)
            + spec_u32_to_le_bytes(self.formation_type as u32)
            + self.objects.wire_tail()
    }

    /// Decode this record at offset `p`: the record and the bytes it
    /// consumed.
    pub open spec fn parse(s: Seq<u8>, p: int) -> Result<(FormFormationCommandView, int), DecodeError> {
        if p + 7 > s.len() {
            Err(DecodeError::Truncated)
        } else {
            let count = (s[p] as i8) as int;
            match parse_list(s, p + 7, count) {
                Ok((l, used)) => Ok(
                    (
                        FormFormationCommandView {
                            player_id: s[p + 1],
                            formation_type: le32_at(s, p + 3) as i32,
                            objects: l,
                        },
                        7 + used,
                    ),
                ),
                Err(e) => Err(e),
            }
        }
    }
}

impl FormFormationCommand {
    /// Read this command from a cursor.
    pub fn read_from(r: &mut Reader) -> (res: Result<FormFormationCommand, DecodeError>)
        requires
            old(r).wf(),
        ensures
            final(r).bytes() == old(r).bytes(),
            final(r).wf(),
            old(r).position() <= final(r).position(),
            match res {
                Ok(c) => FormFormationCommandView::parse(old(r).bytes(), old(r).position()) == Ok::<_, DecodeError>(
                    (c@, final(r).position() - old(r).position()),
                ),
                Err(e) => FormFormationCommandView::parse(old(r).bytes(), old(r).position()) == Err::<
                    (FormFormationCommandView, int),
                    _,
                >(e),
            },
    {
        let selected_count = match r.read_i8() {
            Ok(v) => v,
            Err(e) => return Err(e),
        };
        let player_id = match r.read_u8() {
            Ok(v) => v,
            Err(e) => return Err(e),
        };
        match r.skip(1) {
            Ok(()) => (),
            Err(e) => return Err(e),
        };
        let formation_type_word = match r.read_u32_le() {
            Ok(v) => v,
            Err(e) => return Err(e),
        };
        let formation_type = formation_type_word as i32;
        let objects = match ObjectsList::read_from(r, selected_count as i32) {
            Ok(v) => v,
            Err(e) => return Err(e),
        };
        Ok(FormFormationCommand { player_id, formation_type, objects })
    }

    /// Write this command to a byte vector.
    pub fn write_to(&self, out: &mut Vec<u8>)
        requires
            self@.valid(),
        ensures
            final(out)@ == old(out)@ + self@.wire(),
    {
        let count_byte: u8 = match &self.objects {
            ObjectsList::SameAsLast => 0xFF,
            ObjectsList::List(l) => l.len() as u8,
        };
        write_u8(out, count_byte);
        write_u8(out, self.player_id);
        write_zeros(out, 1);
        write_u32_le(out, self.formation_type as u32);
        self.objects.write_to(out);
        proof {
            assert(out@ =~= old(out)@ + self@.wire());
        }
    }
}

/// Round-trip law: decoding the wire image of any valid record yields the
/// record itself and consumes its whole image.
pub proof fn lemma_form_formation_roundtrip(s: Seq<u8>, p: int, c: FormFormationCommandView)
    requires
        c.valid(),
        0 <= p,
        p + c.wire().len() <= s.len(),
        s.subrange(p, p + c.wire().len() as int) == c.wire(),
    ensures
        FormFormationCommandView::parse(s, p) == Ok::<_, DecodeError>((c, c.wire().len() as int)),
{
    vstd::bytes::lemma_auto_spec_u16_to_from_le_bytes();
    vstd::bytes::lemma_auto_spec_u32_to_from_le_bytes();
    let w = c.wire();
    let ids = c.objects.items();
    lemma_wire_ids_len(ids);
    assert(w.len() == 7 + if c.objects.is_marker() {
        0int
    } else {
        4 * ids.len() as int
    });
    lemma_byte_at(s, p, w, 0);
    assert(w[0] == c.objects.count_byte());
    lemma_byte_at(s, p, w, 1);
    assert(w[1] == c.player_id);
    lemma_field_bytes(s, p, w, 3, 7);
    assert(w.subrange(3, 7) =~= spec_u32_to_le_bytes(c.formation_type as u32));
    let formation_type_v = c.formation_type;
    assert((formation_type_v as u32) as i32 == formation_type_v) by (bit_vector);
    if c.objects.is_marker() {
        lemma_count_sentinel_byte();
        assert(c.objects == ObjectsListView::SameAsLast);
    } else {
        lemma_field_bytes(s, p, w, 7, 7 + 4 * ids.len() as int);
        assert(w.subrange(7, 7 + 4 * ids.len() as int) =~= wire_ids(ids));
        lemma_list_roundtrip(s, p + 7, ids);
        assert(c.objects == ObjectsListView::List(ids));
    }
    let n8 = c.objects.count_byte();
    assert(n8 <= 127 ==> (n8 as i8) >= 0 && ((n8 as i8) as u8) == n8) by (bit_vector);
}

/// Task an object to attack ground.
#[derive(Debug, Default, Clone, PartialEq)]
pub struct AttackGroundCommand {
    /// The target location of this command.
    pub location: Location2,
    /// The objects being tasked.
    pub objects: ObjectsList,
}

/// The mathematical shape of a [`AttackGroundCommand`].
pub struct AttackGroundCommandView {
    pub location: Location2,
    pub objects: ObjectsListView,
}

impl View for AttackGroundCommand {
    type V = AttackGroundCommandView;

    open spec fn view(&self) -> AttackGroundCommandView {
        AttackGroundCommandView {
            location: self.location,
            objects: self.objects@,
        }
    }
}

impl AttackGroundCommandView {
    /// A record that the wire shape can carry back out.
    pub open spec fn valid(self) -> bool {
        self.objects.valid_count_i8()
    }

    /// The bytes of this record after the opcode byte.
    pub open spec fn wire(self) -> Seq<u8> {
        seq![self.objects.count_byte()]
            + zero_bytes(2)
            + spec_u32_to_le_bytes(self.location.x)
            + spec_u32_to_le_bytes(self.location.y)
            + self.objects.wire_tail()
    }

    /// Decode this record at offset `p`: the record and the bytes it
    /// consumed.
    pub open spec fn parse(s: Seq<u8>, p: int) -> Result<(AttackGroundCommandView, int), DecodeError> {
        if p + 11 > s.len() {
            Err(DecodeError::Truncated)
        } else {
            let count = (s[p] as i8) as int;
            match parse_list(s, p + 11, count) {
                Ok((l, used)) => Ok(
                    (
                        AttackGroundCommandView {
                            location: Location2 { x: le32_at(s, p + 3), y: le32_at(s, p + 7) },
                            objects: l,
                        },
                        11 + used,
                    ),
                ),
                Err(e) => Err(e),
            }
        }
    }
}

impl AttackGroundCommand {
    /// Read this command from a cursor.
    pub fn read_from(r: &mut Reader) -> (res: Result<AttackGroundCommand, DecodeError>)
        requires
            old(r).wf(),
        ensures
            final(r).bytes() == old(r).bytes(),
            final(r).wf(),
            old(r).position() <= final(r).position(),
            match res {
                Ok(c) => AttackGroundCommandView::parse(old(r).bytes(), old(r).position()) == Ok::<_, DecodeError>(
                    (c@, final(r).position() - old(r).position()),
                ),
                Err(e) => AttackGroundCommandView::parse(old(r).bytes(), old(r).position()) == Err::<
                    (AttackGroundCommandView, int),
                    _,
                >(e),
            },
    {
        let selected_count = match r.read_i8() {
            Ok(v) => v,
            Err(e) => return Err(e),
        };
        match r.skip(2) {
            Ok(()) => (),
            Err(e) => return Err(e),
        };
        let loc_x = match r.read_u32_le() {
            Ok(v) => v,
            Err(e) => return Err(e),
        };
        let loc_y = match r.read_u32_le() {
            Ok(v) => v,
            Err(e) => return Err(e),
        };
        let location = Location2 { x: loc_x, y: loc_y };
        let objects = match ObjectsList::read_from(r, selected_count as i32) {
            Ok(v) => v,
            Err(e) => return Err(e),
        };
        Ok(AttackGroundCommand { location, objects })
    }

    /// Write this command to a byte vector.
    pub fn write_to(&self, out: &mut Vec<u8>)
        requires
            self@.valid(),
        ensures
            final(out)@ == old(out)@ + self@.wire(),
    {
        let count_byte: u8 = match &self.objects {
            ObjectsList::SameAsLast => 0xFF,
            ObjectsList::List(l) => l.len() as u8,
        };
        write_u8(out, count_byte);
        write_zeros(out, 2);
        write_u32_le(out, self.location.x);
        write_u32_le(out, self.location.y);
        self.objects.write_to(out);
        proof {
            assert(out@ =~= old(out)@ + self@.wire());
        }
    }
}

/// Round-trip law: decoding the wire image of any valid record yields the
/// record itself and consumes its whole image.
pub proof fn lemma_attack_ground_roundtrip(s: Seq<u8>, p: int, c: AttackGroundCommandView)
    requires
        c.valid(),
        0 <= p,
        p + c.wire().len() <= s.len(),
        s.subrange(p, p + c.wire().len() as int) == c.wire(),
    ensures
        AttackGroundCommandView::parse(s, p) == Ok::<_, DecodeError>((c, c.wire().len() as int)),
{
    vstd::bytes::lemma_auto_spec_u16_to_from_le_bytes();
    vstd::bytes::lemma_auto_spec_u32_to_from_le_bytes();
    let w = c.wire();
    let ids = c.objects.items();
    lemma_wire_ids_len(ids);
    assert(w.len() == 11 + if c.objects.is_marker() {
        0int
    } else {
        4 * ids.len() as int
    });
    lemma_byte_at(s, p, w, 0);
    assert(w[0] == c.objects.count_byte());
    lemma_field_bytes(s, p, w, 3, 7);
    assert(w.subrange(3, 7) =~= spec_u32_to_le_bytes(c.location.x));
    lemma_field_bytes(s, p, w, 7, 11);
    assert(w.subrange(7, 11) =~= spec_u32_to_le_bytes(c.location.y));
    if c.objects.is_marker() {
        lemma_count_sentinel_byte();
        assert(c.objects == ObjectsListView::SameAsLast);
    } else {
        lemma_field_bytes(s, p, w, 11, 11 + 4 * ids.len() as int);
        assert(w.subrange(11, 11 + 4 * ids.len() as int) =~= wire_ids(ids));
        lemma_list_roundtrip(s, p + 11, ids);
        assert(c.objects == ObjectsListView::List(ids));
    }
    let n8 = c.objects.count_byte();
    assert(n8 <= 127 ==> (n8 as i8) >= 0 && ((n8 as i8) as u8) == n8) by (bit_vector);
}

/// Task units to repair an object.
#[derive(Debug, Default, Clone, PartialEq)]
pub struct RepairCommand {
    /// The target object of this order.
    pub target_id: Option<ObjectID>,
    /// The objects this command applies to.
    pub repairers: ObjectsList,
}

/// The mathematical shape of a [`RepairCommand`].
pub struct RepairCommandView {
    pub target_id: Option<ObjectID>,
    pub repairers: ObjectsListView,
}

impl View for RepairCommand {
    type V = RepairCommandView;

    open spec fn view(&self) -> RepairCommandView {
        RepairCommandView {
            target_id: self.target_id,
            repairers: self.repairers@,
        }
    }
}

impl RepairCommandView {
    /// A record that the wire shape can carry back out.
    pub open spec fn valid(self) -> bool {
        &&& self.repairers.valid_count_u8()
        &&& opt_id_valid(self.target_id)
    }

    /// The bytes of this record after the opcode byte.
    pub open spec fn wire(self) -> Seq<u8> {
        seq![self.repairers.count_byte()]
            + zero_bytes(2)
            + spec_u32_to_le_bytes(opt32_bits(self.target_id))
            + self.repairers.wire_tail()
    }

    /// Decode this record at offset `p`: the record and the bytes it
    /// consumed.
    pub open spec fn parse(s: Seq<u8>, p: int) -> Result<(RepairCommandView, int), DecodeError> {
        if p + 7 > s.len() {
            Err(DecodeError::Truncated)
        } else {
            let count = s[p] as int;
            match parse_list(s, p + 7, count) {
                Ok((l, used)) => Ok(
                    (
                        RepairCommandView {
                            target_id: opt32_of(le32_at(s, p + 3)),
                            repairers: l,
                        },
                        7 + used,
                    ),
                ),
                Err(e) => Err(e),
            }
        }
    }
}

impl RepairCommand {
    /// Read this command from a cursor.
    pub fn read_from(r: &mut Reader) -> (res: Result<RepairCommand, DecodeError>)
        requires
            old(r).wf(),
        ensures
            final(r).bytes() == old(r).bytes(),
            final(r).wf(),
            old(r).position() <= final(r).position(),
            match res {
                Ok(c) => RepairCommandView::parse(old(r).bytes(), old(r).position()) == Ok::<_, DecodeError>(
                    (c@, final(r).position() - old(r).position()),
                ),
                Err(e) => RepairCommandView::parse(old(r).bytes(), old(r).position()) == Err::<
                    (RepairCommandView, int),
                    _,
                >(e),
            },
    {
        let selected_count = match r.read_u8() {
            Ok(v) => v,
            Err(e) => return Err(e),
        };
        match r.skip(2) {
            Ok(()) => (),
            Err(e) => return Err(e),
        };
        let target_id = match read_opt_u32(r) {
            Ok(v) => v,
            Err(e) => return Err(e),
        };
        let repairers = match ObjectsList::read_from(r, selected_count as i32) {
            Ok(v) => v,
            Err(e) => return Err(e),
        };
        Ok(RepairCommand { target_id, repairers })
    }

    /// Write this command to a byte vector.
    pub fn write_to(&self, out: &mut Vec<u8>)
        requires
            self@.valid(),
        ensures
            final(out)@ == old(out)@ + self@.wire(),
    {
        let count_byte: u8 = match &self.repairers {
            ObjectsList::SameAsLast => 0xFF,
            ObjectsList::List(l) => l.len() as u8,
        };
        write_u8(out, count_byte);
        write_zeros(out, 2);
        write_opt_u32(out, self.target_id);
        self.repairers.write_to(out);
        proof {
            assert(out@ =~= old(out)@ + self@.wire());
        }
    }
}

/// Round-trip law: decoding the wire image of any valid record yields the
/// record itself and consumes its whole image.
pub proof fn lemma_repair_roundtrip(s: Seq<u8>, p: int, c: RepairCommandView)
    requires
        c.valid(),
        0 <= p,
        p + c.wire().len() <= s.len(),
        s.subrange(p, p + c.wire().len() as int) == c.wire(),
    ensures
        RepairCommandView::parse(s, p) == Ok::<_, DecodeError>((c, c.wire().len() as int)),
{
    vstd::bytes::lemma_auto_spec_u16_to_from_le_bytes();
    vstd::bytes::lemma_auto_spec_u32_to_from_le_bytes();
    let w = c.wire();
    let ids = c.repairers.items();
    lemma_wire_ids_len(ids);
    assert(w.len() == 7 + if c.repairers.is_marker() {
        0int
    } else {
        4 * ids.len() as int
    });
    lemma_byte_at(s, p, w, 0);
    assert(w[0] == c.repairers.count_byte());
    lemma_field_bytes(s, p, w, 3, 7);
    assert(w.subrange(3, 7) =~= spec_u32_to_le_bytes(opt32_bits(c.target_id)));
    if c.repairers.is_marker() {
        assert(c.repairers == ObjectsListView::SameAsLast);
    } else {
        lemma_field_bytes(s, p, w, 7, 7 + 4 * ids.len() as int);
        assert(w.subrange(7, 7 + 4 * ids.len() as int) =~= wire_ids(ids));
        lemma_list_roundtrip(s, p + 7, ids);
        assert(c.repairers == ObjectsListView::List(ids));
    }
}

} // verus!
