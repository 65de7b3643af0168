//! The irregular command variants: the fixed-capacity patrol path stored
//! column-major, the meta-command whose parameter count comes from the frame
//! length, the flare with its guarded marker, the wall command with its
//! trailing guard value, and the AI order that inlines a single object.
use vstd::prelude::*;

use crate::cmd_basic::opt_id_valid;
use crate::objects::ids_at;
use crate::objects::lemma_count_sentinel_byte;
use crate::objects::lemma_ids_roundtrip;
use crate::objects::lemma_list_roundtrip;
use crate::objects::lemma_wire_ids_len;
use crate::objects::lemma_wire_ids_slice;
use crate::objects::lemma_wire_ids_snoc;
use crate::objects::opt32_bits;
use crate::objects::opt32_of;
use crate::objects::parse_ids;
use crate::objects::parse_list;
use crate::objects::read_opt_u32;
use crate::objects::wire_ids;
use crate::objects::write_opt_u32;
use crate::objects::ObjectsList;
use crate::objects::ObjectsListView;
use crate::reader::le16_at;
use crate::reader::le32_at;
use crate::reader::lemma_byte_at;
use crate::reader::lemma_field_bytes;
use crate::reader::write_u16_le;
use crate::reader::write_u32_le;
use crate::reader::write_u8;
use crate::reader::write_zeros;
use crate::reader::zero_bytes;
use crate::reader::Reader;
use crate::DecodeError;
use crate::GridPoint;
use crate::Location2;
use crate::Location3;
use crate::ObjectID;
use crate::PlayerID;
use crate::UnitTypeID;
use vstd::bytes::spec_u16_to_le_bytes;
use vstd::bytes::spec_u32_to_le_bytes;

verus! {

/// The X coordinates of a patrol path, padded with zeros to the path's
/// fixed capacity of ten slots.
pub open spec fn xs_padded(wps: Seq<Location2>) -> Seq<u32> {
    Seq::new(
        10,
        |j: int|
            if j < wps.len() {
                wps[j].x
            } else {
                0u32
            },
    )
}

/// The Y coordinates of a patrol path, padded with zeros to the path's
/// fixed capacity of ten slots.
pub open spec fn ys_padded(wps: Seq<Location2>) -> Seq<u32> {
    Seq::new(
        10,
        |j: int|
            if j < wps.len() {
                wps[j].y
            } else {
                0u32
            },
    )
}

/// Task a group of objects to patrol along a given path.
///
/// The wire always carries ten waypoint slots, all X values first and then
/// all Y values; a separate count says how many slots are occupied.
#[derive(Debug, Default, Clone, PartialEq)]
pub struct PatrolCommand {
    /// The waypoints that this patrol should pass through, at most ten.
    pub waypoints: Vec<Location2>,
    /// The objects to include in this patrol.
    pub objects: ObjectsList,
}

/// The mathematical shape of a [`PatrolCommand`].
pub struct PatrolCommandView {
    pub waypoints: Seq<Location2>,
    pub objects: ObjectsListView,
}

impl View for PatrolCommand {
    type V = PatrolCommandView;

    open spec fn view(&self) -> PatrolCommandView {
        PatrolCommandView { waypoints: self.waypoints@, objects: self.objects@ }
    }
}

impl PatrolCommandView {
    /// A record that the wire shape can carry back out.
    pub open spec fn valid(self) -> bool {
        &&& self.objects.valid_count_i8()
        &&& self.waypoints.len() <= 10
    }

    /// The bytes of this record after the opcode byte.
    pub open spec fn wire(self) -> Seq<u8> {
        seq![self.objects.count_byte(), self.waypoints.len() as u8] + zero_bytes(1) + wire_ids(
            xs_padded(self.waypoints),
        ) + wire_ids(ys_padded(self.waypoints)) + self.objects.wire_tail()
    }

    /// Decode this record at offset `p`: the record and the bytes it
    /// consumed. A waypoint count beyond the fixed capacity is a narrowing
    /// failure.
    pub open spec fn parse(s: Seq<u8>, p: int) -> Result<(PatrolCommandView, int), DecodeError> {
        if p + 83 > s.len() {
            Err(DecodeError::Truncated)
        } else {
            let wc = s[p + 1] as int;
            if wc > 10 {
                Err(DecodeError::BadIdentifier)
            } else {
                let count = (s[p] as i8) as int;
                match parse_list(s, p + 83, count) {
                    Ok((l, used)) => Ok(
                        (
                            PatrolCommandView {
                                waypoints: Seq::new(
                                    wc as nat,
                                    |j: int|
                                        Location2 {
                                            x: le32_at(s, p + 3 + 4 * j),
                                            y: le32_at(s, p + 43 + 4 * j),
                                        },
                                ),
                                objects: l,
                            },
                            83 + used,
                        ),
                    ),
                    Err(e) => Err(e),
                }
            }
        }
    }
}

impl PatrolCommand {
    /// Read a Patrol command from a cursor.
    pub fn read_from(r: &mut Reader) -> (res: Result<PatrolCommand, DecodeError>)
        requires
            old(r).wf(),
        ensures
            final(r).bytes() == old(r).bytes(),
            final(r).wf(),
            old(r).position() <= final(r).position(),
            match res {
                Ok(c) => PatrolCommandView::parse(old(r).bytes(), old(r).position()) == Ok::<
                    _,
                    DecodeError,
                >((c@, final(r).position() - old(r).position())),
                Err(e) => PatrolCommandView::parse(old(r).bytes(), old(r).position()) == Err::<
                    (PatrolCommandView, int),
                    _,
                >(e),
            },
    {
        let ghost s = old(r).bytes();
        let ghost p0 = old(r).position();
        let selected_count = match r.read_i8() {
            Ok(v) => v,
            Err(e) => return Err(e),
        };
        let waypoint_count = match r.read_u8() {
            Ok(v) => v,
            Err(e) => return Err(e),
        };
        let _padding = match r.read_u8() {
            Ok(v) => v,
            Err(e) => return Err(e),
        };
        let mut xs: Vec<u32> = Vec::new();
        let mut i: usize = 0;
        while i < 10
            invariant
                i <= 10,
                r.wf(),
                s == old(r).bytes(),
                p0 == old(r).position(),
                r.bytes() == s,
                r.position() == p0 + 3 + 4 * i,
                0 <= p0,
                xs@ == ids_at(s, p0 + 3, i as int),
            decreases 10 - i,
        {
            let x = match r.read_u32_le() {
                Ok(v) => v,
                Err(e) => return Err(e),
            };
            xs.push(x);
            proof {
                assert(xs@ =~= ids_at(s, p0 + 3, i + 1 as int));
            }
            i = i + 1;
        }
        let mut ys: Vec<u32> = Vec::new();
        let mut i: usize = 0;
        while i < 10
            invariant
                i <= 10,
                r.wf(),
                s == old(r).bytes(),
                p0 == old(r).position(),
                r.bytes() == s,
                r.position() == p0 + 43 + 4 * i,
                0 <= p0,
                ys@ == ids_at(s, p0 + 43, i as int),
            decreases 10 - i,
        {
            let y = match r.read_u32_le() {
                Ok(v) => v,
                Err(e) => return Err(e),
            };
            ys.push(y);
            proof {
                assert(ys@ =~= ids_at(s, p0 + 43, i + 1 as int));
            }
            i = i + 1;
        }
        if waypoint_count > 10 {
            return Err(DecodeError::BadIdentifier);
        }
        let wc = waypoint_count as usize;
        let mut waypoints: Vec<Location2> = Vec::new();
        let mut j: usize = 0;
        while j < wc
            invariant
                j <= wc,
                wc <= 10,
                xs@ == ids_at(s, p0 + 3, 10),
                ys@ == ids_at(s, p0 + 43, 10),
                0 <= p0,
                waypoints@ == Seq::new(
                    j as nat,
                    |k: int|
                        Location2 { x: le32_at(s, p0 + 3 + 4 * k), y: le32_at(s, p0 + 43 + 4 * k) },
                ),
            decreases wc - j,
        {
            let wp = Location2 { x: xs[j], y: ys[j] };
            waypoints.push(wp);
            proof {
                assert(waypoints@ =~= Seq::new(
                    (j + 1) as nat,
                    |k: int|
                        Location2 { x: le32_at(s, p0 + 3 + 4 * k), y: le32_at(s, p0 + 43 + 4 * k) },
                ));
            }
            j = j + 1;
        }
        let objects = match ObjectsList::read_from(r, selected_count as i32) {
            Ok(v) => v,
            Err(e) => return Err(e),
        };
        Ok(PatrolCommand { waypoints, objects })
    }

    /// Write this Patrol command to a byte vector.
    pub fn write_to(&self, out: &mut Vec<u8>)
        requires
            self@.valid(),
        ensures
            final(out)@ == old(out)@ + self@.wire(),
    {
        let count_byte: u8 = match &self.objects {
            ObjectsList::SameAsLast => 0xFF,
            ObjectsList::List(l) => l.len() as u8,
        };
        write_u8(out, count_byte);
        write_u8(out, self.waypoints.len() as u8);
        write_u8(out, 0);
        let ghost xbase = out@;
        let mut i: usize = 0;
        while i < 10
            invariant
                i <= 10,
                self@.waypoints.len() <= 10,
                out@ == xbase + wire_ids(xs_padded(self@.waypoints).take(i as int)),
            decreases 10 - i,
        {
            let x: u32 = if i < self.waypoints.len() {
                self.waypoints[i].x
            } else {
                0
            };
            write_u32_le(out, x);
            proof {
                let xp = xs_padded(self@.waypoints);
                lemma_wire_ids_snoc(xp.take(i as int), xp[i as int]);
                assert(xp.take(i + 1 as int) =~= xp.take(i as int).push(xp[i as int]));
                assert(out@ =~= xbase + wire_ids(xp.take(i + 1 as int)));
            }
            i = i + 1;
        }
        proof {
            assert(xs_padded(self@.waypoints).take(10) =~= xs_padded(self@.waypoints));
        }
        let ghost ybase = out@;
        let mut i: usize = 0;
        while i < 10
            invariant
                i <= 10,
                self@.waypoints.len() <= 10,
                out@ == ybase + wire_ids(ys_padded(self@.waypoints).take(i as int)),
            decreases 10 - i,
        {
            let y: u32 = if i < self.waypoints.len() {
                self.waypoints[i].y
            } else {
                0
            };
            write_u32_le(out, y);
            proof {
                let yp = ys_padded(self@.waypoints);
                lemma_wire_ids_snoc(yp.take(i as int), yp[i as int]);
                assert(yp.take(i + 1 as int) =~= yp.take(i as int).push(yp[i as int]));
                assert(out@ =~= ybase + wire_ids(yp.take(i + 1 as int)));
            }
            i = i + 1;
        }
        proof {
            assert(ys_padded(self@.waypoints).take(10) =~= ys_padded(self@.waypoints));
        }
        self.objects.write_to(out);
        proof {
            assert(out@ =~= old(out)@ + self@.wire());
        }
    }
}

/// Round-trip law: decoding the wire image of any valid record yields the
/// record itself and consumes its whole image.
pub proof fn lemma_patrol_roundtrip(s: Seq<u8>, p: int, c: PatrolCommandView)
    requires
        c.valid(),
        0 <= p,
        p + c.wire().len() <= s.len(),
        s.subrange(p, p + c.wire().len() as int) == c.wire(),
    ensures
        PatrolCommandView::parse(s, p) == Ok::<_, DecodeError>((c, c.wire().len() as int)),
{
    vstd::bytes::lemma_auto_spec_u32_to_from_le_bytes();
    let w = c.wire();
    let ids = c.objects.items();
    let xp = xs_padded(c.waypoints);
    let yp = ys_padded(c.waypoints);
    lemma_wire_ids_len(ids);
    lemma_wire_ids_len(xp);
    lemma_wire_ids_len(yp);
    assert(w.len() == 83 + if c.objects.is_marker() {
        0int
    } else {
        4 * ids.len() as int
    });
    lemma_byte_at(s, p, w, 0);
    assert(w[0] == c.objects.count_byte());
    lemma_byte_at(s, p, w, 1);
    assert(w[1] == c.waypoints.len() as u8);
    assert forall|j: int| 0 <= j < c.waypoints.len() implies (le32_at(s, p + 3 + 4 * j)
        == c.waypoints[j].x && le32_at(s, p + 43 + 4 * j) == c.waypoints[j].y) by {
        lemma_field_bytes(s, p, w, 3 + 4 * j, 3 + 4 * j + 4);
        lemma_wire_ids_slice(xp, j);
        assert(w.subrange(3 + 4 * j, 3 + 4 * j + 4) =~= wire_ids(xp).subrange(4 * j, 4 * j + 4));
        lemma_field_bytes(s, p, w, 43 + 4 * j, 43 + 4 * j + 4);
        lemma_wire_ids_slice(yp, j);
        assert(w.subrange(43 + 4 * j, 43 + 4 * j + 4) =~= wire_ids(yp).subrange(4 * j, 4 * j + 4));
    };
    let wc = s[p + 1] as int;
    assert(wc == c.waypoints.len());
    assert(Seq::new(
        wc as nat,
        |j: int| Location2 { x: le32_at(s, p + 3 + 4 * j), y: le32_at(s, p + 43 + 4 * j) },
    ) =~= c.waypoints);
    if c.objects.is_marker() {
        lemma_count_sentinel_byte();
        assert(c.objects == ObjectsListView::SameAsLast);
    } else {
        lemma_field_bytes(s, p, w, 83, 83 + 4 * ids.len() as int);
        assert(w.subrange(83, 83 + 4 * ids.len() as int) =~= wire_ids(ids));
        lemma_list_roundtrip(s, p + 83, ids);
        assert(c.objects == ObjectsListView::List(ids));
    }
    let n8 = c.objects.count_byte();
    assert(n8 <= 127 ==> (n8 as i8) >= 0 && ((n8 as i8) as u8) == n8) by (bit_vector);
}

/// Meta-command for an AI-scripting extension: an action code, a player,
/// and up to four parameters. The parameter count is not self-describing:
/// it is derived from the enclosing frame's declared length.
#[derive(Debug, Default, Clone, PartialEq)]
pub struct UserPatchAICommand {
    /// The player the action applies to.
    pub player_id: PlayerID,
    /// Which extended action to perform.
    pub ai_action: u8,
    /// The action's parameters, at most four.
    pub params: Vec<u32>,
}

/// The mathematical shape of a [`UserPatchAICommand`].
pub struct UserPatchAICommandView {
    pub player_id: PlayerID,
    pub ai_action: u8,
    pub params: Seq<u32>,
}

impl View for UserPatchAICommand {
    type V = UserPatchAICommandView;

    open spec fn view(&self) -> UserPatchAICommandView {
        UserPatchAICommandView {
            player_id: self.player_id,
            ai_action: self.ai_action,
            params: self.params@,
        }
    }
}

impl UserPatchAICommandView {
    /// A record that the wire shape can carry back out.
    pub open spec fn valid(self) -> bool {
        self.params.len() <= 4
    }

    /// The bytes of this record after the opcode byte.
    pub open spec fn wire(self) -> Seq<u8> {
        seq![self.ai_action, self.player_id] + zero_bytes(1) + wire_ids(self.params)
    }

    /// Decode this record at offset `p`, inside a frame whose declared
    /// length is `size`: the parameter count is `(size - 4) / 4`. A frame
    /// too short for the fixed header, or a parameter count beyond the
    /// record's capacity, is rejected.
    pub open spec fn parse(s: Seq<u8>, p: int, size: int) -> Result<
        (UserPatchAICommandView, int),
        DecodeError,
    > {
        if size < 4 {
            Err(DecodeError::Truncated)
        } else {
            let np = (size - 4) / 4;
            if np > 4 {
                Err(DecodeError::BadIdentifier)
            } else if p + 3 + 4 * np > s.len() {
                Err(DecodeError::Truncated)
            } else {
                Ok(
                    (
                        UserPatchAICommandView {
                            player_id: s[p + 1],
                            ai_action: s[p],
                            params: ids_at(s, p + 3, np),
                        },
                        3 + 4 * np,
                    ),
                )
            }
        }
    }
}

impl UserPatchAICommand {
    /// Read this command from a cursor; `size` is the enclosing frame's
    /// declared length, which fixes the parameter count.
    pub fn read_from(r: &mut Reader, size: u32) -> (res: Result<UserPatchAICommand, DecodeError>)
        requires
            old(r).wf(),
        ensures
            final(r).bytes() == old(r).bytes(),
            final(r).wf(),
            old(r).position() <= final(r).position(),
            match res {
                Ok(c) => UserPatchAICommandView::parse(
                    old(r).bytes(),
                    old(r).position(),
                    size as int,
                ) == Ok::<_, DecodeError>((c@, final(r).position() - old(r).position())),
                Err(e) => UserPatchAICommandView::parse(
                    old(r).bytes(),
                    old(r).position(),
                    size as int,
                ) == Err::<(UserPatchAICommandView, int), _>(e),
            },
    {
        if size < 4 {
            return Err(DecodeError::Truncated);
        }
        let np = ((size - 4) / 4) as usize;
        if np > 4 {
            return Err(DecodeError::BadIdentifier);
        }
        proof {
            assert(np as int == (size as int - 4) / 4);
            assert((size as int - 4) / 4 >= 0) by (nonlinear_arith)
                requires
                    size as int >= 4,
            ;
        }
        let ghost s = old(r).bytes();
        let ghost p0 = old(r).position();
        let ai_action = match r.read_u8() {
            Ok(v) => v,
            Err(e) => return Err(e),
        };
        let player_id = match r.read_u8() {
            Ok(v) => v,
            Err(e) => return Err(e),
        };
        let _padding = match r.read_u8() {
            Ok(v) => v,
            Err(e) => return Err(e),
        };
        let mut params: Vec<u32> = Vec::new();
        let mut i: usize = 0;
        while i < np
            invariant
                i <= np,
                np <= 4,
                size >= 4,
                np as int == (size as int - 4) / 4,
                r.wf(),
                s == old(r).bytes(),
                p0 == old(r).position(),
                r.bytes() == s,
                r.position() == p0 + 3 + 4 * i,
                0 <= p0,
                params@ == ids_at(s, p0 + 3, i as int),
            decreases np - i,
        {
            let v = match r.read_u32_le() {
                Ok(v) => v,
                Err(e) => return Err(e),
            };
            params.push(v);
            proof {
                assert(params@ =~= ids_at(s, p0 + 3, i + 1 as int));
            }
            i = i + 1;
        }
        Ok(UserPatchAICommand { player_id, ai_action, params })
    }

    /// Write this command to a byte vector. The enclosing frame's length
    /// prefix, derived from the bytes written, carries the parameter count.
    pub fn write_to(&self, out: &mut Vec<u8>)
        requires
            self@.valid(),
        ensures
            final(out)@ == old(out)@ + self@.wire(),
    {
        write_u8(out, self.ai_action);
        write_u8(out, self.player_id);
        write_u8(out, 0);
        let ghost base = out@;
        let mut i: usize = 0;
        while i < self.params.len()
            invariant
                i <= self.params@.len(),
                out@ == base + wire_ids(self.params@.take(i as int)),
            decreases self.params@.len() - i,
        {
            write_u32_le(out, self.params[i]);
            proof {
                lemma_wire_ids_snoc(self.params@.take(i as int), self.params@[i as int]);
                assert(self.params@.take(i + 1 as int) =~= self.params@.take(i as int).push(
                    self.params@[i as int],
                ));
                assert(out@ =~= base + wire_ids(self.params@.take(i + 1 as int)));
            }
            i = i + 1;
        }
        proof {
            assert(self.params@.take(self.params@.len() as int) =~= self.params@);
            assert(out@ =~= old(out)@ + self@.wire());
        }
    }
}

/// Round-trip law: decoding the wire image of any valid record, inside a
/// frame whose declared length matches that image, yields the record itself
/// and consumes its whole image.
pub proof fn lemma_user_patch_ai_roundtrip(s: Seq<u8>, p: int, c: UserPatchAICommandView, size: int)
    requires
        c.valid(),
        size == 4 + 4 * c.params.len(),
        0 <= p,
        p + c.wire().len() <= s.len(),
        s.subrange(p, p + c.wire().len() as int) == c.wire(),
    ensures
        UserPatchAICommandView::parse(s, p, size) == Ok::<_, DecodeError>(
            (c, c.wire().len() as int),
        ),
{
    vstd::bytes::lemma_auto_spec_u32_to_from_le_bytes();
    let w = c.wire();
    lemma_wire_ids_len(c.params);
    assert(w.len() == 3 + 4 * c.params.len());
    lemma_byte_at(s, p, w, 0);
    assert(w[0] == c.ai_action);
    lemma_byte_at(s, p, w, 1);
    assert(w[1] == c.player_id);
    assert((size - 4) / 4 == c.params.len());
    lemma_field_bytes(s, p, w, 3, 3 + 4 * c.params.len() as int);
    assert(w.subrange(3, 3 + 4 * c.params.len() as int) =~= wire_ids(c.params));
    lemma_ids_roundtrip(s, p + 3, c.params);
}

/// The byte image of a row of boolean flags: one byte each, 1 for set.
pub open spec fn bool_bytes(bs: Seq<bool>) -> Seq<u8> {
    Seq::new(
        bs.len(),
        |j: int|
            if bs[j] {
                1u8
            } else {
                0u8
            },
    )
}

/// Send a flare at the given location.
///
/// The record opens with a guarded all-ones marker that decoding validates.
#[derive(Debug, Default, Clone, PartialEq)]
pub struct FlareCommand {
    /// The ID of the player sending the flare.
    pub player_id: PlayerID,
    /// The multiplayer ID of the player sending the flare.
    pub comm_player_id: PlayerID,
    /// Which of the nine player slots see the flare.
    pub recipients: Vec<bool>,
    /// Where the flare is shown.
    pub location: Location2,
}

/// The mathematical shape of a [`FlareCommand`].
pub struct FlareCommandView {
    pub player_id: PlayerID,
    pub comm_player_id: PlayerID,
    pub recipients: Seq<bool>,
    pub location: Location2,
}

impl View for FlareCommand {
    type V = FlareCommandView;

    open spec fn view(&self) -> FlareCommandView {
        FlareCommandView {
            player_id: self.player_id,
            comm_player_id: self.comm_player_id,
            recipients: self.recipients@,
            location: self.location,
        }
    }
}

impl FlareCommandView {
    /// A record that the wire shape can carry back out: one flag per player
    /// slot.
    pub open spec fn valid(self) -> bool {
        self.recipients.len() == 9
    }

    /// The bytes of this record after the opcode byte.
    pub open spec fn wire(self) -> Seq<u8> {
        zero_bytes(3) + spec_u32_to_le_bytes(0xFFFF_FFFFu32) + bool_bytes(self.recipients)
            + zero_bytes(3) + spec_u32_to_le_bytes(self.location.x) + spec_u32_to_le_bytes(
            self.location.y,
        ) + seq![self.player_id, self.comm_player_id] + zero_bytes(2)
    }

    /// Decode this record at offset `p`. A leading marker that is not the
    /// all-ones pattern is corrupt input.
    pub open spec fn parse(s: Seq<u8>, p: int) -> Result<(FlareCommandView, int), DecodeError> {
        if p + 7 > s.len() {
            Err(DecodeError::Truncated)
        } else if le32_at(s, p + 3) != 0xFFFF_FFFFu32 {
            Err(DecodeError::BadMarker)
        } else if p + 31 > s.len() {
            Err(DecodeError::Truncated)
        } else {
            Ok(
                (
                    FlareCommandView {
                        player_id: s[p + 27],
                        comm_player_id: s[p + 28],
                        recipients: Seq::new(9, |j: int| s[p + 7 + j] != 0),
                        location: Location2 { x: le32_at(s, p + 19), y: le32_at(s, p + 23) },
                    },
                    31,
                ),
            )
        }
    }
}

impl FlareCommand {
    /// Read a Flare command from a cursor.
    pub fn read_from(r: &mut Reader) -> (res: Result<FlareCommand, DecodeError>)
        requires
            old(r).wf(),
        ensures
            final(r).bytes() == old(r).bytes(),
            final(r).wf(),
            old(r).position() <= final(r).position(),
            match res {
                Ok(c) => FlareCommandView::parse(old(r).bytes(), old(r).position()) == Ok::<
                    _,
                    DecodeError,
                >((c@, final(r).position() - old(r).position())),
                Err(e) => FlareCommandView::parse(old(r).bytes(), old(r).position()) == Err::<
                    (FlareCommandView, int),
                    _,
                >(e),
            },
    {
        let ghost s = old(r).bytes();
        let ghost p0 = old(r).position();
        match r.skip(3) {
            Ok(()) => (),
            Err(e) => return Err(e),
        };
        let marker = match r.read_u32_le() {
            Ok(v) => v,
            Err(e) => return Err(e),
        };
        if marker != 0xFFFF_FFFFu32 {
            return Err(DecodeError::BadMarker);
        }
        let mut recipients: Vec<bool> = Vec::new();
        let mut i: usize = 0;
        while i < 9
            invariant
                i <= 9,
                r.wf(),
                s == old(r).bytes(),
                p0 == old(r).position(),
                r.bytes() == s,
                r.position() == p0 + 7 + i,
                0 <= p0,
                le32_at(s, p0 + 3) == 0xFFFF_FFFFu32,
                p0 + 7 <= s.len(),
                recipients@ == Seq::new(i as nat, |j: int| s[p0 + 7 + j] != 0),
            decreases 9 - i,
        {
            let b = match r.read_u8() {
                Ok(v) => v,
                Err(e) => return Err(e),
            };
            recipients.push(b != 0);
            proof {
                assert(recipients@ =~= Seq::new((i + 1) as nat, |j: int| s[p0 + 7 + j] != 0));
            }
            i = i + 1;
        }
        match r.skip(3) {
            Ok(()) => (),
            Err(e) => return Err(e),
        };
        let x = match r.read_u32_le() {
            Ok(v) => v,
            Err(e) => return Err(e),
        };
        let y = match r.read_u32_le() {
            Ok(v) => v,
            Err(e) => return Err(e),
        };
        let player_id = match r.read_u8() {
            Ok(v) => v,
            Err(e) => return Err(e),
        };
        let comm_player_id = match r.read_u8() {
            Ok(v) => v,
            Err(e) => return Err(e),
        };
        match r.skip(2) {
            Ok(()) => (),
            Err(e) => return Err(e),
        };
        Ok(FlareCommand { player_id, comm_player_id, recipients, location: Location2 { x, y } })
    }

    /// Write this Flare command to a byte vector.
    pub fn write_to(&self, out: &mut Vec<u8>)
        requires
            self@.valid(),
        ensures
            final(out)@ == old(out)@ + self@.wire(),
    {
        write_zeros(out, 3);
        write_u32_le(out, 0xFFFF_FFFFu32);
        let ghost base = out@;
        let mut i: usize = 0;
        while i < self.recipients.len()
            invariant
                i <= self.recipients@.len(),
                out@ == base + bool_bytes(self.recipients@.take(i as int)),
            decreases self.recipients@.len() - i,
        {
            write_u8(
                out,
                if self.recipients[i] {
                    1
                } else {
                    0
                },
            );
            proof {
                assert(out@ =~= base + bool_bytes(self.recipients@.take(i + 1 as int)));
            }
            i = i + 1;
        }
        proof {
            assert(self.recipients@.take(self.recipients@.len() as int) =~= self.recipients@);
        }
        write_zeros(out, 3);
        write_u32_le(out, self.location.x);
        write_u32_le(out, self.location.y);
        write_u8(out, self.player_id);
        write_u8(out, self.comm_player_id);
        write_zeros(out, 2);
        proof {
            assert(out@ =~= old(out)@ + self@.wire());
        }
    }
}

/// Round-trip law: decoding the wire image of any valid record yields the
/// record itself and consumes its whole image.
pub proof fn lemma_flare_roundtrip(s: Seq<u8>, p: int, c: FlareCommandView)
    requires
        c.valid(),
        0 <= p,
        p + c.wire().len() <= s.len(),
        s.subrange(p, p + c.wire().len() as int) == c.wire(),
    ensures
        FlareCommandView::parse(s, p) == Ok::<_, DecodeError>((c, c.wire().len() as int)),
{
    vstd::bytes::lemma_auto_spec_u32_to_from_le_bytes();
    let w = c.wire();
    assert(w.len() == 31);
    lemma_field_bytes(s, p, w, 3, 7);
    assert(w.subrange(3, 7) =~= spec_u32_to_le_bytes(0xFFFF_FFFFu32));
    assert forall|j: int| 0 <= j < 9 implies s[p + 7 + j] == (if c.recipients[j] {
        1u8
    } else {
        0u8
    }) by {
        lemma_byte_at(s, p, w, 7 + j);
        assert(w[7 + j] == bool_bytes(c.recipients)[j]);
    };
    assert(Seq::new(9, |j: int| s[p + 7 + j] != 0) =~= c.recipients);
    lemma_field_bytes(s, p, w, 19, 23);
    assert(w.subrange(19, 23) =~= spec_u32_to_le_bytes(c.location.x));
    lemma_field_bytes(s, p, w, 23, 27);
    assert(w.subrange(23, 27) =~= spec_u32_to_le_bytes(c.location.y));
    lemma_byte_at(s, p, w, 27);
    assert(w[27] == c.player_id);
    lemma_byte_at(s, p, w, 28);
    assert(w[28] == c.comm_player_id);
}

/// Task a group of villagers to build a wall from one grid point to
/// another.
///
/// The record carries a trailing all-ones guard value whose purpose is
/// unconfirmed; decoding validates it and treats a mismatch as corrupt
/// input. This is also the one record whose count field can carry the reuse
/// marker as the value -1, and whose single-identifier list collapses to an
/// empty list when that identifier is the all-ones pattern.
#[derive(Debug, Default, Clone, PartialEq)]
pub struct BuildWallCommand {
    /// The ID of the player issuing this command.
    pub player_id: PlayerID,
    /// One end of the wall, in grid tiles.
    pub start: GridPoint,
    /// The other end of the wall, in grid tiles.
    pub end: GridPoint,
    /// The type of wall to build.
    pub unit_type_id: UnitTypeID,
    /// The villagers tasked to build the wall.
    pub builders: ObjectsList,
}

/// The mathematical shape of a [`BuildWallCommand`].
pub struct BuildWallCommandView {
    pub player_id: PlayerID,
    pub start: GridPoint,
    pub end: GridPoint,
    pub unit_type_id: UnitTypeID,
    pub builders: ObjectsListView,
}

impl View for BuildWallCommand {
    type V = BuildWallCommandView;

    open spec fn view(&self) -> BuildWallCommandView {
        BuildWallCommandView {
            player_id: self.player_id,
            start: self.start,
            end: self.end,
            unit_type_id: self.unit_type_id,
            builders: self.builders@,
        }
    }
}

impl BuildWallCommandView {
    /// A record that the wire shape can carry back out. The signed one-byte
    /// count reaches the marker here, as the value -1.
    pub open spec fn valid(self) -> bool {
        ||| self.builders.is_marker()
        ||| (self.builders.items().len() <= 127 && self.builders.ids_in_range())
    }

    /// The bytes of this record after the opcode byte.
    pub open spec fn wire(self) -> Seq<u8> {
        seq![
            self.builders.count_byte(),
            self.player_id,
            self.start.x,
            self.start.y,
            self.end.x,
            self.end.y,
        ] + zero_bytes(1) + spec_u16_to_le_bytes(self.unit_type_id) + zero_bytes(2)
            + spec_u32_to_le_bytes(0xFFFF_FFFFu32) + self.builders.wire_tail()
    }

    /// Decode this record at offset `p`. A guard value that is not the
    /// all-ones pattern is corrupt input; a count below -1 is a narrowing
    /// failure.
    pub open spec fn parse(s: Seq<u8>, p: int) -> Result<(BuildWallCommandView, int), DecodeError> {
        if p + 15 > s.len() {
            Err(DecodeError::Truncated)
        } else if le32_at(s, p + 11) != 0xFFFF_FFFFu32 {
            Err(DecodeError::BadMarker)
        } else {
            let head = BuildWallCommandView {
                player_id: s[p + 1],
                start: GridPoint { x: s[p + 2], y: s[p + 3] },
                end: GridPoint { x: s[p + 4], y: s[p + 5] },
                unit_type_id: le16_at(s, p + 7),
                builders: ObjectsListView::SameAsLast,
            };
            let count = (s[p] as i8) as int;
            if count == -1 {
                Ok((head, 15))
            } else if count < -1 {
                Err(DecodeError::BadIdentifier)
            } else if count == 1 {
                if p + 19 > s.len() {
                    Err(DecodeError::Truncated)
                } else if le32_at(s, p + 15) == 0xFFFF_FFFFu32 {
                    Ok(
                        (
                            BuildWallCommandView {
                                builders: ObjectsListView::List(Seq::empty()),
                                ..head
                            },
                            19,
                        ),
                    )
                } else {
                    match parse_ids(s, p + 15, 1) {
                        Ok(ids) => Ok(
                            (
                                BuildWallCommandView {
                                    builders: ObjectsListView::List(ids),
                                    ..head
                                },
                                19,
                            ),
                        ),
                        Err(e) => Err(e),
                    }
                }
            } else {
                match parse_ids(s, p + 15, count) {
                    Ok(ids) => Ok(
                        (
                            BuildWallCommandView { builders: ObjectsListView::List(ids), ..head },
                            15 + 4 * count,
                        ),
                    ),
                    Err(e) => Err(e),
                }
            }
        }
    }
}

impl BuildWallCommand {
    /// Read a BuildWall command from a cursor.
    pub fn read_from(r: &mut Reader) -> (res: Result<BuildWallCommand, DecodeError>)
        requires
            old(r).wf(),
        ensures
            final(r).bytes() == old(r).bytes(),
            final(r).wf(),
            old(r).position() <= final(r).position(),
            match res {
                Ok(c) => BuildWallCommandView::parse(old(r).bytes(), old(r).position()) == Ok::<
                    _,
                    DecodeError,
                >((c@, final(r).position() - old(r).position())),
                Err(e) => BuildWallCommandView::parse(old(r).bytes(), old(r).position()) == Err::<
                    (BuildWallCommandView, int),
                    _,
                >(e),
            },
    {
        let ghost s = old(r).bytes();
        let ghost p0 = old(r).position();
        let selected_count = match r.read_i8() {
            Ok(v) => v,
            Err(e) => return Err(e),
        };
        let player_id = match r.read_u8() {
            Ok(v) => v,
            Err(e) => return Err(e),
        };
        let start_x = match r.read_u8() {
            Ok(v) => v,
            Err(e) => return Err(e),
        };
        let start_y = match r.read_u8() {
            Ok(v) => v,
            Err(e) => return Err(e),
        };
        let end_x = match r.read_u8() {
            Ok(v) => v,
            Err(e) => return Err(e),
        };
        let end_y = match r.read_u8() {
            Ok(v) => v,
            Err(e) => return Err(e),
        };
        let _padding = match r.read_u8() {
            Ok(v) => v,
            Err(e) => return Err(e),
        };
        let unit_type_id = match r.read_u16_le() {
            Ok(v) => v,
            Err(e) => return Err(e),
        };
        let _padding = match r.read_u16_le() {
            Ok(v) => v,
            Err(e) => return Err(e),
        };
        let guard = match r.read_u32_le() {
            Ok(v) => v,
            Err(e) => return Err(e),
        };
        if guard != 0xFFFF_FFFFu32 {
            return Err(DecodeError::BadMarker);
        }
        let builders: ObjectsList = if selected_count == -1 {
            ObjectsList::SameAsLast
        } else if selected_count < -1 {
            return Err(DecodeError::BadIdentifier);
        } else if selected_count == 1 {
            let id = match r.read_u32_le() {
                Ok(v) => v,
                Err(e) => return Err(e),
            };
            if id == 0xFFFF_FFFFu32 {
                ObjectsList::List(Vec::new())
            } else if id >= 0x8000_0000u32 {
                proof {
                    assert(crate::objects::complete_ids(s, p0 + 15, 1) == 1);
                    assert(ids_at(s, p0 + 15, 1)[0] == le32_at(s, p0 + 15));
                    assert(!crate::objects::ids_ok(s, p0 + 15, 1));
                }
                return Err(DecodeError::BadIdentifier);
            } else {
                let mut one: Vec<u32> = Vec::new();
                one.push(id);
                proof {
                    assert(one@ =~= ids_at(s, p0 + 15, 1));
                    assert(crate::objects::complete_ids(s, p0 + 15, 1) == 1);
                    assert(forall|j: int|
                        0 <= j < 1 ==> crate::objects::id_in_range(
                            #[trigger] ids_at(s, p0 + 15, 1)[j],
                        ));
                }
                ObjectsList::List(one)
            }
        } else {
            match ObjectsList::read_from(r, selected_count as i32) {
                Ok(v) => v,
                Err(e) => return Err(e),
            }
        };
        Ok(BuildWallCommand {
            player_id,
            start: GridPoint { x: start_x, y: start_y },
            end: GridPoint { x: end_x, y: end_y },
            unit_type_id,
            builders,
        })
    }

    /// Write this BuildWall command to a byte vector.
    pub fn write_to(&self, out: &mut Vec<u8>)
        requires
            self@.valid(),
        ensures
            final(out)@ == old(out)@ + self@.wire(),
    {
        let count_byte: u8 = match &self.builders {
            ObjectsList::SameAsLast => 0xFF,
            ObjectsList::List(l) => l.len() as u8,
        };
        write_u8(out, count_byte);
        write_u8(out, self.player_id);
        write_u8(out, self.start.x);
        write_u8(out, self.start.y);
        write_u8(out, self.end.x);
        write_u8(out, self.end.y);
        write_u8(out, 0);
        write_u16_le(out, self.unit_type_id);
        write_zeros(out, 2);
        write_u32_le(out, 0xFFFF_FFFFu32);
        self.builders.write_to(out);
        proof {
            assert(out@ =~= old(out)@ + self@.wire());
        }
    }
}

/// Round-trip law: decoding the wire image of any valid record yields the
/// record itself and consumes its whole image.
pub proof fn lemma_build_wall_roundtrip(s: Seq<u8>, p: int, c: BuildWallCommandView)
    requires
        c.valid(),
        0 <= p,
        p + c.wire().len() <= s.len(),
        s.subrange(p, p + c.wire().len() as int) == c.wire(),
    ensures
        BuildWallCommandView::parse(s, p) == Ok::<_, DecodeError>((c, c.wire().len() as int)),
{
    vstd::bytes::lemma_auto_spec_u16_to_from_le_bytes();
    vstd::bytes::lemma_auto_spec_u32_to_from_le_bytes();
    let w = c.wire();
    let ids = c.builders.items();
    lemma_wire_ids_len(ids);
    assert(w.len() == 15 + if c.builders.is_marker() {
        0int
    } else {
        4 * ids.len() as int
    });
    lemma_byte_at(s, p, w, 0);
    assert(w[0] == c.builders.count_byte());
    lemma_byte_at(s, p, w, 1);
    assert(w[1] == c.player_id);
    lemma_byte_at(s, p, w, 2);
    lemma_byte_at(s, p, w, 3);
    lemma_byte_at(s, p, w, 4);
    lemma_byte_at(s, p, w, 5);
    lemma_field_bytes(s, p, w, 7, 9);
    assert(w.subrange(7, 9) =~= spec_u16_to_le_bytes(c.unit_type_id));
    lemma_field_bytes(s, p, w, 11, 15);
    assert(w.subrange(11, 15) =~= spec_u32_to_le_bytes(0xFFFF_FFFFu32));
    if c.builders.is_marker() {
        assert(c.builders == ObjectsListView::SameAsLast);
        assert((0xFFu8 as i8) as int == -1) by (bit_vector);
    } else {
        let n8 = c.builders.count_byte();
        assert(n8 <= 127 ==> (n8 as i8) >= 0 && ((n8 as i8) as u8) == n8) by (bit_vector);
        lemma_field_bytes(s, p, w, 15, 15 + 4 * ids.len() as int);
        assert(w.subrange(15, 15 + 4 * ids.len() as int) =~= wire_ids(ids));
        lemma_ids_roundtrip(s, p + 15, ids);
        assert(crate::objects::complete_ids(s, p + 15, ids.len() as int) == ids.len()) by {
            assert((s.len() - (p + 15)) / 4 >= ids.len()) by (nonlinear_arith)
                requires
                    s.len() - (p + 15) >= 4 * ids.len(),
            ;
        };
        assert(forall|j: int|
            0 <= j < ids.len() ==> crate::objects::id_in_range(
                #[trigger] ids_at(s, p + 15, ids.len() as int)[j],
            ));
        assert(c.builders == ObjectsListView::List(ids));
        if ids.len() == 1 {
            assert(le32_at(s, p + 15) == ids[0]);
            assert(le32_at(s, p + 15) != 0xFFFF_FFFFu32);
            assert(ids_at(s, p + 15, 1) =~= ids);
        }
    }
}

/// An order issued by an AI script, with priorities and an optional target
/// object and player.
///
/// A single selected object travels inline in a dedicated slot instead of
/// in the trailing list; the list is only present when two or more objects
/// are selected.
#[derive(Debug, Default, Clone, PartialEq)]
pub struct AIOrderCommand {
    /// The player the order is for.
    pub player_id: PlayerID,
    /// The player issuing the order.
    pub issuer: PlayerID,
    /// The objects the order applies to.
    pub objects: ObjectsList,
    /// The type of order.
    pub order_type: u16,
    /// The order's priority.
    pub order_priority: i8,
    /// The target object of the order.
    pub target_id: Option<ObjectID>,
    /// The player the target belongs to.
    pub target_player_id: Option<PlayerID>,
    /// The target location of the order.
    pub target_location: Location3,
    /// The order's range, as a raw single-precision pattern.
    pub range: u32,
    /// Whether the order takes effect immediately.
    pub immediate: bool,
    /// Whether the order is added to the front of the order queue.
    pub add_to_front: bool,
}

/// The mathematical shape of an [`AIOrderCommand`].
pub struct AIOrderCommandView {
    pub player_id: PlayerID,
    pub issuer: PlayerID,
    pub objects: ObjectsListView,
    pub order_type: u16,
    pub order_priority: i8,
    pub target_id: Option<ObjectID>,
    pub target_player_id: Option<PlayerID>,
    pub target_location: Location3,
    pub range: u32,
    pub immediate: bool,
    pub add_to_front: bool,
}

impl View for AIOrderCommand {
    type V = AIOrderCommandView;

    open spec fn view(&self) -> AIOrderCommandView {
        AIOrderCommandView {
            player_id: self.player_id,
            issuer: self.issuer,
            objects: self.objects@,
            order_type: self.order_type,
            order_priority: self.order_priority,
            target_id: self.target_id,
            target_player_id: self.target_player_id,
            target_location: self.target_location,
            range: self.range,
            immediate: self.immediate,
            add_to_front: self.add_to_front,
        }
    }
}

impl AIOrderCommandView {
    /// The 32-bit word of the inline object slot: the single selected
    /// object, or the all-ones pattern when the list travels separately.
    pub open spec fn object_slot(self) -> u32 {
        if self.objects.items().len() == 1 {
            self.objects.items()[0]
        } else {
            0xFFFF_FFFFu32
        }
    }

    /// The byte of the optional target player: the all-ones sentinel for
    /// absent.
    pub open spec fn target_player_byte(self) -> u8 {
        match self.target_player_id {
            None => 0xFFu8,
            Some(v) => v,
        }
    }

    /// A record that the wire shape can carry back out. The reuse marker
    /// travels as the count byte 0xFF; a single selected object travels
    /// inline and may be any identifier; a longer list obeys the signed
    /// identifier domain.
    pub open spec fn valid(self) -> bool {
        &&& self.objects.items().len() <= 127
        &&& (self.objects.items().len() != 1 ==> self.objects.ids_in_range())
        &&& opt_id_valid(self.target_id)
        &&& (self.target_player_id matches Some(v) ==> v <= 127)
    }

    /// The bytes of this record after the opcode byte.
    pub open spec fn wire(self) -> Seq<u8> {
        seq![self.objects.count_byte(), self.player_id, self.issuer] + spec_u32_to_le_bytes(
            self.object_slot(),
        ) + spec_u16_to_le_bytes(self.order_type) + seq![self.order_priority as u8] + zero_bytes(1)
            + spec_u32_to_le_bytes(opt32_bits(self.target_id)) + seq![self.target_player_byte()]
            + zero_bytes(3) + spec_u32_to_le_bytes(self.target_location.x) + spec_u32_to_le_bytes(
            self.target_location.y,
        ) + spec_u32_to_le_bytes(self.target_location.z) + spec_u32_to_le_bytes(self.range) + seq![
            (if self.immediate {
                1u8
            } else {
                0u8
            }),
            (if self.add_to_front {
                1u8
            } else {
                0u8
            }),
        ] + zero_bytes(2) + (if self.objects.items().len() > 1 {
            wire_ids(self.objects.items())
        } else {
            Seq::<u8>::empty()
        })
    }

    /// Decode this record at offset `p`. A target-player byte that is
    /// negative without being the absent sentinel is a narrowing failure.
    pub open spec fn parse(s: Seq<u8>, p: int) -> Result<(AIOrderCommandView, int), DecodeError> {
        if p + 16 > s.len() {
            Err(DecodeError::Truncated)
        } else if s[p + 15] != 0xFF && s[p + 15] >= 0x80 {
            Err(DecodeError::BadIdentifier)
        } else if p + 39 > s.len() {
            Err(DecodeError::Truncated)
        } else {
            let head = AIOrderCommandView {
                player_id: s[p + 1],
                issuer: s[p + 2],
                objects: ObjectsListView::SameAsLast,
                order_type: le16_at(s, p + 7),
                order_priority: s[p + 9] as i8,
                target_id: opt32_of(le32_at(s, p + 11)),
                target_player_id: if s[p + 15] == 0xFF {
                    None
                } else {
                    Some(s[p + 15])
                },
                target_location: Location3 {
                    x: le32_at(s, p + 19),
                    y: le32_at(s, p + 23),
                    z: le32_at(s, p + 27),
                },
                range: le32_at(s, p + 31),
                immediate: s[p + 35] != 0,
                add_to_front: s[p + 36] != 0,
            };
            let count = (s[p] as i8) as int;
            if count == 1 {
                Ok(
                    (
                        AIOrderCommandView {
                            objects: ObjectsListView::List(seq![le32_at(s, p + 3)]),
                            ..head
                        },
                        39,
                    ),
                )
            } else {
                match parse_list(s, p + 39, count) {
                    Ok((l, used)) => Ok((AIOrderCommandView { objects: l, ..head }, 39 + used)),
                    Err(e) => Err(e),
                }
            }
        }
    }
}

impl AIOrderCommand {
    /// Read an AIOrder command from a cursor.
    pub fn read_from(r: &mut Reader) -> (res: Result<AIOrderCommand, DecodeError>)
        requires
            old(r).wf(),
        ensures
            final(r).bytes() == old(r).bytes(),
            final(r).wf(),
            old(r).position() <= final(r).position(),
            match res {
                Ok(c) => AIOrderCommandView::parse(old(r).bytes(), old(r).position()) == Ok::<
                    _,
                    DecodeError,
                >((c@, final(r).position() - old(r).position())),
                Err(e) => AIOrderCommandView::parse(old(r).bytes(), old(r).position()) == Err::<
                    (AIOrderCommandView, int),
                    _,
                >(e),
            },
    {
        let ghost s = old(r).bytes();
        let ghost p0 = old(r).position();
        let selected_count = match r.read_i8() {
            Ok(v) => v,
            Err(e) => return Err(e),
        };
        let player_id = match r.read_u8() {
            Ok(v) => v,
            Err(e) => return Err(e),
        };
        let issuer = match r.read_u8() {
            Ok(v) => v,
            Err(e) => return Err(e),
        };
        let object_word = match r.read_u32_le() {
            Ok(v) => v,
            Err(e) => return Err(e),
        };
        let order_type = match r.read_u16_le() {
            Ok(v) => v,
            Err(e) => return Err(e),
        };
        let order_priority = match r.read_i8() {
            Ok(v) => v,
            Err(e) => return Err(e),
        };
        let _padding = match r.read_u8() {
            Ok(v) => v,
            Err(e) => return Err(e),
        };
        let target_id = match read_opt_u32(r) {
            Ok(v) => v,
            Err(e) => return Err(e),
        };
        let target_player_byte = match r.read_u8() {
            Ok(v) => v,
            Err(e) => return Err(e),
        };
        if target_player_byte != 0xFF && target_player_byte >= 0x80 {
            return Err(DecodeError::BadIdentifier);
        }
        let target_player_id = if target_player_byte == 0xFF {
            None
        } else {
            Some(target_player_byte)
        };
        match r.skip(3) {
            Ok(()) => (),
            Err(e) => return Err(e),
        };
        let loc_x = match r.read_u32_le() {
            Ok(v) => v,
            Err(e) => return Err(e),
        };
        let loc_y = match r.read_u32_le() {
            Ok(v) => v,
            Err(e) => return Err(e),
        };
        let loc_z = match r.read_u32_le() {
            Ok(v) => v,
            Err(e) => return Err(e),
        };
        let range = match r.read_u32_le() {
            Ok(v) => v,
            Err(e) => return Err(e),
        };
        let immediate_byte = match r.read_u8() {
            Ok(v) => v,
            Err(e) => return Err(e),
        };
        let add_to_front_byte = match r.read_u8() {
            Ok(v) => v,
            Err(e) => return Err(e),
        };
        let _padding = match r.read_u16_le() {
            Ok(v) => v,
            Err(e) => return Err(e),
        };
        let objects: ObjectsList = if selected_count == 1 {
            let mut one: Vec<u32> = Vec::new();
            one.push(object_word);
            proof {
                assert(one@ =~= seq![le32_at(s, p0 + 3)]);
            }
            ObjectsList::List(one)
        } else {
            match ObjectsList::read_from(r, selected_count as i32) {
                Ok(v) => v,
                Err(e) => return Err(e),
            }
        };
        Ok(AIOrderCommand {
            player_id,
            issuer,
            objects,
            order_type,
            order_priority,
            target_id,
            target_player_id,
            target_location: Location3 { x: loc_x, y: loc_y, z: loc_z },
            range,
            immediate: immediate_byte != 0,
            add_to_front: add_to_front_byte != 0,
        })
    }

    /// Write this AIOrder command to a byte vector.
    #[verifier::rlimit(60)]
    pub fn write_to(&self, out: &mut Vec<u8>)
        requires
            self@.valid(),
        ensures
            final(out)@ == old(out)@ + self@.wire(),
    {
        let count_byte: u8 = match &self.objects {
            ObjectsList::SameAsLast => 0xFF,
            ObjectsList::List(l) => l.len() as u8,
        };
        write_u8(out, count_byte);
        write_u8(out, self.player_id);
        write_u8(out, self.issuer);
        match &self.objects {
            ObjectsList::List(l) if l.len() == 1 => {
                write_u32_le(out, l[0]);
            },
            _ => {
                write_u32_le(out, 0xFFFF_FFFFu32);
            },
        };
        write_u16_le(out, self.order_type);
        crate::reader::write_i8(out, self.order_priority);
        write_u8(out, 0);
        write_opt_u32(out, self.target_id);
        match self.target_player_id {
            None => write_u8(out, 0xFF),
            Some(v) => write_u8(out, v),
        };
        write_zeros(out, 3);
        write_u32_le(out, self.target_location.x);
        write_u32_le(out, self.target_location.y);
        write_u32_le(out, self.target_location.z);
        write_u32_le(out, self.range);
        write_u8(
            out,
            if self.immediate {
                1
            } else {
                0
            },
        );
        write_u8(
            out,
            if self.add_to_front {
                1
            } else {
                0
            },
        );
        write_zeros(out, 2);
        proof {
            vstd::bytes::lemma_auto_spec_u16_to_from_le_bytes();
            vstd::bytes::lemma_auto_spec_u32_to_from_le_bytes();
            lemma_wire_ids_len(self@.objects.items());
            assert(out@ =~= old(out)@ + self@.wire().take(39));
        }
        if self.objects.len() > 1 {
            self.objects.write_to(out);
        }
        proof {
            let w = self@.wire();
            vstd::bytes::lemma_auto_spec_u16_to_from_le_bytes();
            vstd::bytes::lemma_auto_spec_u32_to_from_le_bytes();
            lemma_wire_ids_len(self@.objects.items());
            if self@.objects.items().len() > 1 {
                assert(w.take(39) + wire_ids(self@.objects.items()) =~= w);
                assert(out@ =~= old(out)@ + w);
            } else {
                assert(w.take(39) =~= w);
                assert(out@ =~= old(out)@ + w);
            }
        }
    }
}

/// Round-trip law: decoding the wire image of any valid record yields the
/// record itself and consumes its whole image.
pub proof fn lemma_ai_order_roundtrip(s: Seq<u8>, p: int, c: AIOrderCommandView)
    requires
        c.valid(),
        0 <= p,
        p + c.wire().len() <= s.len(),
        s.subrange(p, p + c.wire().len() as int) == c.wire(),
    ensures
        AIOrderCommandView::parse(s, p) == Ok::<_, DecodeError>((c, c.wire().len() as int)),
{
    vstd::bytes::lemma_auto_spec_u16_to_from_le_bytes();
    vstd::bytes::lemma_auto_spec_u32_to_from_le_bytes();
    let w = c.wire();
    let ids = c.objects.items();
    lemma_wire_ids_len(ids);
    assert(w.len() == 39 + if ids.len() > 1 {
        4 * ids.len() as int
    } else {
        0int
    });
    lemma_byte_at(s, p, w, 0);
    assert(w[0] == c.objects.count_byte());
    let n8 = c.objects.count_byte();
    assert(n8 <= 127 ==> (n8 as i8) >= 0 && ((n8 as i8) as u8) == n8) by (bit_vector);
    lemma_byte_at(s, p, w, 1);
    assert(w[1] == c.player_id);
    lemma_byte_at(s, p, w, 2);
    assert(w[2] == c.issuer);
    lemma_field_bytes(s, p, w, 3, 7);
    assert(w.subrange(3, 7) =~= spec_u32_to_le_bytes(c.object_slot()));
    lemma_field_bytes(s, p, w, 7, 9);
    assert(w.subrange(7, 9) =~= spec_u16_to_le_bytes(c.order_type));
    lemma_byte_at(s, p, w, 9);
    assert(w[9] == c.order_priority as u8);
    let prio = c.order_priority;
    assert((prio as u8) as i8 == prio) by (bit_vector);
    lemma_field_bytes(s, p, w, 11, 15);
    assert(w.subrange(11, 15) =~= spec_u32_to_le_bytes(opt32_bits(c.target_id)));
    lemma_byte_at(s, p, w, 15);
    assert(w[15] == c.target_player_byte());
    lemma_field_bytes(s, p, w, 19, 23);
    assert(w.subrange(19, 23) =~= spec_u32_to_le_bytes(c.target_location.x));
    lemma_field_bytes(s, p, w, 23, 27);
    assert(w.subrange(23, 27) =~= spec_u32_to_le_bytes(c.target_location.y));
    lemma_field_bytes(s, p, w, 27, 31);
    assert(w.subrange(27, 31) =~= spec_u32_to_le_bytes(c.target_location.z));
    lemma_field_bytes(s, p, w, 31, 35);
    assert(w.subrange(31, 35) =~= spec_u32_to_le_bytes(c.range));
    lemma_byte_at(s, p, w, 35);
    lemma_byte_at(s, p, w, 36);
    if c.objects.is_marker() {
        lemma_count_sentinel_byte();
        assert(c.objects == ObjectsListView::SameAsLast);
    } else if ids.len() == 1 {
        assert(le32_at(s, p + 3) == ids[0]);
        assert(ObjectsListView::List(seq![le32_at(s, p + 3)]) == ObjectsListView::List(ids)) by {
            assert(seq![le32_at(s, p + 3)] =~= ids);
        };
    } else if ids.len() == 0 {
        assert(crate::objects::complete_ids(s, p + 39, 0) == 0);
        assert(ids_at(s, p + 39, 0) =~= ids);
        assert(c.objects == ObjectsListView::List(ids));
    } else {
        lemma_field_bytes(s, p, w, 39, 39 + 4 * ids.len() as int);
        assert(w.subrange(39, 39 + 4 * ids.len() as int) =~= wire_ids(ids));
        lemma_list_roundtrip(s, p + 39, ids);
        assert(c.objects == ObjectsListView::List(ids));
    }
}

} // verus!
