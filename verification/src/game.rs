//! The nested sub-protocol multiplexed inside one outer opcode: a one-byte
//! sub-opcode followed by two signed 16-bit slots, two bytes of padding, one
//! single-precision slot, and one 32-bit slot — always fifteen bytes after
//! the outer opcode, whatever the sub-opcode. Each known sub-opcode
//! reinterprets a subset of the four generic slots.
use vstd::prelude::*;

use crate::reader::le16_at;
use crate::reader::le32_at;
use crate::reader::lemma_byte_at;
use crate::reader::lemma_field_bytes;
use crate::reader::write_u16_le;
use crate::reader::write_u32_le;
use crate::reader::write_u8;
use crate::reader::write_zeros;
use crate::reader::zero_bytes;
use crate::reader::Reader;
use crate::DecodeError;
use crate::PlayerID;
use vstd::bytes::spec_u16_to_le_bytes;
use vstd::bytes::spec_u32_to_le_bytes;

verus! {

/// Commands affecting the game as a whole.
#[derive(Debug, Clone, Copy, PartialEq)]
pub enum GameCommand {
    /// Change the game speed.
    SetGameSpeed { player_id: PlayerID, speed: u32 },
    /// Not used in game, but implemented.
    Inventory { player_id: PlayerID, attribute_id: i16, amount: u32 },
    /// Not implemented in game.
    UpgradeTown { player_id: PlayerID },
    QuickBuild { player_id: PlayerID },
    AlliedVictory { player_id: PlayerID, status: bool },
    Cheat { player_id: PlayerID, cheat_id: i16 },
    /// Not implemented in game.
    SharedLos { player_id: PlayerID },
    Spies { player_id: PlayerID },
    SetStrategicNumber { player_id: PlayerID, strategic_number: i16, value: i32 },
    /// Appears to be unused.
    Unknown0x0c { player_id: PlayerID },
    AddFarmReseedQueue { player_id: PlayerID, amount: i16 },
    RemoveFarmReseedQueue { player_id: PlayerID, amount: i16 },
    FarmReseedAutoQueue { player_id: PlayerID },
}

impl GameCommand {
    /// The sub-opcode that selects this variant's interpretation.
    pub open spec fn sub_opcode(self) -> u8 {
        match self {
            GameCommand::SetGameSpeed { .. } => 0x01,
            GameCommand::Inventory { .. } => 0x02,
            GameCommand::UpgradeTown { .. } => 0x03,
            GameCommand::QuickBuild { .. } => 0x04,
            GameCommand::AlliedVictory { .. } => 0x05,
            GameCommand::Cheat { .. } => 0x06,
            GameCommand::SharedLos { .. } => 0x07,
            GameCommand::Spies { .. } => 0x0a,
            GameCommand::SetStrategicNumber { .. } => 0x0b,
            GameCommand::Unknown0x0c { .. } => 0x0c,
            GameCommand::AddFarmReseedQueue { .. } => 0x0d,
            GameCommand::RemoveFarmReseedQueue { .. } => 0x0e,
            GameCommand::FarmReseedAutoQueue { .. } => 0x10,
        }
    }

    /// The player the command applies to; every sub-opcode carries one in
    /// the first generic slot.
    pub open spec fn player(self) -> PlayerID {
        match self {
            GameCommand::SetGameSpeed { player_id, .. } => player_id,
            GameCommand::Inventory { player_id, .. } => player_id,
            GameCommand::UpgradeTown { player_id } => player_id,
            GameCommand::QuickBuild { player_id } => player_id,
            GameCommand::AlliedVictory { player_id, .. } => player_id,
            GameCommand::Cheat { player_id, .. } => player_id,
            GameCommand::SharedLos { player_id } => player_id,
            GameCommand::Spies { player_id } => player_id,
            GameCommand::SetStrategicNumber { player_id, .. } => player_id,
            GameCommand::Unknown0x0c { player_id } => player_id,
            GameCommand::AddFarmReseedQueue { player_id, .. } => player_id,
            GameCommand::RemoveFarmReseedQueue { player_id, .. } => player_id,
            GameCommand::FarmReseedAutoQueue { player_id } => player_id,
        }
    }

    /// What this variant stores in the second generic slot.
    pub open spec fn slot2(self) -> u16 {
        match self {
            GameCommand::Inventory { attribute_id, .. } => attribute_id as u16,
            GameCommand::AlliedVictory { status, .. } => if status {
                1u16
            } else {
                0u16
            },
            GameCommand::Cheat { cheat_id, .. } => cheat_id as u16,
            GameCommand::SetStrategicNumber { strategic_number, .. } => strategic_number as u16,
            GameCommand::AddFarmReseedQueue { amount, .. } => amount as u16,
            GameCommand::RemoveFarmReseedQueue { amount, .. } => amount as u16,
            _ => 0u16,
        }
    }

    /// What this variant stores in the single-precision slot.
    pub open spec fn slot3(self) -> u32 {
        match self {
            GameCommand::SetGameSpeed { speed, .. } => speed,
            GameCommand::Inventory { amount, .. } => amount,
            _ => 0u32,
        }
    }

    /// What this variant stores in the last 32-bit slot.
    pub open spec fn slot4(self) -> u32 {
        match self {
            GameCommand::SetStrategicNumber { value, .. } => value as u32,
            _ => 0u32,
        }
    }

    /// A record that the wire shape can carry back out: a strategic-number
    /// value travels as an unsigned word, so it cannot be negative.
    pub open spec fn valid(self) -> bool {
        self matches GameCommand::SetStrategicNumber { value, .. } ==> value >= 0
    }

    /// The bytes of this record after the outer opcode byte.
    pub open spec fn wire(self) -> Seq<u8> {
        seq![self.sub_opcode()] + spec_u16_to_le_bytes(self.player() as u16) + spec_u16_to_le_bytes(
            self.slot2(),
        ) + zero_bytes(2) + spec_u32_to_le_bytes(self.slot3()) + spec_u32_to_le_bytes(self.slot4())
    }

    /// Decode a game record at offset `p`: the record and the bytes it
    /// consumed. An unknown sub-opcode is a hard failure; a player slot
    /// outside the one-byte identifier domain, or a strategic-number word
    /// above the signed range, is a narrowing failure.
    pub open spec fn parse(s: Seq<u8>, p: int) -> Result<(GameCommand, int), DecodeError> {
        if p + 15 > s.len() {
            Err(DecodeError::Truncated)
        } else {
            let sub = s[p];
            let var1 = le16_at(s, p + 1) as i16;
            let var2 = le16_at(s, p + 3) as i16;
            let var3 = le32_at(s, p + 7);
            let var4 = le32_at(s, p + 11);
            if !known_game_sub_opcode(sub) {
                Err(DecodeError::UnknownGameCommand(sub))
            } else if var1 < 0 || var1 > 0xFF {
                Err(DecodeError::BadIdentifier)
            } else if sub == 0x0b && var4 > 0x7FFF_FFFFu32 {
                Err(DecodeError::BadIdentifier)
            } else {
                let player_id = var1 as u8;
                let c = if sub == 0x01 {
                    GameCommand::SetGameSpeed { player_id, speed: var3 }
                } else if sub == 0x02 {
                    GameCommand::Inventory { player_id, attribute_id: var2, amount: var3 }
                } else if sub == 0x03 {
                    GameCommand::UpgradeTown { player_id }
                } else if sub == 0x04 {
                    GameCommand::QuickBuild { player_id }
                } else if sub == 0x05 {
                    GameCommand::AlliedVictory { player_id, status: var2 != 0 }
                } else if sub == 0x06 {
                    GameCommand::Cheat { player_id, cheat_id: var2 }
                } else if sub == 0x07 {
                    GameCommand::SharedLos { player_id }
                } else if sub == 0x0a {
                    GameCommand::Spies { player_id }
                } else if sub == 0x0b {
                    GameCommand::SetStrategicNumber {
                        player_id,
                        strategic_number: var2,
                        value: var4 as i32,
                    }
                } else if sub == 0x0c {
                    GameCommand::Unknown0x0c { player_id }
                } else if sub == 0x0d {
                    GameCommand::AddFarmReseedQueue { player_id, amount: var2 }
                } else if sub == 0x0e {
                    GameCommand::RemoveFarmReseedQueue { player_id, amount: var2 }
                } else {
                    GameCommand::FarmReseedAutoQueue { player_id }
                };
                Ok((c, 15))
            }
        }
    }

    /// Read a Game command from a cursor.
    pub fn read_from(r: &mut Reader) -> (res: Result<GameCommand, DecodeError>)
        requires
            old(r).wf(),
        ensures
            final(r).bytes() == old(r).bytes(),
            final(r).wf(),
            old(r).position() <= final(r).position(),
            match res {
                Ok(c) => Self::parse(old(r).bytes(), old(r).position()) == Ok::<_, DecodeError>(
                    (c, final(r).position() - old(r).position()),
                ),
                Err(e) => Self::parse(old(r).bytes(), old(r).position()) == Err::<
                    (GameCommand, int),
                    _,
                >(e),
            },
    {
        let sub = match r.read_u8() {
            Ok(v) => v,
            Err(e) => return Err(e),
        };
        let var1 = match r.read_u16_le() {
            Ok(v) => v,
            Err(e) => return Err(e),
        } as i16;
        let var2 = match r.read_u16_le() {
            Ok(v) => v,
            Err(e) => return Err(e),
        } as i16;
        let _padding = match r.read_u16_le() {
            Ok(v) => v,
            Err(e) => return Err(e),
        };
        let var3 = match r.read_u32_le() {
            Ok(v) => v,
            Err(e) => return Err(e),
        };
        let var4 = match r.read_u32_le() {
            Ok(v) => v,
            Err(e) => return Err(e),
        };
        let known = sub == 0x01 || sub == 0x02 || sub == 0x03 || sub == 0x04 || sub == 0x05 || sub
            == 0x06 || sub == 0x07 || sub == 0x0a || sub == 0x0b || sub == 0x0c || sub == 0x0d
            || sub == 0x0e || sub == 0x10;
        if !known {
            return Err(DecodeError::UnknownGameCommand(sub));
        }
        if var1 < 0 || var1 > 0xFF {
            return Err(DecodeError::BadIdentifier);
        }
        if sub == 0x0b && var4 > 0x7FFF_FFFFu32 {
            return Err(DecodeError::BadIdentifier);
        }
        let player_id = var1 as u8;
        let c = if sub == 0x01 {
            GameCommand::SetGameSpeed { player_id, speed: var3 }
        } else if sub == 0x02 {
            GameCommand::Inventory { player_id, attribute_id: var2, amount: var3 }
        } else if sub == 0x03 {
            GameCommand::UpgradeTown { player_id }
        } else if sub == 0x04 {
            GameCommand::QuickBuild { player_id }
        } else if sub == 0x05 {
            GameCommand::AlliedVictory { player_id, status: var2 != 0 }
        } else if sub == 0x06 {
            GameCommand::Cheat { player_id, cheat_id: var2 }
        } else if sub == 0x07 {
            GameCommand::SharedLos { player_id }
        } else if sub == 0x0a {
            GameCommand::Spies { player_id }
        } else if sub == 0x0b {
            GameCommand::SetStrategicNumber { player_id, strategic_number: var2, value: var4 as i32 }
        } else if sub == 0x0c {
            GameCommand::Unknown0x0c { player_id }
        } else if sub == 0x0d {
            GameCommand::AddFarmReseedQueue { player_id, amount: var2 }
        } else if sub == 0x0e {
            GameCommand::RemoveFarmReseedQueue { player_id, amount: var2 }
        } else {
            GameCommand::FarmReseedAutoQueue { player_id }
        };
        Ok(c)
    }

    /// Write this Game command to a byte vector.
    pub fn write_to(&self, out: &mut Vec<u8>)
        requires
            self.valid(),
        ensures
            final(out)@ == old(out)@ + self.wire(),
    {
        let (sub, v1, v2, v3, v4): (u8, u16, u16, u32, u32) = match self {
            GameCommand::SetGameSpeed { player_id, speed } => (
                0x01,
                *player_id as u16,
                0,
                *speed,
                0,
            ),
            GameCommand::Inventory { player_id, attribute_id, amount } => (
                0x02,
                *player_id as u16,
                *attribute_id as u16,
                *amount,
                0,
            ),
            GameCommand::UpgradeTown { player_id } => (0x03, *player_id as u16, 0, 0, 0),
            GameCommand::QuickBuild { player_id } => (0x04, *player_id as u16, 0, 0, 0),
            GameCommand::AlliedVictory { player_id, status } => (
                0x05,
                *player_id as u16,
                if *status {
                    1
                } else {
                    0
                },
                0,
                0,
            ),
            GameCommand::Cheat { player_id, cheat_id } => (
                0x06,
                *player_id as u16,
                *cheat_id as u16,
                0,
                0,
            ),
            GameCommand::SharedLos { player_id } => (0x07, *player_id as u16, 0, 0, 0),
            GameCommand::Spies { player_id } => (0x0a, *player_id as u16, 0, 0, 0),
            GameCommand::SetStrategicNumber { player_id, strategic_number, value } => (
                0x0b,
                *player_id as u16,
                *strategic_number as u16,
                0,
                *value as u32,
            ),
            GameCommand::Unknown0x0c { player_id } => (0x0c, *player_id as u16, 0, 0, 0),
            GameCommand::AddFarmReseedQueue { player_id, amount } => (
                0x0d,
                *player_id as u16,
                *amount as u16,
                0,
                0,
            ),
            GameCommand::RemoveFarmReseedQueue { player_id, amount } => (
                0x0e,
                *player_id as u16,
                *amount as u16,
                0,
                0,
            ),
            GameCommand::FarmReseedAutoQueue { player_id } => (0x10, *player_id as u16, 0, 0, 0),
        };
        write_u8(out, sub);
        write_u16_le(out, v1);
        write_u16_le(out, v2);
        write_zeros(out, 2);
        write_u32_le(out, v3);
        write_u32_le(out, v4);
        proof {
            assert(out@ =~= old(out)@ + self.wire());
        }
    }
}

/// Nested-protocol round-trip law: decoding the wire image of any valid
/// record of any known sub-opcode yields the record itself and consumes the
/// whole fifteen-byte image; a byte outside the sub-opcode table is
/// rejected.
pub proof fn lemma_game_roundtrip(s: Seq<u8>, p: int, c: GameCommand)
    requires
        c.valid(),
        0 <= p,
        p + c.wire().len() <= s.len(),
        s.subrange(p, p + c.wire().len() as int) == c.wire(),
    ensures
        GameCommand::parse(s, p) == Ok::<_, DecodeError>((c, c.wire().len() as int)),
{
    vstd::bytes::lemma_auto_spec_u16_to_from_le_bytes();
    vstd::bytes::lemma_auto_spec_u32_to_from_le_bytes();
    let w = c.wire();
    assert(w.len() == 15);
    lemma_byte_at(s, p, w, 0);
    assert(w[0] == c.sub_opcode());
    lemma_field_bytes(s, p, w, 1, 3);
    assert(w.subrange(1, 3) =~= spec_u16_to_le_bytes(c.player() as u16));
    lemma_field_bytes(s, p, w, 3, 5);
    assert(w.subrange(3, 5) =~= spec_u16_to_le_bytes(c.slot2()));
    lemma_field_bytes(s, p, w, 7, 11);
    assert(w.subrange(7, 11) =~= spec_u32_to_le_bytes(c.slot3()));
    lemma_field_bytes(s, p, w, 11, 15);
    assert(w.subrange(11, 15) =~= spec_u32_to_le_bytes(c.slot4()));
    let pl = c.player();
    assert(((pl as u16) as i16) == pl as i16 && (pl as u16) as i16 >= 0 && (pl as u16) as i16
        <= 0xFF && ((pl as u16) as i16) as u8 == pl) by (bit_vector);
    match c {
        GameCommand::Inventory { attribute_id, .. } => {
            let a = attribute_id;
            assert((a as u16) as i16 == a) by (bit_vector);
        },
        GameCommand::Cheat { cheat_id, .. } => {
            let a = cheat_id;
            assert((a as u16) as i16 == a) by (bit_vector);
        },
        GameCommand::SetStrategicNumber { strategic_number, value, .. } => {
            let a = strategic_number;
            assert((a as u16) as i16 == a) by (bit_vector);
            let v = value;
            assert(v >= 0 ==> (v as u32) <= 0x7FFF_FFFFu32 && (v as u32) as i32 == v)
                by (bit_vector);
        },
        GameCommand::AddFarmReseedQueue { amount, .. } => {
            let a = amount;
            assert((a as u16) as i16 == a) by (bit_vector);
        },
        GameCommand::RemoveFarmReseedQueue { amount, .. } => {
            let a = amount;
            assert((a as u16) as i16 == a) by (bit_vector);
        },
        _ => {},
    }
}

/// The rejection half of the nested-protocol law: a sub-opcode byte
/// outside the known table is always rejected, never skipped or guessed
/// at, whatever stands in the generic slots.
pub proof fn lemma_game_unknown_rejected(s: Seq<u8>, p: int)
    requires
        0 <= p,
        p + 15 <= s.len(),
        !known_game_sub_opcode(s[p]),
    ensures
        GameCommand::parse(s, p) == Err::<(GameCommand, int), _>(
            DecodeError::UnknownGameCommand(s[p]),
        ),
{
}

/// Is this byte in the known sub-opcode table?
pub open spec fn known_game_sub_opcode(sub: u8) -> bool {
    ||| sub == 0x01
    ||| sub == 0x02
    ||| sub == 0x03
    ||| sub == 0x04
    ||| sub == 0x05
    ||| sub == 0x06
    ||| sub == 0x07
    ||| sub == 0x0a
    ||| sub == 0x0b
    ||| sub == 0x0c
    ||| sub == 0x0d
    ||| sub == 0x0e
    ||| sub == 0x10
}

} // verus!
