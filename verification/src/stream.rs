//! The outermost decoder: the stream of heterogeneous action records —
//! command frames, elapsed-time markers, synchronization checkpoints,
//! view-lock updates, and chat messages — and the per-record codecs that
//! are not command frames.
use vstd::prelude::*;

use crate::frame::frame_wire;
use crate::frame::lemma_frame_roundtrip;
use crate::frame::parse_frame;
use crate::frame::Command;
use crate::frame::CommandView;
use crate::reader::le32_at;
use crate::reader::lemma_field_bytes;
use crate::reader::write_u32_le;
use crate::reader::write_u8;
use crate::reader::write_zeros;
use crate::reader::zero_bytes;
use crate::reader::Reader;
use crate::DecodeError;
use crate::PlayerID;
use vstd::bytes::spec_u32_to_le_bytes;

verus! {

/// An elapsed-time marker: how far simulation time has advanced.
#[derive(Debug, Default, Clone, Copy, PartialEq, Eq, Structural)]
pub struct Time {
    /// The elapsed time.
    pub time: u32,
    /// A second time word that only much older log layouts carry; always
    /// zero here.
    pub old_world_time: u32,
    /// An uninterpreted word that only much older log layouts carry;
    /// always zero here.
    pub unknown: u32,
}

impl Time {
    /// A marker that the wire shape can carry back out: the fields of the
    /// older layout stay empty.
    pub open spec fn valid(self) -> bool {
        self.old_world_time == 0 && self.unknown == 0
    }

    /// The bytes of this record.
    pub open spec fn wire(self) -> Seq<u8> {
        spec_u32_to_le_bytes(self.time)
    }

    /// Decode an elapsed-time marker at offset `p`.
    pub open spec fn parse(s: Seq<u8>, p: int) -> Result<(Time, int), DecodeError> {
        if p + 4 > s.len() {
            Err(DecodeError::Truncated)
        } else {
            Ok((Time { time: le32_at(s, p), old_world_time: 0, unknown: 0 }, 4))
        }
    }

    /// Read an elapsed-time marker from a cursor.
    pub fn read_from(r: &mut Reader) -> (res: Result<Time, DecodeError>)
        requires
            old(r).wf(),
        ensures
            final(r).bytes() == old(r).bytes(),
            final(r).wf(),
            old(r).position() <= final(r).position(),
            match res {
                Ok(c) => Self::parse(old(r).bytes(), old(r).position()) == Ok::<_, DecodeError>(
                    (c, final(r).position() - old(r).position()),
                ),
                Err(e) => Self::parse(old(r).bytes(), old(r).position()) == Err::<(Time, int), _>(
                    e,
                ),
            },
    {
        let time = match r.read_u32_le() {
            Ok(v) => v,
            Err(e) => return Err(e),
        };
        Ok(Time { time, old_world_time: 0, unknown: 0 })
    }

    /// Write this elapsed-time marker to a byte vector.
    pub fn write_to(&self, out: &mut Vec<u8>)
        requires
            self.valid(),
        ensures
            final(out)@ == old(out)@ + self.wire(),
    {
        write_u32_le(out, self.time);
    }
}

/// Round-trip law for elapsed-time markers.
pub proof fn lemma_time_roundtrip(s: Seq<u8>, p: int, c: Time)
    requires
        c.valid(),
        0 <= p,
        p + c.wire().len() <= s.len(),
        s.subrange(p, p + c.wire().len() as int) == c.wire(),
    ensures
        Time::parse(s, p) == Ok::<_, DecodeError>((c, c.wire().len() as int)),
{
    vstd::bytes::lemma_auto_spec_u32_to_from_le_bytes();
    lemma_field_bytes(s, p, c.wire(), 0, 4);
    assert(c.wire().subrange(0, 4) =~= spec_u32_to_le_bytes(c.time));
}

/// A synchronization checkpoint, used to ensure that all players agree on
/// the game state by comparing checksums and world time.
///
/// When the action checksum is non-zero, the record carries an extra
/// fixed-size block of 332 bytes — a quirk of one engine revision that the
/// codec preserves exactly, since stream alignment depends on it. The
/// block's content is discarded.
#[derive(Debug, Default, Clone, Copy, PartialEq, Eq, Structural)]
pub struct Sync {
    /// The world-state checksum.
    pub checksum: u32,
    /// The position checksum.
    pub position_checksum: u32,
    /// The action checksum; a non-zero value brings the extra block.
    pub action_checksum: u32,
    /// The world time at which the next checkpoint is due.
    pub next_world_time: u32,
}

impl Sync {
    /// Every checkpoint can be re-encoded.
    pub open spec fn valid(self) -> bool {
        true
    }

    /// The bytes of this record: the extra block re-encodes as zeros.
    pub open spec fn wire(self) -> Seq<u8> {
        spec_u32_to_le_bytes(0u32) + spec_u32_to_le_bytes(self.checksum) + spec_u32_to_le_bytes(
            self.position_checksum,
        ) + spec_u32_to_le_bytes(self.action_checksum) + (if self.action_checksum != 0 {
            zero_bytes(332)
        } else {
            Seq::<u8>::empty()
        }) + spec_u32_to_le_bytes(0u32) + spec_u32_to_le_bytes(self.next_world_time)
    }

    /// Decode a checkpoint at offset `p`. An action checksum of zero
    /// consumes no extra block and the whole record is 24 bytes; a
    /// non-zero one consumes exactly 332 extra bytes before the trailing
    /// next-world-time word, 356 in all.
    pub open spec fn parse(s: Seq<u8>, p: int) -> Result<(Sync, int), DecodeError> {
        if p + 16 > s.len() {
            Err(DecodeError::Truncated)
        } else {
            let ac = le32_at(s, p + 12);
            let extra: int = if ac != 0 {
                332
            } else {
                0
            };
            if p + 24 + extra > s.len() {
                Err(DecodeError::Truncated)
            } else {
                Ok(
                    (
                        Sync {
                            checksum: le32_at(s, p + 4),
                            position_checksum: le32_at(s, p + 8),
                            action_checksum: ac,
                            next_world_time: le32_at(s, p + 20 + extra),
                        },
                        24 + extra,
                    ),
                )
            }
        }
    }

    /// Read a checkpoint from a cursor.
    pub fn read_from(r: &mut Reader) -> (res: Result<Sync, DecodeError>)
        requires
            old(r).wf(),
        ensures
            final(r).bytes() == old(r).bytes(),
            final(r).wf(),
            old(r).position() <= final(r).position(),
            match res {
                Ok(c) => Self::parse(old(r).bytes(), old(r).position()) == Ok::<_, DecodeError>(
                    (c, final(r).position() - old(r).position()),
                ),
                Err(e) => Self::parse(old(r).bytes(), old(r).position()) == Err::<(Sync, int), _>(
                    e,
                ),
            },
    {
        let _always_zero = match r.read_u32_le() {
            Ok(v) => v,
            Err(e) => return Err(e),
        };
        let checksum = match r.read_u32_le() {
            Ok(v) => v,
            Err(e) => return Err(e),
        };
        let position_checksum = match r.read_u32_le() {
            Ok(v) => v,
            Err(e) => return Err(e),
        };
        let action_checksum = match r.read_u32_le() {
            Ok(v) => v,
            Err(e) => return Err(e),
        };
        if action_checksum != 0 {
            match r.skip(332) {
                Ok(()) => (),
                Err(e) => return Err(e),
            };
        }
        let _always_zero = match r.read_u32_le() {
            Ok(v) => v,
            Err(e) => return Err(e),
        };
        let next_world_time = match r.read_u32_le() {
            Ok(v) => v,
            Err(e) => return Err(e),
        };
        Ok(Sync { checksum, position_checksum, action_checksum, next_world_time })
    }

    /// Write this checkpoint to a byte vector; a non-zero action checksum
    /// brings the extra block, written as zeros.
    pub fn write_to(&self, out: &mut Vec<u8>)
        requires
            self.valid(),
        ensures
            final(out)@ == old(out)@ + self.wire(),
    {
        write_u32_le(out, 0);
        write_u32_le(out, self.checksum);
        write_u32_le(out, self.position_checksum);
        write_u32_le(out, self.action_checksum);
        if self.action_checksum != 0 {
            write_zeros(out, 332);
        }
        write_u32_le(out, 0);
        write_u32_le(out, self.next_world_time);
        proof {
            assert(out@ =~= old(out)@ + self.wire());
        }
    }
}

/// Round-trip law for synchronization checkpoints, and the alignment quirk
/// stated exactly: a zero action checksum makes the record 24 bytes with
/// no extra block, a non-zero one makes it 356 with exactly 332 extra
/// bytes before the trailing next-world-time word.
pub proof fn lemma_sync_roundtrip(s: Seq<u8>, p: int, c: Sync)
    requires
        c.valid(),
        0 <= p,
        p + c.wire().len() <= s.len(),
        s.subrange(p, p + c.wire().len() as int) == c.wire(),
    ensures
        Sync::parse(s, p) == Ok::<_, DecodeError>((c, c.wire().len() as int)),
        c.action_checksum == 0 ==> c.wire().len() == 24,
        c.action_checksum != 0 ==> c.wire().len() == 356,
{
    vstd::bytes::lemma_auto_spec_u32_to_from_le_bytes();
    let w = c.wire();
    let extra: int = if c.action_checksum != 0 {
        332
    } else {
        0
    };
    assert(w.len() == 24 + extra);
    lemma_field_bytes(s, p, w, 4, 8);
    assert(w.subrange(4, 8) =~= spec_u32_to_le_bytes(c.checksum));
    lemma_field_bytes(s, p, w, 8, 12);
    assert(w.subrange(8, 12) =~= spec_u32_to_le_bytes(c.position_checksum));
    lemma_field_bytes(s, p, w, 12, 16);
    assert(w.subrange(12, 16) =~= spec_u32_to_le_bytes(c.action_checksum));
    lemma_field_bytes(s, p, w, 20 + extra, 24 + extra);
    assert(w.subrange(20 + extra, 24 + extra) =~= spec_u32_to_le_bytes(c.next_world_time));
}

/// A viewpoint update, recording where the player is currently looking.
///
/// This is used for the View Lock feature when watching a game.
#[derive(Debug, Default, Clone, Copy, PartialEq, Eq, Structural)]
pub struct ViewLock {
    /// The X coordinate the player is looking at, as a raw pattern.
    pub x: u32,
    /// The Y coordinate the player is looking at, as a raw pattern.
    pub y: u32,
    /// The ID of the POV player.
    pub player: PlayerID,
}

impl ViewLock {
    /// Every view-lock record can be re-encoded.
    pub open spec fn valid(self) -> bool {
        true
    }

    /// The bytes of this record: the player identifier travels as a full
    /// 32-bit word.
    pub open spec fn wire(self) -> Seq<u8> {
        spec_u32_to_le_bytes(self.x) + spec_u32_to_le_bytes(self.y) + spec_u32_to_le_bytes(
            self.player as u32,
        )
    }

    /// Decode a view-lock record at offset `p`. A player word outside the
    /// one-byte identifier domain is a narrowing failure.
    pub open spec fn parse(s: Seq<u8>, p: int) -> Result<(ViewLock, int), DecodeError> {
        if p + 12 > s.len() {
            Err(DecodeError::Truncated)
        } else if le32_at(s, p + 8) > 0xFF {
            Err(DecodeError::BadIdentifier)
        } else {
            Ok((ViewLock { x: le32_at(s, p), y: le32_at(s, p + 4), player: le32_at(s, p + 8) as u8 }, 12))
        }
    }

    /// Read a view lock action from a cursor.
    pub fn read_from(r: &mut Reader) -> (res: Result<ViewLock, DecodeError>)
        requires
            old(r).wf(),
        ensures
            final(r).bytes() == old(r).bytes(),
            final(r).wf(),
            old(r).position() <= final(r).position(),
            match res {
                Ok(c) => Self::parse(old(r).bytes(), old(r).position()) == Ok::<_, DecodeError>(
                    (c, final(r).position() - old(r).position()),
                ),
                Err(e) => Self::parse(old(r).bytes(), old(r).position()) == Err::<
                    (ViewLock, int),
                    _,
                >(e),
            },
    {
        let x = match r.read_u32_le() {
            Ok(v) => v,
            Err(e) => return Err(e),
        };
        let y = match r.read_u32_le() {
            Ok(v) => v,
            Err(e) => return Err(e),
        };
        let player_word = match r.read_u32_le() {
            Ok(v) => v,
            Err(e) => return Err(e),
        };
        if player_word > 0xFF {
            return Err(DecodeError::BadIdentifier);
        }
        Ok(ViewLock { x, y, player: player_word as u8 })
    }

    /// Write a view lock action to a byte vector.
    pub fn write_to(&self, out: &mut Vec<u8>)
        requires
            self.valid(),
        ensures
            final(out)@ == old(out)@ + self.wire(),
    {
        write_u32_le(out, self.x);
        write_u32_le(out, self.y);
        write_u32_le(out, self.player as u32);
        proof {
            assert(out@ =~= old(out)@ + self.wire());
        }
    }
}

/// Round-trip law for view-lock records.
pub proof fn lemma_view_lock_roundtrip(s: Seq<u8>, p: int, c: ViewLock)
    requires
        c.valid(),
        0 <= p,
        p + c.wire().len() <= s.len(),
        s.subrange(p, p + c.wire().len() as int) == c.wire(),
    ensures
        ViewLock::parse(s, p) == Ok::<_, DecodeError>((c, c.wire().len() as int)),
{
    vstd::bytes::lemma_auto_spec_u32_to_from_le_bytes();
    let w = c.wire();
    assert(w.len() == 12);
    lemma_field_bytes(s, p, w, 0, 4);
    assert(w.subrange(0, 4) =~= spec_u32_to_le_bytes(c.x));
    lemma_field_bytes(s, p, w, 4, 8);
    assert(w.subrange(4, 8) =~= spec_u32_to_le_bytes(c.y));
    lemma_field_bytes(s, p, w, 8, 12);
    assert(w.subrange(8, 12) =~= spec_u32_to_le_bytes(c.player as u32));
}

/// A chat message sent during the game: a guarded all-ones marker, then a
/// length-prefixed run of message bytes. The text's encoding is the
/// caller's concern; this codec carries the bytes bit for bit.
#[derive(Debug, Default, Clone, PartialEq)]
pub struct Chat {
    /// The message bytes.
    pub message: Vec<u8>,
}

/// The mathematical shape of a [`Chat`].
pub struct ChatView {
    pub message: Seq<u8>,
}

impl View for Chat {
    type V = ChatView;

    open spec fn view(&self) -> ChatView {
        ChatView { message: self.message@ }
    }
}

impl ChatView {
    /// A message that the 32-bit length prefix can carry.
    pub open spec fn valid(self) -> bool {
        self.message.len() <= 0xFFFF_FFFF
    }

    /// The bytes of this record.
    pub open spec fn wire(self) -> Seq<u8> {
        spec_u32_to_le_bytes(0xFFFF_FFFFu32) + spec_u32_to_le_bytes(self.message.len() as u32)
            + self.message
    }

    /// Decode a chat record at offset `p`. A leading marker that is not
    /// the all-ones pattern is corrupt input.
    pub open spec fn parse(s: Seq<u8>, p: int) -> Result<(ChatView, int), DecodeError> {
        if p + 4 > s.len() {
            Err(DecodeError::Truncated)
        } else if le32_at(s, p) != 0xFFFF_FFFFu32 {
            Err(DecodeError::BadMarker)
        } else if p + 8 > s.len() {
            Err(DecodeError::Truncated)
        } else {
            let n = le32_at(s, p + 4) as int;
            if p + 8 + n > s.len() {
                Err(DecodeError::Truncated)
            } else {
                Ok((ChatView { message: s.subrange(p + 8, p + 8 + n) }, 8 + n))
            }
        }
    }
}

impl Chat {
    /// Read a chat record from a cursor.
    pub fn read_from(r: &mut Reader) -> (res: Result<Chat, DecodeError>)
        requires
            old(r).wf(),
        ensures
            final(r).bytes() == old(r).bytes(),
            final(r).wf(),
            old(r).position() <= final(r).position(),
            match res {
                Ok(c) => ChatView::parse(old(r).bytes(), old(r).position()) == Ok::<
                    _,
                    DecodeError,
                >((c@, final(r).position() - old(r).position())),
                Err(e) => ChatView::parse(old(r).bytes(), old(r).position()) == Err::<
                    (ChatView, int),
                    _,
                >(e),
            },
    {
        let marker = match r.read_u32_le() {
            Ok(v) => v,
            Err(e) => return Err(e),
        };
        if marker != 0xFFFF_FFFFu32 {
            return Err(DecodeError::BadMarker);
        }
        let n = match r.read_u32_le() {
            Ok(v) => v,
            Err(e) => return Err(e),
        };
        let message = match r.read_bytes(n as usize) {
            Ok(v) => v,
            Err(e) => return Err(e),
        };
        Ok(Chat { message })
    }

    /// Write this chat record to a byte vector.
    pub fn write_to(&self, out: &mut Vec<u8>)
        requires
            self@.valid(),
        ensures
            final(out)@ == old(out)@ + self@.wire(),
    {
        write_u32_le(out, 0xFFFF_FFFFu32);
        write_u32_le(out, self.message.len() as u32);
        let ghost base = out@;
        let mut i: usize = 0;
        while i < self.message.len()
            invariant
                i <= self.message@.len(),
                out@ == base + self.message@.take(i as int),
            decreases self.message@.len() - i,
        {
            write_u8(out, self.message[i]);
            proof {
                assert(out@ =~= base + self.message@.take(i + 1 as int));
            }
            i = i + 1;
        }
        proof {
            assert(self.message@.take(self.message@.len() as int) =~= self.message@);
            assert(out@ =~= old(out)@ + self@.wire());
        }
    }
}

/// Round-trip law for chat records.
pub proof fn lemma_chat_roundtrip(s: Seq<u8>, p: int, c: ChatView)
    requires
        c.valid(),
        0 <= p,
        p + c.wire().len() <= s.len(),
        s.subrange(p, p + c.wire().len() as int) == c.wire(),
    ensures
        ChatView::parse(s, p) == Ok::<_, DecodeError>((c, c.wire().len() as int)),
{
    vstd::bytes::lemma_auto_spec_u32_to_from_le_bytes();
    let w = c.wire();
    let n = c.message.len() as int;
    assert(w.len() == 8 + n);
    lemma_field_bytes(s, p, w, 0, 4);
    assert(w.subrange(0, 4) =~= spec_u32_to_le_bytes(0xFFFF_FFFFu32));
    lemma_field_bytes(s, p, w, 4, 8);
    assert(w.subrange(4, 8) =~= spec_u32_to_le_bytes(c.message.len() as u32));
    lemma_field_bytes(s, p, w, 8, 8 + n);
    assert(w.subrange(8, 8 + n) =~= c.message);
}

/// Settings read at the start of the action log that affect how the rest
/// of the stream is framed.
#[derive(Debug, Default, Clone, Copy, PartialEq)]
pub struct Meta {
    /// The version of the action log format, where the layout carries one.
    pub log_version: Option<u32>,
    /// How often synchronization checkpoints appear.
    pub checksum_interval: u32,
    /// Whether the game was played over the network.
    pub is_multiplayer: bool,
    /// Whether records carry sequence numbers.
    pub use_sequence_numbers: bool,
    /// The player the log was recorded by.
    pub local_player_id: PlayerID,
    /// The file position of the header.
    pub header_position: u32,
    /// The amount of saved chapters, where the layout carries one.
    pub num_chapters: Option<u32>,
}

impl Meta {
    /// The bytes of the chunk that all layouts share.
    pub open spec fn wire_inner(self) -> Seq<u8> {
        spec_u32_to_le_bytes(self.checksum_interval) + spec_u32_to_le_bytes(
            if self.is_multiplayer {
                1u32
            } else {
                0u32
            },
        ) + spec_u32_to_le_bytes(self.local_player_id as u32) + spec_u32_to_le_bytes(
            self.header_position,
        ) + spec_u32_to_le_bytes(
            if self.use_sequence_numbers {
                1u32
            } else {
                0u32
            },
        )
    }

    /// Decode the chunk that all layouts share. A local-player word
    /// outside the one-byte identifier domain is a narrowing failure.
    pub open spec fn parse_inner(s: Seq<u8>, p: int) -> Result<(Meta, int), DecodeError> {
        if p + 12 > s.len() {
            Err(DecodeError::Truncated)
        } else if le32_at(s, p + 8) > 0xFF {
            Err(DecodeError::BadIdentifier)
        } else if p + 20 > s.len() {
            Err(DecodeError::Truncated)
        } else {
            Ok(
                (
                    Meta {
                        log_version: None,
                        checksum_interval: le32_at(s, p),
                        is_multiplayer: le32_at(s, p + 4) != 0,
                        local_player_id: le32_at(s, p + 8) as u8,
                        header_position: le32_at(s, p + 12),
                        use_sequence_numbers: le32_at(s, p + 16) != 0,
                        num_chapters: None,
                    },
                    20,
                ),
            )
        }
    }

    /// Metadata that the older layout can carry back out: it has no place
    /// for a log version or a chapter count.
    pub open spec fn valid_mgl(self) -> bool {
        self.log_version is None && self.num_chapters is None
    }

    /// The bytes of the older layout: the shared chunk, then an
    /// uninterpreted sixteen-byte tail that re-encodes as zeros.
    pub open spec fn wire_mgl(self) -> Seq<u8> {
        self.wire_inner() + zero_bytes(16)
    }

    /// Decode the older layout at offset `p`.
    pub open spec fn parse_mgl(s: Seq<u8>, p: int) -> Result<(Meta, int), DecodeError> {
        match Self::parse_inner(s, p) {
            Err(e) => Err(e),
            Ok((m, _)) => {
                if p + 36 > s.len() {
                    Err(DecodeError::Truncated)
                } else {
                    Ok((m, 36))
                }
            },
        }
    }

    /// Metadata that the newer layout can carry back out: a known log
    /// version, and a chapter count exactly when the version stores one.
    pub open spec fn valid_mgx(self) -> bool {
        &&& (self.log_version matches Some(v) && (v == 3 || v == 4 || v == 5))
        &&& (self.log_version matches Some(v) && v == 5 ==> self.num_chapters is None)
        &&& (self.log_version matches Some(v) && v != 5 ==> self.num_chapters is Some)
    }

    /// The bytes of the newer layout: a version word, the shared chunk,
    /// then either the chapter count or eight uninterpreted bytes that
    /// re-encode as zeros.
    pub open spec fn wire_mgx(self) -> Seq<u8> {
        let lv = match self.log_version {
            Some(v) => v,
            None => 0,
        };
        spec_u32_to_le_bytes(lv) + self.wire_inner() + (if lv == 5 {
            zero_bytes(8)
        } else {
            spec_u32_to_le_bytes(
                match self.num_chapters {
                    Some(n) => n,
                    None => 0,
                },
            )
        })
    }

    /// Decode the newer layout at offset `p`. A version outside the known
    /// set is corrupt input.
    pub open spec fn parse_mgx(s: Seq<u8>, p: int) -> Result<(Meta, int), DecodeError> {
        if p + 4 > s.len() {
            Err(DecodeError::Truncated)
        } else {
            let lv = le32_at(s, p);
            if !(lv == 3 || lv == 4 || lv == 5) {
                Err(DecodeError::BadMarker)
            } else {
                match Self::parse_inner(s, p + 4) {
                    Err(e) => Err(e),
                    Ok((m, _)) => {
                        if lv == 5 {
                            if p + 32 > s.len() {
                                Err(DecodeError::Truncated)
                            } else {
                                Ok((Meta { log_version: Some(lv), ..m }, 32))
                            }
                        } else {
                            if p + 28 > s.len() {
                                Err(DecodeError::Truncated)
                            } else {
                                Ok(
                                    (
                                        Meta {
                                            log_version: Some(lv),
                                            num_chapters: Some(le32_at(s, p + 24)),
                                            ..m
                                        },
                                        28,
                                    ),
                                )
                            }
                        }
                    },
                }
            }
        }
    }

    /// Read the chunk of metadata that all layouts share.
    fn read_from_inner(r: &mut Reader) -> (res: Result<Meta, DecodeError>)
        requires
            old(r).wf(),
        ensures
            final(r).bytes() == old(r).bytes(),
            final(r).wf(),
            old(r).position() <= final(r).position(),
            match res {
                Ok(c) => Self::parse_inner(old(r).bytes(), old(r).position()) == Ok::<
                    _,
                    DecodeError,
                >((c, final(r).position() - old(r).position())),
                Err(e) => Self::parse_inner(old(r).bytes(), old(r).position()) == Err::<
                    (Meta, int),
                    _,
                >(e),
            },
    {
        let checksum_interval = match r.read_u32_le() {
            Ok(v) => v,
            Err(e) => return Err(e),
        };
        let multiplayer_word = match r.read_u32_le() {
            Ok(v) => v,
            Err(e) => return Err(e),
        };
        let player_word = match r.read_u32_le() {
            Ok(v) => v,
            Err(e) => return Err(e),
        };
        if player_word > 0xFF {
            return Err(DecodeError::BadIdentifier);
        }
        let header_position = match r.read_u32_le() {
            Ok(v) => v,
            Err(e) => return Err(e),
        };
        let seq_word = match r.read_u32_le() {
            Ok(v) => v,
            Err(e) => return Err(e),
        };
        Ok(Meta {
            log_version: None,
            checksum_interval,
            is_multiplayer: multiplayer_word != 0,
            local_player_id: player_word as u8,
            header_position,
            use_sequence_numbers: seq_word != 0,
            num_chapters: None,
        })
    }

    /// Read metadata in the older format.
    pub fn read_from_mgl(r: &mut Reader) -> (res: Result<Meta, DecodeError>)
        requires
            old(r).wf(),
        ensures
            final(r).bytes() == old(r).bytes(),
            final(r).wf(),
            old(r).position() <= final(r).position(),
            match res {
                Ok(c) => Self::parse_mgl(old(r).bytes(), old(r).position()) == Ok::<
                    _,
                    DecodeError,
                >((c, final(r).position() - old(r).position())),
                Err(e) => Self::parse_mgl(old(r).bytes(), old(r).position()) == Err::<
                    (Meta, int),
                    _,
                >(e),
            },
    {
        let meta = match Self::read_from_inner(r) {
            Ok(v) => v,
            Err(e) => return Err(e),
        };
        let _exe_file_size = match r.read_u64_le() {
            Ok(v) => v,
            Err(e) => return Err(e),
        };
        let _unknown = match r.read_u32_le() {
            Ok(v) => v,
            Err(e) => return Err(e),
        };
        let _unknown = match r.read_u32_le() {
            Ok(v) => v,
            Err(e) => return Err(e),
        };
        Ok(meta)
    }

    /// Read metadata in the newer format.
    pub fn read_from_mgx(r: &mut Reader) -> (res: Result<Meta, DecodeError>)
        requires
            old(r).wf(),
        ensures
            final(r).bytes() == old(r).bytes(),
            final(r).wf(),
            old(r).position() <= final(r).position(),
            match res {
                Ok(c) => Self::parse_mgx(old(r).bytes(), old(r).position()) == Ok::<
                    _,
                    DecodeError,
                >((c, final(r).position() - old(r).position())),
                Err(e) => Self::parse_mgx(old(r).bytes(), old(r).position()) == Err::<
                    (Meta, int),
                    _,
                >(e),
            },
    {
        let log_version = match r.read_u32_le() {
            Ok(v) => v,
            Err(e) => return Err(e),
        };
        if !(log_version == 3 || log_version == 4 || log_version == 5) {
            return Err(DecodeError::BadMarker);
        }
        let mut meta = match Self::read_from_inner(r) {
            Ok(v) => v,
            Err(e) => return Err(e),
        };
        meta.log_version = Some(log_version);
        if log_version == 5 {
            let _unknown = match r.read_u32_le() {
                Ok(v) => v,
                Err(e) => return Err(e),
            };
            let _unknown = match r.read_u32_le() {
                Ok(v) => v,
                Err(e) => return Err(e),
            };
        } else {
            let num_chapters = match r.read_u32_le() {
                Ok(v) => v,
                Err(e) => return Err(e),
            };
            meta.num_chapters = Some(num_chapters);
        }
        Ok(meta)
    }

    /// Write metadata in the older format.
    pub fn write_to_mgl(&self, out: &mut Vec<u8>)
        requires
            self.valid_mgl(),
        ensures
            final(out)@ == old(out)@ + self.wire_mgl(),
    {
        self.write_inner(out);
        write_zeros(out, 16);
        proof {
            assert(out@ =~= old(out)@ + self.wire_mgl());
        }
    }

    /// Write metadata in the newer format.
    pub fn write_to_mgx(&self, out: &mut Vec<u8>)
        requires
            self.valid_mgx(),
        ensures
            final(out)@ == old(out)@ + self.wire_mgx(),
    {
        let lv: u32 = match self.log_version {
            Some(v) => v,
            None => 0,
        };
        write_u32_le(out, lv);
        self.write_inner(out);
        if lv == 5 {
            write_zeros(out, 8);
        } else {
            let nc: u32 = match self.num_chapters {
                Some(n) => n,
                None => 0,
            };
            write_u32_le(out, nc);
        }
        proof {
            assert(out@ =~= old(out)@ + self.wire_mgx());
        }
    }

    /// Write the chunk of metadata that all layouts share.
    fn write_inner(&self, out: &mut Vec<u8>)
        ensures
            final(out)@ == old(out)@ + self.wire_inner(),
    {
        write_u32_le(out, self.checksum_interval);
        write_u32_le(
            out,
            if self.is_multiplayer {
                1
            } else {
                0
            },
        );
        write_u32_le(out, self.local_player_id as u32);
        write_u32_le(out, self.header_position);
        write_u32_le(
            out,
            if self.use_sequence_numbers {
                1
            } else {
                0
            },
        );
        proof {
            assert(out@ =~= old(out)@ + self.wire_inner());
        }
    }
}

/// Round-trip law for metadata, in both layouts.
pub proof fn lemma_meta_roundtrip(s: Seq<u8>, p: int, c: Meta)
    requires
        0 <= p,
    ensures
        c.valid_mgl() && p + c.wire_mgl().len() <= s.len() && s.subrange(
            p,
            p + c.wire_mgl().len() as int,
        ) == c.wire_mgl() ==> Meta::parse_mgl(s, p) == Ok::<_, DecodeError>(
            (c, c.wire_mgl().len() as int),
        ),
        c.valid_mgx() && p + c.wire_mgx().len() <= s.len() && s.subrange(
            p,
            p + c.wire_mgx().len() as int,
        ) == c.wire_mgx() ==> Meta::parse_mgx(s, p) == Ok::<_, DecodeError>(
            (c, c.wire_mgx().len() as int),
        ),
{
    vstd::bytes::lemma_auto_spec_u32_to_from_le_bytes();
    if c.valid_mgl() && p + c.wire_mgl().len() <= s.len() && s.subrange(
        p,
        p + c.wire_mgl().len() as int,
    ) == c.wire_mgl() {
        let w = c.wire_mgl();
        assert(w.len() == 36);
        lemma_field_bytes(s, p, w, 0, 4);
        assert(w.subrange(0, 4) =~= spec_u32_to_le_bytes(c.checksum_interval));
        lemma_field_bytes(s, p, w, 4, 8);
        assert(w.subrange(4, 8) =~= spec_u32_to_le_bytes(
            if c.is_multiplayer {
                1u32
            } else {
                0u32
            },
        ));
        lemma_field_bytes(s, p, w, 8, 12);
        assert(w.subrange(8, 12) =~= spec_u32_to_le_bytes(c.local_player_id as u32));
        lemma_field_bytes(s, p, w, 12, 16);
        assert(w.subrange(12, 16) =~= spec_u32_to_le_bytes(c.header_position));
        lemma_field_bytes(s, p, w, 16, 20);
        assert(w.subrange(16, 20) =~= spec_u32_to_le_bytes(
            if c.use_sequence_numbers {
                1u32
            } else {
                0u32
            },
        ));
    }
    if c.valid_mgx() && p + c.wire_mgx().len() <= s.len() && s.subrange(
        p,
        p + c.wire_mgx().len() as int,
    ) == c.wire_mgx() {
        let w = c.wire_mgx();
        let lv = match c.log_version {
            Some(v) => v,
            None => 0u32,
        };
        assert(w.len() == if lv == 5 {
            32int
        } else {
            28int
        });
        lemma_field_bytes(s, p, w, 0, 4);
        assert(w.subrange(0, 4) =~= spec_u32_to_le_bytes(lv));
        lemma_field_bytes(s, p, w, 4, 8);
        assert(w.subrange(4, 8) =~= spec_u32_to_le_bytes(c.checksum_interval));
        lemma_field_bytes(s, p, w, 8, 12);
        assert(w.subrange(8, 12) =~= spec_u32_to_le_bytes(
            if c.is_multiplayer {
                1u32
            } else {
                0u32
            },
        ));
        lemma_field_bytes(s, p, w, 12, 16);
        assert(w.subrange(12, 16) =~= spec_u32_to_le_bytes(c.local_player_id as u32));
        lemma_field_bytes(s, p, w, 16, 20);
        assert(w.subrange(16, 20) =~= spec_u32_to_le_bytes(c.header_position));
        lemma_field_bytes(s, p, w, 20, 24);
        assert(w.subrange(20, 24) =~= spec_u32_to_le_bytes(
            if c.use_sequence_numbers {
                1u32
            } else {
                0u32
            },
        ));
        if lv != 5 {
            let nc = match c.num_chapters {
                Some(n) => n,
                None => 0u32,
            };
            lemma_field_bytes(s, p, w, 24, 28);
            assert(w.subrange(24, 28) =~= spec_u32_to_le_bytes(nc));
        }
    }
}

/// One decoded element of the outer stream.
#[derive(Debug, Clone, PartialEq)]
pub enum Action {
    /// A command frame.
    Command(Command),
    /// An elapsed-time marker.
    Time(Time),
    /// A synchronization checkpoint.
    Sync(Sync),
    /// A view-lock update.
    ViewLock(ViewLock),
    /// A chat message.
    Chat(Chat),
}

/// The mathematical shape of an [`Action`].
pub enum ActionView {
    Command(CommandView),
    Time(Time),
    Sync(Sync),
    ViewLock(ViewLock),
    Chat(ChatView),
}

impl View for Action {
    type V = ActionView;

    open spec fn view(&self) -> ActionView {
        match self {
            Action::Command(c) => ActionView::Command(c@),
            Action::Time(t) => ActionView::Time(*t),
            Action::Sync(sy) => ActionView::Sync(*sy),
            Action::ViewLock(v) => ActionView::ViewLock(*v),
            Action::Chat(c) => ActionView::Chat(c@),
        }
    }
}

impl ActionView {
    /// An action that the wire shape can carry back out.
    pub open spec fn valid(self) -> bool {
        match self {
            ActionView::Command(c) => c.valid(),
            ActionView::Time(t) => t.valid(),
            ActionView::Sync(sy) => sy.valid(),
            ActionView::ViewLock(v) => v.valid(),
            ActionView::Chat(c) => c.valid(),
        }
    }

    /// An action whose decoded image is itself: every valid action, except
    /// that a command frame must be lossless in its own right.
    pub open spec fn lossless(self) -> bool {
        match self {
            ActionView::Command(c) => c.lossless(),
            _ => self.valid(),
        }
    }

    /// The discriminant word that selects this record kind.
    pub open spec fn kind(self) -> u32 {
        match self {
            ActionView::Command(_) => 1,
            ActionView::Time(_) => 2,
            ActionView::Sync(_) => 2,
            ActionView::ViewLock(_) => 3,
            ActionView::Chat(_) => 4,
        }
    }

    /// The bytes of one whole stream record. A command frame carries the
    /// world time that closes it.
    pub open spec fn wire(self, world_time: u32) -> Seq<u8> {
        spec_u32_to_le_bytes(self.kind()) + (match self {
            ActionView::Command(c) => frame_wire(c, world_time),
            ActionView::Time(t) => t.wire(),
            ActionView::Sync(sy) => sy.wire(),
            ActionView::ViewLock(v) => v.wire(),
            ActionView::Chat(c) => c.wire(),
        })
    }
}

/// Decode one stream record at offset `p`. The discriminant word selects
/// the record kind; one discriminant is shared between plain elapsed-time
/// markers and full synchronization checkpoints, and which of the two is
/// due is context the stream's consumer tracks (from the metadata's
/// checksum interval), handed in as `sync_due`.
pub open spec fn parse_action(s: Seq<u8>, p: int, sync_due: bool) -> Result<
    (ActionView, int),
    DecodeError,
> {
    if p + 4 > s.len() {
        Err(DecodeError::Truncated)
    } else {
        let k = le32_at(s, p);
        if k == 1 {
            match parse_frame(s, p + 4) {
                Ok((c, used)) => Ok((ActionView::Command(c), 4 + used)),
                Err(e) => Err(e),
            }
        } else if k == 2 {
            if sync_due {
                match Sync::parse(s, p + 4) {
                    Ok((c, used)) => Ok((ActionView::Sync(c), 4 + used)),
                    Err(e) => Err(e),
                }
            } else {
                match Time::parse(s, p + 4) {
                    Ok((c, used)) => Ok((ActionView::Time(c), 4 + used)),
                    Err(e) => Err(e),
                }
            }
        } else if k == 3 {
            match ViewLock::parse(s, p + 4) {
                Ok((c, used)) => Ok((ActionView::ViewLock(c), 4 + used)),
                Err(e) => Err(e),
            }
        } else if k == 4 {
            match ChatView::parse(s, p + 4) {
                Ok((c, used)) => Ok((ActionView::Chat(c), 4 + used)),
                Err(e) => Err(e),
            }
        } else {
            Err(DecodeError::UnknownActionKind(k))
        }
    }
}

impl Action {
    /// Read one stream record from a cursor; `sync_due` says whether the
    /// shared discriminant means a synchronization checkpoint here rather
    /// than a plain elapsed-time marker.
    pub fn read_from(r: &mut Reader, sync_due: bool) -> (res: Result<Action, DecodeError>)
        requires
            old(r).wf(),
        ensures
            final(r).bytes() == old(r).bytes(),
            final(r).wf(),
            old(r).position() <= final(r).position(),
            match res {
                Ok(c) => parse_action(old(r).bytes(), old(r).position(), sync_due) == Ok::<
                    _,
                    DecodeError,
                >((c@, final(r).position() - old(r).position())),
                Err(e) => parse_action(old(r).bytes(), old(r).position(), sync_due) == Err::<
                    (ActionView, int),
                    _,
                >(e),
            },
    {
        let k = match r.read_u32_le() {
            Ok(v) => v,
            Err(e) => return Err(e),
        };
        if k == 1 {
            match Command::read_from(r) {
                Ok(c) => Ok(Action::Command(c)),
                Err(e) => Err(e),
            }
        } else if k == 2 {
            if sync_due {
                match Sync::read_from(r) {
                    Ok(c) => Ok(Action::Sync(c)),
                    Err(e) => Err(e),
                }
            } else {
                match Time::read_from(r) {
                    Ok(c) => Ok(Action::Time(c)),
                    Err(e) => Err(e),
                }
            }
        } else if k == 3 {
            match ViewLock::read_from(r) {
                Ok(c) => Ok(Action::ViewLock(c)),
                Err(e) => Err(e),
            }
        } else if k == 4 {
            match Chat::read_from(r) {
                Ok(c) => Ok(Action::Chat(c)),
                Err(e) => Err(e),
            }
        } else {
            Err(DecodeError::UnknownActionKind(k))
        }
    }

    /// Write one stream record to a byte vector; `world_time` closes a
    /// command frame and is ignored for every other record kind.
    pub fn write_to(&self, out: &mut Vec<u8>, world_time: u32)
        requires
            self@.valid(),
        ensures
            final(out)@ == old(out)@ + self@.wire(world_time),
    {
        match self {
            Action::Command(c) => {
                write_u32_le(out, 1);
                c.write_to(out, world_time);
            },
            Action::Time(t) => {
                write_u32_le(out, 2);
                t.write_to(out);
            },
            Action::Sync(sy) => {
                write_u32_le(out, 2);
                sy.write_to(out);
            },
            Action::ViewLock(v) => {
                write_u32_le(out, 3);
                v.write_to(out);
            },
            Action::Chat(c) => {
                write_u32_le(out, 4);
                c.write_to(out);
            },
        };
        proof {
            assert(out@ =~= old(out)@ + self@.wire(world_time));
        }
    }
}

/// Round-trip law for the whole stream layer: decoding the wire image of
/// any valid record, with the consumer's sync context matching the record,
/// yields the record itself and consumes its whole image.
pub proof fn lemma_action_roundtrip(av: ActionView, world_time: u32, sync_due: bool)
    requires
        av.lossless(),
        av is Sync ==> sync_due,
        av is Time ==> !sync_due,
    ensures
        parse_action(av.wire(world_time), 0, sync_due) == Ok::<_, DecodeError>(
            (av, av.wire(world_time).len() as int),
        ),
{
    vstd::bytes::lemma_auto_spec_u32_to_from_le_bytes();
    let w = av.wire(world_time);
    assert(w.subrange(0, 4) =~= spec_u32_to_le_bytes(av.kind()));
    assert(le32_at(w, 0) == av.kind());
    match av {
        ActionView::Command(c) => {
            lemma_frame_roundtrip(c, world_time);
            let f = frame_wire(c, world_time);
            assert(w.subrange(4, 4 + f.len() as int) =~= f);
            lemma_field_bytes(w, 4, f, 0, 4);
            lemma_field_bytes(w, 4, f, 4, 4 + c.wire().len() as int);
            crate::frame::lemma_frame_bound(w, 4, f, 0);
        },
        ActionView::Time(t) => {
            assert(w.subrange(4, 4 + t.wire().len() as int) =~= t.wire());
            lemma_time_roundtrip(w, 4, t);
        },
        ActionView::Sync(sy) => {
            assert(w.subrange(4, 4 + sy.wire().len() as int) =~= sy.wire());
            lemma_sync_roundtrip(w, 4, sy);
        },
        ActionView::ViewLock(v) => {
            assert(w.subrange(4, 4 + v.wire().len() as int) =~= v.wire());
            lemma_view_lock_roundtrip(w, 4, v);
        },
        ActionView::Chat(c) => {
            assert(w.subrange(4, 4 + c.wire().len() as int) =~= c.wire());
            lemma_chat_roundtrip(w, 4, c);
        },
    }
}

} // verus!
