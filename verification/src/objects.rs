//! Shared wire conventions: optional-value sentinels and the count-prefixed
//! object reference list, together with their byte-level models and the laws
//! that the rest of the codec relies on.
use vstd::prelude::*;

use crate::reader::le32_at;
use crate::reader::write_u16_le;
use crate::reader::write_u32_le;
use crate::reader::Reader;
use crate::DecodeError;
use vstd::bytes::spec_u16_to_le_bytes;
use vstd::bytes::spec_u32_to_le_bytes;

verus! {

/// The 32-bit pattern meaning "value absent".
pub open spec fn opt32_of(x: u32) -> Option<u32> {
    if x == 0xFFFF_FFFFu32 {
        None
    } else {
        Some(x)
    }
}

/// The 32-bit word that carries an optional value: the sentinel for `None`.
pub open spec fn opt32_bits(o: Option<u32>) -> u32 {
    match o {
        None => 0xFFFF_FFFFu32,
        Some(v) => v,
    }
}

/// An optional 32-bit value that the sentinel convention can carry.
pub open spec fn opt32_valid(o: Option<u32>) -> bool {
    o matches Some(v) ==> v != 0xFFFF_FFFFu32
}

/// The 16-bit pattern meaning "value absent".
pub open spec fn opt16_of(x: u16) -> Option<u16> {
    if x == 0xFFFFu16 {
        None
    } else {
        Some(x)
    }
}

/// The 16-bit word that carries an optional value: the sentinel for `None`.
pub open spec fn opt16_bits(o: Option<u16>) -> u16 {
    match o {
        None => 0xFFFFu16,
        Some(v) => v,
    }
}

/// An optional 16-bit value that the sentinel convention can carry.
pub open spec fn opt16_valid(o: Option<u16>) -> bool {
    o matches Some(v) ==> v != 0xFFFFu16
}

/// Sentinel law: encoding `None` always emits the all-ones pattern, decoding
/// the all-ones pattern always yields `None`, and any value the convention
/// can carry survives the round trip; the same holds for the 16-bit pair.
pub proof fn lemma_sentinel_roundtrip(o32: Option<u32>, o16: Option<u16>)
    ensures
        opt32_bits(None::<u32>) == 0xFFFF_FFFFu32,
        opt32_of(0xFFFF_FFFFu32) == None::<u32>,
        opt32_valid(o32) ==> opt32_of(opt32_bits(o32)) == o32,
        opt16_bits(None::<u16>) == 0xFFFFu16,
        opt16_of(0xFFFFu16) == None::<u16>,
        opt16_valid(o16) ==> opt16_of(opt16_bits(o16)) == o16,
{
}

/// Read an optional 32-bit value: four bytes, all-ones meaning `None`.
pub fn read_opt_u32(r: &mut Reader) -> (res: Result<Option<u32>, DecodeError>)
    requires
        old(r).wf(),
    ensures
        final(r).bytes() == old(r).bytes(),
        final(r).wf(),
        match res {
            Ok(o) => {
                &&& old(r).position() + 4 <= old(r).bytes().len()
                &&& final(r).position() == old(r).position() + 4
                &&& o == opt32_of(le32_at(old(r).bytes(), old(r).position()))
            },
            Err(e) => {
                &&& e == DecodeError::Truncated
                &&& old(r).position() + 4 > old(r).bytes().len()
                &&& final(r).position() == old(r).position()
            },
        },
{
    let v = match r.read_u32_le() {
        Ok(v) => v,
        Err(e) => {
            return Err(e);
        },
    };
    if v == 0xFFFF_FFFFu32 {
        Ok(None)
    } else {
        Ok(Some(v))
    }
}

/// Write an optional 32-bit value: the sentinel for `None`.
pub fn write_opt_u32(out: &mut Vec<u8>, o: Option<u32>)
    ensures
        final(out)@ == old(out)@ + spec_u32_to_le_bytes(opt32_bits(o)),
{
    match o {
        None => write_u32_le(out, 0xFFFF_FFFFu32),
        Some(v) => write_u32_le(out, v),
    }
}

/// Read an optional 16-bit value: two bytes, all-ones meaning `None`.
pub fn read_opt_u16(r: &mut Reader) -> (res: Result<Option<u16>, DecodeError>)
    requires
        old(r).wf(),
    ensures
        final(r).bytes() == old(r).bytes(),
        final(r).wf(),
        match res {
            Ok(o) => {
                &&& old(r).position() + 2 <= old(r).bytes().len()
                &&& final(r).position() == old(r).position() + 2
                &&& o == opt16_of(crate::reader::le16_at(old(r).bytes(), old(r).position()))
            },
            Err(e) => {
                &&& e == DecodeError::Truncated
                &&& old(r).position() + 2 > old(r).bytes().len()
                &&& final(r).position() == old(r).position()
            },
        },
{
    let v = match r.read_u16_le() {
        Ok(v) => v,
        Err(e) => {
            return Err(e);
        },
    };
    if v == 0xFFFFu16 {
        Ok(None)
    } else {
        Ok(Some(v))
    }
}

/// Write an optional 16-bit value: the sentinel for `None`.
pub fn write_opt_u16(out: &mut Vec<u8>, o: Option<u16>)
    ensures
        final(out)@ == old(out)@ + spec_u16_to_le_bytes(opt16_bits(o)),
{
    match o {
        None => write_u16_le(out, 0xFFFFu16),
        Some(v) => write_u16_le(out, v),
    }
}

/// An object identifier that contexts transmitting it as a signed 32-bit
/// value can carry.
pub open spec fn id_in_range(x: u32) -> bool {
    x < 0x8000_0000u32
}

/// The object identifiers laid out one after the other from offset `p`.
pub open spec fn ids_at(s: Seq<u8>, p: int, n: int) -> Seq<u32> {
    Seq::new(n as nat, |j: int| le32_at(s, p + 4 * j))
}

/// All of the first `n` identifiers at offset `p` are in the valid domain.
pub open spec fn ids_ok(s: Seq<u8>, p: int, n: int) -> bool {
    forall|j: int| 0 <= j < n ==> id_in_range(#[trigger] ids_at(s, p, n)[j])
}

/// How many whole identifiers the bytes from offset `p` can supply, capped
/// at the `n` that are wanted.
pub open spec fn complete_ids(s: Seq<u8>, p: int, n: int) -> int {
    let avail = if p <= s.len() {
        (s.len() - p) / 4
    } else {
        0
    };
    if n <= avail {
        n
    } else {
        avail
    }
}

/// Decode `n` object identifiers from offset `p`: the identifiers in order,
/// or the error met first reading them left to right.
pub open spec fn parse_ids(s: Seq<u8>, p: int, n: int) -> Result<Seq<u32>, DecodeError> {
    let m = complete_ids(s, p, n);
    if !ids_ok(s, p, m) {
        Err(DecodeError::BadIdentifier)
    } else if m < n {
        Err(DecodeError::Truncated)
    } else {
        Ok(ids_at(s, p, n))
    }
}

/// The wire image of a list of object identifiers: each as four bytes,
/// little-endian, in order.
pub open spec fn wire_ids(ids: Seq<u32>) -> Seq<u8>
    decreases ids.len(),
{
    if ids.len() == 0 {
        Seq::empty()
    } else {
        spec_u32_to_le_bytes(ids[0]) + wire_ids(ids.drop_first())
    }
}

pub proof fn lemma_wire_ids_len(ids: Seq<u32>)
    ensures
        wire_ids(ids).len() == 4 * ids.len(),
    decreases ids.len(),
{
    vstd::bytes::lemma_auto_spec_u32_to_from_le_bytes();
    if ids.len() > 0 {
        lemma_wire_ids_len(ids.drop_first());
    }
}

pub proof fn lemma_wire_ids_slice(ids: Seq<u32>, j: int)
    requires
        0 <= j < ids.len(),
    ensures
        wire_ids(ids).subrange(4 * j, 4 * j + 4) == spec_u32_to_le_bytes(ids[j]),
    decreases ids.len(),
{
    vstd::bytes::lemma_auto_spec_u32_to_from_le_bytes();
    lemma_wire_ids_len(ids);
    if j == 0 {
        assert(wire_ids(ids).subrange(0, 4) =~= spec_u32_to_le_bytes(ids[0]));
    } else {
        lemma_wire_ids_slice(ids.drop_first(), j - 1);
        lemma_wire_ids_len(ids.drop_first());
        assert(wire_ids(ids).subrange(4 * j, 4 * j + 4) =~= wire_ids(ids.drop_first()).subrange(
            4 * (j - 1),
            4 * (j - 1) + 4,
        ));
    }
}

pub proof fn lemma_wire_ids_snoc(ids: Seq<u32>, x: u32)
    ensures
        wire_ids(ids.push(x)) == wire_ids(ids) + spec_u32_to_le_bytes(x),
    decreases ids.len(),
{
    vstd::bytes::lemma_auto_spec_u32_to_from_le_bytes();
    if ids.len() == 0 {
        assert(ids.push(x).drop_first() =~= Seq::<u32>::empty());
        assert(ids.push(x)[0] == x);
        assert(wire_ids(ids.push(x)) == spec_u32_to_le_bytes(x) + wire_ids(Seq::<u32>::empty()));
        assert(wire_ids(ids) + spec_u32_to_le_bytes(x) =~= spec_u32_to_le_bytes(x) + wire_ids(
            Seq::<u32>::empty(),
        ));
    } else {
        assert(ids.push(x).drop_first() =~= ids.drop_first().push(x));
        lemma_wire_ids_snoc(ids.drop_first(), x);
        assert(ids.push(x)[0] == ids[0]);
        assert(wire_ids(ids.push(x)) == spec_u32_to_le_bytes(ids[0]) + (wire_ids(ids.drop_first())
            + spec_u32_to_le_bytes(x)));
        assert(spec_u32_to_le_bytes(ids[0]) + (wire_ids(ids.drop_first()) + spec_u32_to_le_bytes(x))
            =~= (spec_u32_to_le_bytes(ids[0]) + wire_ids(ids.drop_first())) + spec_u32_to_le_bytes(
            x,
        ));
    }
}

/// Identifiers read back from their own wire image are themselves.
pub proof fn lemma_ids_roundtrip(s: Seq<u8>, p: int, ids: Seq<u32>)
    requires
        0 <= p,
        p + 4 * ids.len() <= s.len(),
        s.subrange(p, p + 4 * ids.len()) == wire_ids(ids),
    ensures
        ids_at(s, p, ids.len() as int) == ids,
{
    assert forall|j: int| 0 <= j < ids.len() implies ids_at(s, p, ids.len() as int)[j]
        == ids[j] by {
        lemma_wire_ids_slice(ids, j);
        vstd::bytes::lemma_auto_spec_u32_to_from_le_bytes();
        assert(s.subrange(p + 4 * j, p + 4 * j + 4) =~= wire_ids(ids).subrange(4 * j, 4 * j + 4));
    };
    assert(ids_at(s, p, ids.len() as int) =~= ids);
}

/// A list of objects that a command applies to.
///
/// The wire reserves an out-of-band count value for a command that applies to
/// the same objects as the immediately preceding command of compatible type,
/// so an unchanged selection is never retransmitted. That case is
/// `ObjectsList::SameAsLast`; resolving it is the stream consumer's concern,
/// not this codec's.
#[derive(Debug, Clone, PartialEq)]
pub enum ObjectsList {
    /// Use the same objects as the previous command.
    SameAsLast,
    /// Use this list of objects.
    List(Vec<ObjectID>),
}

use crate::ObjectID;

/// The mathematical shape of an [`ObjectsList`].
pub enum ObjectsListView {
    SameAsLast,
    List(Seq<u32>),
}

impl View for ObjectsList {
    type V = ObjectsListView;

    open spec fn view(&self) -> ObjectsListView {
        match self {
            ObjectsList::SameAsLast => ObjectsListView::SameAsLast,
            ObjectsList::List(v) => ObjectsListView::List(v@),
        }
    }
}

impl ObjectsListView {
    /// Is this the "same as the previous command" marker?
    pub open spec fn is_marker(self) -> bool {
        self is SameAsLast
    }

    /// The identifiers of an explicit list; the marker holds none.
    pub open spec fn items(self) -> Seq<u32> {
        match self {
            ObjectsListView::SameAsLast => Seq::empty(),
            ObjectsListView::List(s) => s,
        }
    }

    /// Every identifier is in the valid signed-transmissible domain.
    pub open spec fn ids_in_range(self) -> bool {
        forall|j: int| 0 <= j < self.items().len() ==> id_in_range(#[trigger] self.items()[j])
    }

    /// The identifier bytes this list puts on the wire after its count field.
    /// The marker emits nothing: the count field alone carries it.
    pub open spec fn wire_tail(self) -> Seq<u8> {
        if self.is_marker() {
            Seq::empty()
        } else {
            wire_ids(self.items())
        }
    }

    /// A list that a signed one-byte count field can carry: the marker, as
    /// the count byte 0xFF, or an explicit list of at most 127 identifiers.
    pub open spec fn valid_count_i8(self) -> bool {
        ||| self.is_marker()
        ||| (self.items().len() <= 127 && self.ids_in_range())
    }

    /// A list that an unsigned one-byte count field can carry.
    pub open spec fn valid_count_u8(self) -> bool {
        ||| self.is_marker()
        ||| (self.items().len() <= 0xFE && self.ids_in_range())
    }

    /// A list that a 32-bit count field can carry.
    pub open spec fn valid_count_u32(self) -> bool {
        self.valid_count_u8()
    }

    /// The one-byte count field: the sentinel for the marker.
    pub open spec fn count_byte(self) -> u8 {
        if self.is_marker() {
            0xFFu8
        } else {
            self.items().len() as u8
        }
    }

    /// The 32-bit count field: the sentinel for the marker.
    pub open spec fn count_word(self) -> u32 {
        if self.is_marker() {
            0xFFu32
        } else {
            self.items().len() as u32
        }
    }
}

impl Default for ObjectsList {
    /// The default list is explicit and empty, distinct from the marker.
    fn default() -> (d: Self)
        ensures
            d@ == ObjectsListView::List(Seq::<u32>::empty()),
    {
        ObjectsList::List(Vec::new())
    }
}

impl ObjectsList {
    /// Decode a count-prefixed list of object identifiers whose count field,
    /// already consumed by the caller, held `count`. A count in the sentinel
    /// region — at least 0xFF, or the one-byte sentinel sign-extended to -1 —
    /// yields the reuse marker and consumes nothing; any other negative count
    /// yields an explicit empty list; any other count yields that many
    /// identifiers.
    pub fn read_from(r: &mut Reader, count: i32) -> (res: Result<ObjectsList, DecodeError>)
        requires
            old(r).wf(),
        ensures
            final(r).bytes() == old(r).bytes(),
            final(r).wf(),
            old(r).position() <= final(r).position(),
            match res {
                Ok(list) => parse_list(old(r).bytes(), old(r).position(), count as int)
                    == Ok::<_, DecodeError>((list@, final(r).position() - old(r).position())),
                Err(e) => parse_list(old(r).bytes(), old(r).position(), count as int) == Err::<
                    (ObjectsListView, int),
                    _,
                >(e),
            },
    {
        if count >= 0xFF || count == -1 {
            return Ok(ObjectsList::SameAsLast);
        }
        let n: usize = if count < 0 {
            0
        } else {
            count as usize
        };
        let ghost s = old(r).bytes();
        let ghost p0 = old(r).position();
        let mut list: Vec<u32> = Vec::new();
        let mut i: usize = 0;
        while i < n
            invariant
                i <= n,
                n <= 0xFE,
                n as int == if count < 0 { 0int } else { count as int },
                count < 0xFF,
                r.wf(),
                s == old(r).bytes(),
                p0 == old(r).position(),
                r.bytes() == s,
                r.position() == p0 + 4 * i,
                0 <= p0,
                ids_ok(s, p0, i as int),
                list@ == ids_at(s, p0, i as int),
            decreases n - i,
        {
            let id = match r.read_u32_le() {
                Ok(v) => v,
                Err(e) => {
                    proof {
                        assert((s.len() - p0) / 4 == i as int) by (nonlinear_arith)
                            requires
                                4 * (i as int) <= s.len() - p0 < 4 * (i as int) + 4,
                        ;
                        assert(complete_ids(s, p0, n as int) == i as int);
                    }
                    return Err(e);
                },
            };
            if id >= 0x8000_0000u32 {
                proof {
                    let m = complete_ids(s, p0, n as int);
                    assert((s.len() - p0) / 4 >= i + 1) by (nonlinear_arith)
                        requires
                            s.len() - p0 >= 4 * (i as int) + 4,
                    ;
                    assert(m >= i + 1);
                    assert(ids_at(s, p0, m)[i as int] == le32_at(s, p0 + 4 * (i as int)));
                    assert(!id_in_range(ids_at(s, p0, m)[i as int]));
                    assert(!ids_ok(s, p0, m));
                }
                return Err(DecodeError::BadIdentifier);
            }
            list.push(id);
            proof {
                assert(list@ =~= ids_at(s, p0, i + 1 as int));
                assert(forall|j: int|
                    0 <= j < i + 1 ==> id_in_range(#[trigger] ids_at(s, p0, i + 1 as int)[j]));
            }
            i = i + 1;
        }
        proof {
            assert((s.len() - p0) / 4 >= n as int) by (nonlinear_arith)
                requires
                    s.len() - p0 >= 4 * (n as int),
            ;
            assert(complete_ids(s, p0, n as int) == n as int);
        }
        Ok(ObjectsList::List(list))
    }

    /// Write the identifier bytes of this list. The marker writes nothing:
    /// the count field, written by the caller, carries it.
    pub fn write_to(&self, out: &mut Vec<u8>)
        ensures
            final(out)@ == old(out)@ + self@.wire_tail(),
    {
        match self {
            ObjectsList::SameAsLast => {
                proof {
                    assert(old(out)@ + self@.wire_tail() =~= old(out)@);
                }
            },
            ObjectsList::List(list) => {
                let ghost base = old(out)@;
                let mut i: usize = 0;
                while i < list.len()
                    invariant
                        i <= list@.len(),
                        out@ == base + wire_ids(list@.take(i as int)),
                    decreases list@.len() - i,
                {
                    write_u32_le(out, list[i]);
                    proof {
                        lemma_wire_ids_snoc(list@.take(i as int), list@[i as int]);
                        assert(list@.take(i + 1 as int) =~= list@.take(i as int).push(
                            list@[i as int],
                        ));
                        assert(out@ =~= base + wire_ids(list@.take(i + 1 as int)));
                    }
                    i = i + 1;
                }
                proof {
                    assert(list@.take(list@.len() as int) =~= list@);
                }
            },
        }
    }

    /// The amount of objects contained in this list.
    ///
    /// For `ObjectsList::SameAsLast` this returns 0.
    pub fn len(&self) -> (n: usize)
        ensures
            n == self@.items().len(),
    {
        match self {
            ObjectsList::SameAsLast => 0,
            ObjectsList::List(list) => list.len(),
        }
    }

    /// Does this list contain 0 objects?
    pub fn is_empty(&self) -> (b: bool)
        ensures
            b == (self@.items().len() == 0),
    {
        self.len() == 0
    }
}

/// Decode an object list whose count field held `count`: the list and how
/// many bytes it consumed after the count field. A count in the sentinel
/// region (at least 0xFF read unsigned, which a signed one-byte field
/// reaches as the sign-extended value -1) is the reuse marker and consumes
/// nothing. The remaining negative values are the sign-extended bytes 0x80
/// through 0xFE, which the format never produces; they are read as an
/// explicit empty list, as a deliberate choice.
pub open spec fn parse_list(s: Seq<u8>, p: int, count: int) -> Result<
    (ObjectsListView, int),
    DecodeError,
> {
    if count >= 0xFF || count == -1 {
        Ok((ObjectsListView::SameAsLast, 0))
    } else {
        let n = if count < 0 {
            0
        } else {
            count
        };
        match parse_ids(s, p, n) {
            Ok(ids) => Ok((ObjectsListView::List(ids), 4 * n)),
            Err(e) => Err(e),
        }
    }
}

/// Object-list law: a count in the sentinel region — at least 0xFF, or the
/// one-byte sentinel sign-extended to -1 — always decodes to the reuse
/// marker, never an explicit list, and consumes nothing; a count of zero
/// always decodes to an explicit empty list, never the marker.
pub proof fn lemma_object_list_law(s: Seq<u8>, p: int, count: int)
    ensures
        count >= 0xFF || count == -1 ==> parse_list(s, p, count) == Ok::<_, DecodeError>((
            ObjectsListView::SameAsLast,
            0int,
        )),
        count == 0 ==> parse_list(s, p, count) == Ok::<_, DecodeError>((
            ObjectsListView::List(Seq::<u32>::empty()),
            0int,
        )),
{
    if count == 0 {
        assert(ids_at(s, p, 0) =~= Seq::<u32>::empty());
        assert(complete_ids(s, p, 0) == 0);
    }
}

/// The one-byte count sentinel: the byte 0xFF sign-extends to -1.
pub proof fn lemma_count_sentinel_byte()
    ensures
        (0xFFu8 as i8) as int == -1,
{
    assert((0xFFu8 as i8) as int == -1) by (bit_vector);
}

/// An explicit list read back from its own wire image is itself: decoding
/// `n` identifiers over `wire_ids` embedded at offset `p` succeeds and
/// returns the same identifiers.
pub proof fn lemma_list_roundtrip(s: Seq<u8>, p: int, ids: Seq<u32>)
    requires
        0 <= p,
        p + 4 * ids.len() <= s.len(),
        s.subrange(p, p + 4 * ids.len()) == wire_ids(ids),
        forall|j: int| 0 <= j < ids.len() ==> id_in_range(#[trigger] ids[j]),
        ids.len() <= 0xFE,
    ensures
        parse_list(s, p, ids.len() as int) == Ok::<_, DecodeError>((
            ObjectsListView::List(ids),
            4 * ids.len() as int,
        )),
{
    lemma_ids_roundtrip(s, p, ids);
    let n = ids.len() as int;
    assert((s.len() - p) / 4 >= n) by (nonlinear_arith)
        requires
            s.len() - p >= 4 * n,
    ;
    assert(complete_ids(s, p, n) == n);
    assert(forall|j: int| 0 <= j < n ==> id_in_range(#[trigger] ids_at(s, p, n)[j]));
}

} // verus!
