//! The subpacket wire format: a 16-byte header, for game messages a
//! second 16-byte header carrying the opcode, then the body. All
//! integers are little-endian.

use vstd::prelude::*;
use vstd::string::StringSliceAdditionalSpecFns;

verus! {

/// Length of the subpacket header.
pub const SUBPACKET_HEADER_LEN: usize = 0x10;

/// Length of the game-message header that follows it.
pub const GAME_MESSAGE_HEADER_LEN: usize = 0x10;

/// Subpacket type of a game message.
pub const SUBPACKET_TYPE_GAME_MESSAGE: u16 = 0x03;

/// Value the game-message header carries in its first field.
pub const GAME_MESSAGE_MAGIC: u16 = 0x14;

/// Opcode of a single-row command result.
pub const OP_COMMAND_RESULT_X01: u16 = 0x0139;

/// Opcode that ends an event.
pub const OP_END_EVENT: u16 = 0x0131;

/// Opcode of the message that changes the zone music.
pub const OP_SET_MUSIC: u16 = 0x000C;

/// The little-endian 16-bit value at `at`.
pub open spec fn le16(b: Seq<u8>, at: int) -> int {
    b[at] + 256 * b[at + 1]
}

/// The little-endian 32-bit value at `at`.
pub open spec fn le32(b: Seq<u8>, at: int) -> int {
    le16(b, at) + 65536 * le16(b, at + 2)
}

/// The little-endian bytes of a 16-bit value.
pub open spec fn le16_bytes(v: int) -> Seq<u8> {
    seq![(v % 256) as u8, (v / 256 % 256) as u8]
}

/// The little-endian bytes of a 32-bit value.
pub open spec fn le32_bytes(v: int) -> Seq<u8> {
    le16_bytes(v % 65536) + le16_bytes(v / 65536 % 65536)
}

/// First header of every subpacket.
#[derive(Debug, Clone, Copy, PartialEq, Eq)]
pub struct SubPacketHeader {
    /// Whole length of the subpacket, headers included.
    pub size: u16,
    /// `3` for a game message.
    pub packet_type: u16,
    pub source_id: u32,
    pub target_id: u32,
    pub unknown1: u32,
}

/// Second header of a game message.
#[derive(Debug, Clone, Copy, PartialEq, Eq)]
pub struct GameMessageHeader {
    pub unknown4: u16,
    pub opcode: u16,
    pub unknown5: u32,
    pub timestamp: u32,
    pub unknown6: u32,
}

/// One subpacket: its headers and its body.
#[derive(Debug, Clone, PartialEq, Eq)]
pub struct SubPacket {
    pub header: SubPacketHeader,
    /// All zero unless the subpacket is a game message.
    pub game_message: GameMessageHeader,
    pub data: Vec<u8>,
}

/// Why bytes did not parse as a subpacket.
#[derive(Debug, Clone, Copy, PartialEq, Eq)]
pub enum WireError {
    /// Fewer bytes remain than the headers or the declared size need.
    Truncated,
    /// The declared size is smaller than the headers.
    BadSize,
}

/// Length of the headers of a subpacket of type `t`.
pub open spec fn headers_len(t: int) -> int {
    if t == SUBPACKET_TYPE_GAME_MESSAGE as int {
        (SUBPACKET_HEADER_LEN + GAME_MESSAGE_HEADER_LEN) as int
    } else {
        SUBPACKET_HEADER_LEN as int
    }
}

/// What parsing at `off` gives: the error, or the end of the subpacket.
/// The declared size, its type and the bytes that remain decide it.
pub open spec fn parse_result(b: Seq<u8>, off: int) -> Result<int, WireError> {
    if off + SUBPACKET_HEADER_LEN > b.len() {
        Err(WireError::Truncated)
    } else {
        let size = le16(b, off);
        let t = le16(b, off + 2);
        if size < headers_len(t) {
            Err(WireError::BadSize)
        } else if off + size > b.len() {
            Err(WireError::Truncated)
        } else {
            Ok(off + size)
        }
    }
}

/// Whether `p` is the subpacket that the bytes `b` hold at `off`.
pub open spec fn decodes_at(b: Seq<u8>, off: int, p: SubPacket) -> bool {
    let size = le16(b, off);
    let t = le16(b, off + 2);
    &&& p.header.size as int == size
    &&& p.header.packet_type as int == t
    &&& p.header.source_id as int == le32(b, off + 4)
    &&& p.header.target_id as int == le32(b, off + 8)
    &&& p.header.unknown1 as int == le32(b, off + 12)
    &&& if t == SUBPACKET_TYPE_GAME_MESSAGE as int {
        &&& p.game_message.unknown4 as int == le16(b, off + 16)
        &&& p.game_message.opcode as int == le16(b, off + 18)
        &&& p.game_message.unknown5 as int == le32(b, off + 20)
        &&& p.game_message.timestamp as int == le32(b, off + 24)
        &&& p.game_message.unknown6 as int == le32(b, off + 28)
    } else {
        p.game_message == GameMessageHeader {
            unknown4: 0,
            opcode: 0,
            unknown5: 0,
            timestamp: 0,
            unknown6: 0,
        }
    }
    &&& p.data@ == b.subrange(off + headers_len(t), off + size)
}

fn read_u16(b: &[u8], at: usize) -> (res: u16)
    requires
        at + 2 <= b@.len(),
    ensures
        res as int == le16(b@, at as int),
{
    (b[at] as u16) + 256 * (b[at + 1] as u16)
}

fn read_u32(b: &[u8], at: usize) -> (res: u32)
    requires
        at + 4 <= b@.len(),
    ensures
        res as int == le32(b@, at as int),
{
    let _n = b.len();
    (read_u16(b, at) as u32) + 65536 * (read_u16(b, at + 2) as u32)
}

impl SubPacket {
    /// Parses the subpacket at `*offset` and moves `*offset` past it; on
    /// an error `*offset` stays where it was.
    pub fn parse(b: &[u8], offset: &mut usize) -> (res: Result<SubPacket, WireError>)
        ensures
            match parse_result(b@, *old(offset) as int) {
                Err(e) => res == Err::<SubPacket, WireError>(e) && *final(offset) == *old(offset),
                Ok(end) => res is Ok && decodes_at(b@, *old(offset) as int, res->Ok_0)
                    && *final(offset) as int == end,
            },
    {
        let off = *offset;
        if b.len() < SUBPACKET_HEADER_LEN || off > b.len() - SUBPACKET_HEADER_LEN {
            return Err(WireError::Truncated);
        }
        let size = read_u16(b, off);
        let t = read_u16(b, off + 2);
        let hlen: usize = if t == SUBPACKET_TYPE_GAME_MESSAGE {
            SUBPACKET_HEADER_LEN + GAME_MESSAGE_HEADER_LEN
        } else {
            SUBPACKET_HEADER_LEN
        };
        if (size as usize) < hlen {
            return Err(WireError::BadSize);
        }
        if size as usize > b.len() - off {
            return Err(WireError::Truncated);
        }
        let header = SubPacketHeader {
            size,
            packet_type: t,
            source_id: read_u32(b, off + 4),
            target_id: read_u32(b, off + 8),
            unknown1: read_u32(b, off + 12),
        };
        let game_message = if t == SUBPACKET_TYPE_GAME_MESSAGE {
            GameMessageHeader {
                unknown4: read_u16(b, off + 16),
                opcode: read_u16(b, off + 18),
                unknown5: read_u32(b, off + 20),
                timestamp: read_u32(b, off + 24),
                unknown6: read_u32(b, off + 28),
            }
        } else {
            GameMessageHeader { unknown4: 0, opcode: 0, unknown5: 0, timestamp: 0, unknown6: 0 }
        };
        let end = off + size as usize;
        let mut data: Vec<u8> = Vec::new();
        let mut i = off + hlen;
        while i < end
            invariant
                off + hlen <= i <= end <= b@.len(),
                data@ == b@.subrange(off + hlen, i as int),
            decreases end - i,
        {
            data.push(b[i]);
            i = i + 1;
            assert(data@ =~= b@.subrange(off + hlen, i as int));
        }
        *offset = end;
        Ok(SubPacket { header, game_message, data })
    }
}


/// Offsets of the subpackets that parse one after another from `off`,
/// stopping at the end of the bytes or at the first that does not parse.
pub open spec fn chain_starts(b: Seq<u8>, off: int) -> Seq<int>
    decreases b.len() - off,
{
    if off < 0 || off >= b.len() {
        Seq::empty()
    } else {
        match parse_result(b, off) {
            Err(_) => Seq::empty(),
            Ok(end) => seq![off] + chain_starts(b, end),
        }
    }
}

/// Every subpacket that parses one after another from the start of a
/// frame; parsing stops at the first that does not.
pub fn parse_frame(b: &[u8]) -> (res: Vec<SubPacket>)
    ensures
        res@.len() == chain_starts(b@, 0).len(),
        forall|i: int| 0 <= i < res@.len() ==> decodes_at(b@, chain_starts(b@, 0)[i], #[trigger] res@[i]),
{
    let mut out: Vec<SubPacket> = Vec::new();
    let mut offset: usize = 0;
    let ghost mut seen: Seq<int> = Seq::empty();
    while offset < b.len()
        invariant
            offset <= b@.len(),
            chain_starts(b@, 0) == seen + chain_starts(b@, offset as int),
            out@.len() == seen.len(),
            forall|i: int| 0 <= i < out@.len() ==> decodes_at(b@, seen[i], #[trigger] out@[i]),
        decreases b@.len() - offset,
    {
        let start = offset;
        match SubPacket::parse(b, &mut offset) {
            Ok(p) => {
                proof {
                    assert(chain_starts(b@, start as int) == seq![start as int] + chain_starts(b@, offset as int));
                    assert(seen + chain_starts(b@, start as int) =~= (seen.push(start as int)) + chain_starts(b@, offset as int));
                    seen = seen.push(start as int);
                }
                out.push(p);
            },
            Err(_) => {
                assert(chain_starts(b@, start as int) =~= Seq::<int>::empty());
                assert(seen =~= chain_starts(b@, 0));
                return out;
            },
        }
    }
    assert(chain_starts(b@, offset as int) =~= Seq::<int>::empty());
    assert(seen =~= chain_starts(b@, 0));
    out
}

fn push_u16(out: &mut Vec<u8>, v: u16)
    ensures
        final(out)@ == old(out)@ + le16_bytes(v as int),
{
    out.push((v % 256) as u8);
    out.push((v / 256) as u8);
    assert(final(out)@ =~= old(out)@ + le16_bytes(v as int));
}

fn push_u32(out: &mut Vec<u8>, v: u32)
    ensures
        final(out)@ == old(out)@ + le32_bytes(v as int),
{
    push_u16(out, (v % 65536) as u16);
    push_u16(out, (v / 65536) as u16);
    assert(final(out)@ =~= old(out)@ + le32_bytes(v as int));
}

proof fn lemma_le16_roundtrip(b: Seq<u8>, at: int, v: int)
    requires
        0 <= v < 65536,
        0 <= at,
        at + 2 <= b.len(),
        b.subrange(at, at + 2) == le16_bytes(v),
    ensures
        le16(b, at) == v,
{
    assert(b[at] == b.subrange(at, at + 2)[0]);
    assert(b[at + 1] == b.subrange(at, at + 2)[1]);
}

proof fn lemma_le32_roundtrip(b: Seq<u8>, at: int, v: int)
    requires
        0 <= v < 0x1_0000_0000,
        0 <= at,
        at + 4 <= b.len(),
        b.subrange(at, at + 4) == le32_bytes(v),
    ensures
        le32(b, at) == v,
{
    assert(b.subrange(at, at + 2) =~= b.subrange(at, at + 4).subrange(0, 2));
    assert(b.subrange(at + 2, at + 4) =~= b.subrange(at, at + 4).subrange(2, 4));
    assert(le32_bytes(v).subrange(0, 2) =~= le16_bytes(v % 65536));
    assert(le32_bytes(v).subrange(2, 4) =~= le16_bytes(v / 65536 % 65536));
    lemma_le16_roundtrip(b, at, v % 65536);
    lemma_le16_roundtrip(b, at + 2, v / 65536 % 65536);
}

/// The bytes of a game message from `source_id` to `target_id`.
pub open spec fn game_message_bytes(
    source_id: u32,
    target_id: u32,
    opcode: u16,
    timestamp: u32,
    data: Seq<u8>,
) -> Seq<u8> {
    le16_bytes(data.len() + 0x20int) + le16_bytes(SUBPACKET_TYPE_GAME_MESSAGE as int) + le32_bytes(
        source_id as int,
    ) + le32_bytes(target_id as int) + le32_bytes(0) + le16_bytes(GAME_MESSAGE_MAGIC as int)
        + le16_bytes(opcode as int) + le32_bytes(0) + le32_bytes(timestamp as int) + le32_bytes(0)
        + data
}

/// Frames `data` as a game message with opcode `opcode`.
pub fn build_game_message(
    source_id: u32,
    target_id: u32,
    opcode: u16,
    timestamp: u32,
    data: &[u8],
) -> (res: Vec<u8>)
    requires
        data@.len() + 0x20 <= u16::MAX,
    ensures
        res@ == game_message_bytes(source_id, target_id, opcode, timestamp, data@),
{
    let mut out: Vec<u8> = Vec::new();
    push_u16(&mut out, (data.len() + 0x20) as u16);
    push_u16(&mut out, SUBPACKET_TYPE_GAME_MESSAGE);
    push_u32(&mut out, source_id);
    push_u32(&mut out, target_id);
    push_u32(&mut out, 0);
    push_u16(&mut out, GAME_MESSAGE_MAGIC);
    push_u16(&mut out, opcode);
    push_u32(&mut out, 0);
    push_u32(&mut out, timestamp);
    push_u32(&mut out, 0);
    let ghost before = out@;
    let mut i: usize = 0;
    while i < data.len()
        invariant
            i <= data@.len(),
            out@ == before + data@.subrange(0, i as int),
        decreases data@.len() - i,
    {
        out.push(data[i]);
        i = i + 1;
        assert(out@ =~= before + data@.subrange(0, i as int));
    }
    assert(data@.subrange(0, data@.len() as int) =~= data@);
    out
}

/// A game message that is built and then parsed gives back its
/// sender, target, opcode, timestamp and body, and the parse ends
/// exactly where the message does.
pub proof fn law_game_message_roundtrip(
    source_id: u32,
    target_id: u32,
    opcode: u16,
    timestamp: u32,
    data: Seq<u8>,
)
    requires
        data.len() + 0x20 <= u16::MAX,
    ensures
        ({
            let b = game_message_bytes(source_id, target_id, opcode, timestamp, data);
            &&& parse_result(b, 0) == Ok::<int, WireError>(b.len() as int)
            &&& le16(b, 2) == SUBPACKET_TYPE_GAME_MESSAGE
            &&& le32(b, 4) == source_id
            &&& le32(b, 8) == target_id
            &&& le16(b, 18) == opcode
            &&& le32(b, 24) == timestamp
            &&& b.subrange(0x20, b.len() as int) == data
        }),
{
    let b = game_message_bytes(source_id, target_id, opcode, timestamp, data);
    assert(b.len() == data.len() + 0x20);
    assert(b.subrange(0, 2) =~= le16_bytes(data.len() + 0x20int));
    assert(b.subrange(2, 4) =~= le16_bytes(SUBPACKET_TYPE_GAME_MESSAGE as int));
    assert(b.subrange(4, 8) =~= le32_bytes(source_id as int));
    assert(b.subrange(8, 12) =~= le32_bytes(target_id as int));
    assert(b.subrange(18, 20) =~= le16_bytes(opcode as int));
    assert(b.subrange(24, 28) =~= le32_bytes(timestamp as int));
    assert(b.subrange(0x20, b.len() as int) =~= data);
    lemma_le16_roundtrip(b, 0, data.len() + 0x20int);
    lemma_le16_roundtrip(b, 2, SUBPACKET_TYPE_GAME_MESSAGE as int);
    lemma_le32_roundtrip(b, 4, source_id as int);
    lemma_le32_roundtrip(b, 8, target_id as int);
    lemma_le16_roundtrip(b, 18, opcode as int);
    lemma_le32_roundtrip(b, 24, timestamp as int);
}


/// One row of a single-row command result, as `(animation, command,
/// target, amount, text_id)`.
pub open spec fn x01_row(d: Seq<u8>) -> (int, int, int, int, int) {
    (le32(d, 0x04), le16(d, 0x24), le32(d, 0x28), le16(d, 0x2C), le16(d, 0x2E))
}

/// The command-result rows among `subs`, in order.
pub open spec fn x01_rows(subs: Seq<SubPacket>) -> Seq<(int, int, int, int, int)>
    decreases subs.len(),
{
    if subs.len() == 0 {
        Seq::empty()
    } else {
        x01_rows(subs.drop_last()) + if subs.last().game_message.opcode == OP_COMMAND_RESULT_X01 {
            seq![x01_row(subs.last().data@)]
        } else {
            Seq::empty()
        }
    }
}

/// Reads the row of every single-row command result among `subs`.
pub fn decode_x01_rows(subs: &[SubPacket]) -> (res: Vec<(u32, u16, u32, u16, u16)>)
    requires
        forall|i: int|
            0 <= i < subs@.len() && (#[trigger] subs@[i]).game_message.opcode == OP_COMMAND_RESULT_X01
                ==> subs@[i].data@.len() >= 0x30,
    ensures
        res@.len() == x01_rows(subs@).len(),
        forall|i: int| 0 <= i < res@.len() ==> ((#[trigger] res@[i]).0 as int, res@[i].1 as int, res@[i].2 as int, res@[i].3 as int, res@[i].4 as int)
            == x01_rows(subs@)[i],
{
    let mut out: Vec<(u32, u16, u32, u16, u16)> = Vec::new();
    let mut k: usize = 0;
    assert(subs@.take(0) =~= Seq::<SubPacket>::empty());
    while k < subs.len()
        invariant
            k <= subs@.len(),
            forall|i: int|
                0 <= i < subs@.len() && (#[trigger] subs@[i]).game_message.opcode == OP_COMMAND_RESULT_X01
                    ==> subs@[i].data@.len() >= 0x30,
            out@.len() == x01_rows(subs@.take(k as int)).len(),
            forall|i: int| 0 <= i < out@.len() ==> ((#[trigger] out@[i]).0 as int, out@[i].1 as int, out@[i].2 as int, out@[i].3 as int, out@[i].4 as int)
                == x01_rows(subs@.take(k as int))[i],
        decreases subs@.len() - k,
    {
        assert(subs@.take(k + 1).drop_last() =~= subs@.take(k as int));
        let s = &subs[k];
        if s.game_message.opcode == OP_COMMAND_RESULT_X01 {
            let d = s.data.as_slice();
            let row = (read_u32(d, 0x04), read_u16(d, 0x24), read_u32(d, 0x28), read_u16(d, 0x2C), read_u16(d, 0x2E));
            out.push(row);
        }
        k = k + 1;
    }
    assert(subs@.take(subs@.len() as int) =~= subs@);
    out
}

/// Number of subpackets of `subs` with opcode `opcode`.
pub open spec fn count_opcode(subs: Seq<SubPacket>, opcode: u16) -> nat
    decreases subs.len(),
{
    if subs.len() == 0 {
        0
    } else {
        count_opcode(subs.drop_last(), opcode) + if subs.last().game_message.opcode == opcode {
            1nat
        } else {
            0nat
        }
    }
}

/// Number of subpackets among `subs` with opcode `opcode`.
pub fn count_messages(subs: &[SubPacket], opcode: u16) -> (res: usize)
    ensures
        res == count_opcode(subs@, opcode),
{
    let mut n: usize = 0;
    let mut k: usize = 0;
    assert(subs@.take(0) =~= Seq::<SubPacket>::empty());
    while k < subs.len()
        invariant
            k <= subs@.len(),
            n == count_opcode(subs@.take(k as int), opcode),
            n <= k,
        decreases subs@.len() - k,
    {
        assert(subs@.take(k + 1).drop_last() =~= subs@.take(k as int));
        if subs[k].game_message.opcode == opcode {
            n = n + 1;
        }
        k = k + 1;
    }
    assert(subs@.take(subs@.len() as int) =~= subs@);
    n
}

/// Number of end-event messages among `subs`.
pub fn count_end_events(subs: &[SubPacket]) -> (res: usize)
    ensures
        res == count_opcode(subs@, OP_END_EVENT),
{
    count_messages(subs, OP_END_EVENT)
}

/// Number of set-music messages among `subs`.
pub fn count_set_music(subs: &[SubPacket]) -> (res: usize)
    ensures
        res == count_opcode(subs@, OP_SET_MUSIC),
{
    count_messages(subs, OP_SET_MUSIC)
}

/// Whether `pat` occurs in `d` starting at `at`.
pub open spec fn occurs_at(d: Seq<u8>, pat: Seq<u8>, at: int) -> bool {
    0 <= at && at + pat.len() <= d.len() && d.subrange(at, at + pat.len() as int) == pat
}

/// Whether `pat` occurs somewhere in the body of one of `subs`.
pub open spec fn some_body_contains(subs: Seq<SubPacket>, pat: Seq<u8>) -> bool {
    exists|i: int, at: int| 0 <= i < subs.len() && #[trigger] occurs_at(subs[i].data@, pat, at)
}

fn occurs_in(d: &[u8], pat: &[u8]) -> (res: bool)
    ensures
        res == exists|at: int| occurs_at(d@, pat@, at),
{
    let n = d.len();
    let p = pat.len();
    if p > n {
        assert forall|at: int| !occurs_at(d@, pat@, at) by {}
        return false;
    }
    let last = n - p;
    let mut at: usize = 0;
    while at <= last
        invariant
            n == d@.len(),
            p == pat@.len(),
            last == n - p,
            at <= last + 1,
            forall|a: int| 0 <= a < at ==> !occurs_at(d@, pat@, a),
        decreases last + 1 - at,
    {
        let mut j: usize = 0;
        let mut same = true;
        while j < p
            invariant
                n == d@.len(),
                p == pat@.len(),
                at + p <= n,
                j <= p,
                same == forall|m: int| 0 <= m < j ==> d@[at + m] == pat@[m],
            decreases p - j,
        {
            if d[at + j] != pat[j] {
                same = false;
            }
            j = j + 1;
        }
        if same {
            assert(d@.subrange(at as int, at + pat@.len()) =~= pat@);
            assert(occurs_at(d@, pat@, at as int));
            return true;
        }
        proof {
            if d@.subrange(at as int, at + pat@.len()) == pat@ {
                let m = choose|m: int| 0 <= m < pat@.len() && d@[at + m] != pat@[m];
                assert(d@.subrange(at as int, at + pat@.len())[m] == d@[at + m]);
            }
        }
        at = at + 1;
    }
    false
}

/// Whether `path` occurs in the body of one of `subs`.
pub fn contains_target_path(subs: &[SubPacket], path: &[u8]) -> (res: bool)
    requires
        path@.len() > 0,
    ensures
        res == some_body_contains(subs@, path@),
{
    let mut k: usize = 0;
    while k < subs.len()
        invariant
            k <= subs@.len(),
            path@.len() > 0,
            forall|i: int, at: int| 0 <= i < k ==> !#[trigger] occurs_at(subs@[i].data@, path@, at),
        decreases subs@.len() - k,
    {
        if occurs_in(subs[k].data.as_slice(), path) {
            return true;
        }
        k = k + 1;
    }
    false
}


/// Server codes an event-start body carries.
pub const EVENT_SERVER_CODES: u32 = 0x2680_0000;

/// Width of the fixed event-name field of an event-start body.
pub const EVENT_NAME_FIELD_LEN: usize = 0x20;

/// The fixed-width event-name field: the first (at most 31) bytes of the
/// name, then zero bytes up to 32 (so the name is always terminated).
pub open spec fn name_field(name: Seq<u8>) -> Seq<u8> {
    Seq::new(
        EVENT_NAME_FIELD_LEN as nat,
        |i: int|
            if i < name.len() && i < EVENT_NAME_FIELD_LEN - 1 {
                name[i]
            } else {
                0u8
            },
    )
}

/// The body of an event-start request.
pub open spec fn event_start_bytes(trigger: u32, owner: u32, name: Seq<u8>, lua_params: Seq<u8>) -> Seq<
    u8,
> {
    le32_bytes(trigger as int) + le32_bytes(owner as int) + le32_bytes(EVENT_SERVER_CODES as int)
        + le32_bytes(0) + seq![0u8] + name_field(name) + lua_params
}

/// Builds the body of an event-start request: the trigger actor, the
/// owner (`0xA0F00000 | command id` for a command), the server codes, a
/// zero word, event type 0, the name in its fixed 32-byte field, then
/// the already-encoded Lua parameters.
pub fn event_start_body(trigger: u32, owner: u32, event_name: &str, lua_params: &[u8]) -> (res: Vec<
    u8,
>)
    ensures
        res@ == event_start_bytes(trigger, owner, event_name.spec_bytes(), lua_params@),
{
    let mut v: Vec<u8> = Vec::new();
    push_u32(&mut v, trigger);
    push_u32(&mut v, owner);
    push_u32(&mut v, EVENT_SERVER_CODES);
    push_u32(&mut v, 0);
    v.push(0u8);
    let name = event_name.as_bytes();
    let ghost head = v@;
    let mut i: usize = 0;
    while i < EVENT_NAME_FIELD_LEN
        invariant
            i <= EVENT_NAME_FIELD_LEN,
            name@ == event_name.spec_bytes(),
            v@ == head + name_field(name@).take(i as int),
        decreases EVENT_NAME_FIELD_LEN - i,
    {
        let b: u8 = if i < name.len() && i < EVENT_NAME_FIELD_LEN - 1 {
            name[i]
        } else {
            0u8
        };
        v.push(b);
        i = i + 1;
        assert(v@ =~= head + name_field(name@).take(i as int));
    }
    assert(name_field(name@).take(EVENT_NAME_FIELD_LEN as int) =~= name_field(name@));
    let ghost head2 = v@;
    let mut k: usize = 0;
    while k < lua_params.len()
        invariant
            k <= lua_params@.len(),
            v@ == head2 + lua_params@.take(k as int),
        decreases lua_params@.len() - k,
    {
        v.push(lua_params[k]);
        k = k + 1;
        assert(v@ =~= head2 + lua_params@.take(k as int));
    }
    assert(lua_params@.take(lua_params@.len() as int) =~= lua_params@);
    v
}

/// Opcode of a chat line sent to a player.
pub const OP_SEND_MESSAGE: u16 = 0x0003;

/// Width of the sender field of a chat line.
pub const MESSAGE_SENDER_FIELD_LEN: usize = 0x20;

/// Width of the text field of a chat line.
pub const MESSAGE_TEXT_FIELD_LEN: usize = 0x200;

/// A fixed-width field: the first (at most `width - 1`) bytes of `s`,
/// then zero bytes up to `width`, so the text is always terminated.
pub open spec fn padded_field(s: Seq<u8>, width: int) -> Seq<u8> {
    Seq::new(
        width as nat,
        |i: int|
            if i < s.len() && i < width - 1 {
                s[i]
            } else {
                0u8
            },
    )
}

/// The body of a chat line: the sender in its 32-byte field, the message
/// type, then the text in its 512-byte field.
pub open spec fn send_message_bytes(sender: Seq<u8>, message_type: u32, text: Seq<u8>) -> Seq<u8> {
    padded_field(sender, MESSAGE_SENDER_FIELD_LEN as int) + le32_bytes(message_type as int) + padded_field(
        text,
        MESSAGE_TEXT_FIELD_LEN as int,
    )
}

fn push_padded(out: &mut Vec<u8>, s: &[u8], width: usize)
    ensures
        final(out)@ == old(out)@ + padded_field(s@, width as int),
{
    let ghost head = out@;
    let mut i: usize = 0;
    while i < width
        invariant
            i <= width,
            out@ == head + padded_field(s@, width as int).take(i as int),
        decreases width - i,
    {
        let b: u8 = if i < s.len() && i < width - 1 {
            s[i]
        } else {
            0u8
        };
        out.push(b);
        i = i + 1;
        assert(out@ =~= head + padded_field(s@, width as int).take(i as int));
    }
    assert(padded_field(s@, width as int).take(width as int) =~= padded_field(s@, width as int));
}

/// Builds the body of a chat line to a player: the sender's name (cut
/// to 31 bytes), the message type, and the text (cut to 511 bytes),
/// each text field zero-padded to its width.
pub fn send_message_body(sender: &str, message_type: u32, text: &str) -> (res: Vec<u8>)
    ensures
        res@ == send_message_bytes(sender.spec_bytes(), message_type, text.spec_bytes()),
        res@.len() == MESSAGE_SENDER_FIELD_LEN + 4 + MESSAGE_TEXT_FIELD_LEN,
{
    let mut v: Vec<u8> = Vec::new();
    push_padded(&mut v, sender.as_bytes(), MESSAGE_SENDER_FIELD_LEN);
    push_u32(&mut v, message_type);
    push_padded(&mut v, text.as_bytes(), MESSAGE_TEXT_FIELD_LEN);
    assert(v@ =~= send_message_bytes(sender.spec_bytes(), message_type, text.spec_bytes()));
    v
}

} // verus!
