//! The binary wire protocol: fixed-schema messages encoded to and decoded from
//! byte buffers.
//!
//! All multi-byte fields are big-endian. Strings carry a 4-byte length prefix
//! followed by that many UTF-8 bytes. The single-precision floating-point
//! fields of the protocol are carried as their 32-bit IEEE-754 bit patterns
//! (`u32`); the codec never interprets them, it only moves them, so encoding
//! and decoding are exact.
//!
//! [`spec_encode`] and [`spec_decode`] state the byte layout mathematically;
//! [`encode`] and [`decode`] are proved to match them, and
//! [`lemma_encode_decode`] proves the round trip.
use vstd::prelude::*;
use vstd::utf8::decode_utf8;
use vstd::utf8::encode_utf8;
use vstd::utf8::encode_utf8_decode_utf8;
use vstd::utf8::encode_utf8_valid_utf8;
use vstd::utf8::valid_utf8;

verus! {

/// A pair of 32-bit IEEE-754 bit patterns: a 2D point or velocity on the wire.
#[derive(Clone, Copy, Debug, PartialEq, Eq, Structural)]
pub struct Bits2 {
    pub x: u32,
    pub y: u32,
}

/// A player announcement: identity, display name, remaining life and position.
/// The `time` and `position` fields are IEEE-754 bit patterns.
#[derive(Clone, Debug, PartialEq, Eq)]
pub struct MsgPlayerInfo {
    pub id: u32,
    pub name: String,
    pub time: u32,
    pub position: Bits2,
}

/// The mathematical value of a [`MsgPlayerInfo`]: the name as its characters.
pub struct PlayerInfoView {
    pub id: u32,
    pub name: Seq<char>,
    pub time: u32,
    pub position: Bits2,
}

impl View for MsgPlayerInfo {
    type V = PlayerInfoView;

    open spec fn view(&self) -> PlayerInfoView {
        PlayerInfoView { id: self.id, name: self.name@, time: self.time, position: self.position }
    }
}

/// A kinematic snapshot of one player. All scalar fields but `id` are
/// IEEE-754 bit patterns.
#[derive(Clone, Copy, Debug, PartialEq, Eq, Structural)]
pub struct MsgPlayerState {
    pub id: u32,
    pub time: u32,
    pub position: Bits2,
    pub velocity: Bits2,
}

/// The closed set of message kinds. `Unknown` is the decode fallback for an
/// unrecognized kind tag; it is never encoded.
#[derive(Clone, Debug, PartialEq, Eq)]
pub enum MessageData {
    Unknown,
    InitPlayer(MsgPlayerInfo),
    NewPlayer(MsgPlayerInfo),
    PlayerState(MsgPlayerState),
    PlayerDisconnected(u32),
    PlayerEat(u32),
}

/// The mathematical value of a [`MessageData`].
pub enum MessageView {
    Unknown,
    InitPlayer(PlayerInfoView),
    NewPlayer(PlayerInfoView),
    PlayerState(MsgPlayerState),
    PlayerDisconnected(u32),
    PlayerEat(u32),
}

impl View for MessageData {
    type V = MessageView;

    open spec fn view(&self) -> MessageView {
        match self {
            MessageData::Unknown => MessageView::Unknown,
            MessageData::InitPlayer(info) => MessageView::InitPlayer(info@),
            MessageData::NewPlayer(info) => MessageView::NewPlayer(info@),
            MessageData::PlayerState(state) => MessageView::PlayerState(*state),
            MessageData::PlayerDisconnected(id) => MessageView::PlayerDisconnected(*id),
            MessageData::PlayerEat(amount) => MessageView::PlayerEat(*amount),
        }
    }
}

/// Why a byte buffer failed to decode. A failure is isolated to its own
/// message: the caller drops that message and goes on.
#[derive(Clone, Copy, Debug, PartialEq, Eq, Structural)]
pub enum DecodeError {
    /// The buffer ended before a fixed-width field or a declared string length.
    UnexpectedEnd,
    /// A name's bytes are not valid UTF-8.
    InvalidUtf8,
}

/// The kind tag a message travels under.
pub open spec fn spec_tag(m: MessageView) -> u32 {
    match m {
        MessageView::Unknown => 0,
        MessageView::InitPlayer(_) => 1,
        MessageView::NewPlayer(_) => 2,
        MessageView::PlayerState(_) => 3,
        MessageView::PlayerDisconnected(_) => 4,
        MessageView::PlayerEat(_) => 5,
    }
}

impl MessageData {
    /// The kind tag this message travels under.
    pub fn id(&self) -> (r: u32)
        ensures
            r == spec_tag(self@),
    {
        match self {
            MessageData::InitPlayer(_) => 1,
            MessageData::NewPlayer(_) => 2,
            MessageData::PlayerState(_) => 3,
            MessageData::PlayerDisconnected(_) => 4,
            MessageData::PlayerEat(_) => 5,
            MessageData::Unknown => 0,
        }
    }
}

/// The four big-endian bytes of a 32-bit value.
pub open spec fn spec_be32(x: u32) -> Seq<u8> {
    seq![(x >> 24) as u8, (x >> 16) as u8, (x >> 8) as u8, x as u8]
}

/// The 32-bit value read big-endian from four bytes at position `i`.
pub open spec fn spec_u32_at(b: Seq<u8>, i: int) -> u32
    recommends
        0 <= i,
        i + 4 <= b.len(),
{
    ((b[i] as u32) << 24) | ((b[i + 1] as u32) << 16) | ((b[i + 2] as u32) << 8) | (b[i + 3] as u32)
}

/// Reassembling the big-endian bytes of a value gives the value back.
proof fn lemma_be32_roundtrip(x: u32)
    ensures
        spec_u32_at(spec_be32(x), 0) == x,
{
    assert((((x >> 24) as u8 as u32) << 24) | (((x >> 16) as u8 as u32) << 16) | (((x
        >> 8) as u8 as u32) << 8) | (x as u8 as u32) == x) by (bit_vector);
}

/// Four big-endian bytes found anywhere in a buffer read back as their value.
proof fn lemma_u32_at(b: Seq<u8>, i: int, x: u32)
    requires
        0 <= i,
        i + 4 <= b.len(),
        b.subrange(i, i + 4) == spec_be32(x),
    ensures
        spec_u32_at(b, i) == x,
{
    let s = b.subrange(i, i + 4);
    assert(b[i] == s[0] && b[i + 1] == s[1] && b[i + 2] == s[2] && b[i + 3] == s[3]);
    lemma_be32_roundtrip(x);
}

/// Appends the four big-endian bytes of `x`.
fn write_be32(out: &mut Vec<u8>, x: u32)
    ensures
        final(out)@ == old(out)@ + spec_be32(x),
{
    out.push((x >> 24) as u8);
    out.push((x >> 16) as u8);
    out.push((x >> 8) as u8);
    out.push(x as u8);
    assert(out@ =~= old(out)@ + spec_be32(x));
}

/// Reads the 32-bit big-endian value at position `i`.
fn read_u32_at(data: &Vec<u8>, i: usize) -> (r: u32)
    requires
        i + 4 <= data@.len(),
    ensures
        r == spec_u32_at(data@, i as int),
{
    let len = data.len();
    assert(i + 4 <= len);
    ((data[i] as u32) << 24) | ((data[i + 1] as u32) << 16) | ((data[i + 2] as u32) << 8) | (data[i
        + 3] as u32)
}

/// Appends every byte of `src`.
fn append_bytes(out: &mut Vec<u8>, src: &[u8])
    ensures
        final(out)@ == old(out)@ + src@,
{
    let n = src.len();
    let mut i: usize = 0;
    while i < n
        invariant
            i <= n,
            n == src@.len(),
            out@ == old(out)@ + src@.subrange(0, i as int),
        decreases n - i,
    {
        out.push(src[i]);
        assert(out@ =~= old(out)@ + src@.subrange(0, i + 1 as int));
        i = i + 1;
    }
    assert(src@.subrange(0, n as int) =~= src@);
}

/// Copies `data[start..end]` into a fresh buffer.
fn bytes_range(data: &Vec<u8>, start: usize, end: usize) -> (r: Vec<u8>)
    requires
        start <= end,
        end <= data@.len(),
    ensures
        r@ == data@.subrange(start as int, end as int),
{
    let mut r: Vec<u8> = Vec::new();
    let mut i: usize = start;
    while i < end
        invariant
            start <= i <= end,
            end <= data@.len(),
            r@ == data@.subrange(start as int, i as int),
        decreases end - i,
    {
        r.push(data[i]);
        assert(r@ =~= data@.subrange(start as int, i + 1 as int));
        i = i + 1;
    }
    r
}

/// Relies on std's `String::from_utf8`: it succeeds exactly on valid UTF-8
/// input and returns the string of the decoded characters.
#[verifier::external_body]
fn string_from_utf8(bytes: Vec<u8>) -> (r: Option<String>)
    ensures
        r is Some <==> valid_utf8(bytes@),
        r is Some ==> r.unwrap()@ == decode_utf8(bytes@),
{
    String::from_utf8(bytes).ok()
}

/// The payload bytes of a player announcement.
pub open spec fn spec_encode_info(m: PlayerInfoView) -> Seq<u8> {
    spec_be32(m.id) + spec_be32(encode_utf8(m.name).len() as u32) + encode_utf8(m.name) + spec_be32(
        m.time,
    ) + spec_be32(m.position.x) + spec_be32(m.position.y)
}

/// The payload bytes of a kinematic snapshot.
pub open spec fn spec_encode_state(m: MsgPlayerState) -> Seq<u8> {
    spec_be32(m.id) + spec_be32(m.time) + spec_be32(m.position.x) + spec_be32(m.position.y)
        + spec_be32(m.velocity.x) + spec_be32(m.velocity.y)
}

/// The payload bytes of a message. Meaningful for every kind but `Unknown`,
/// which is never encoded.
pub open spec fn spec_encode(m: MessageView) -> Seq<u8>
    recommends
        !(m is Unknown),
{
    match m {
        MessageView::Unknown => Seq::empty(),
        MessageView::InitPlayer(info) => spec_encode_info(info),
        MessageView::NewPlayer(info) => spec_encode_info(info),
        MessageView::PlayerState(state) => spec_encode_state(state),
        MessageView::PlayerDisconnected(id) => spec_be32(id),
        MessageView::PlayerEat(amount) => spec_be32(amount),
    }
}

/// Whether a message's name (if it has one) fits the 4-byte length prefix.
pub open spec fn spec_name_fits(m: MessageView) -> bool {
    match m {
        MessageView::InitPlayer(info) => encode_utf8(info.name).len() <= u32::MAX,
        MessageView::NewPlayer(info) => encode_utf8(info.name).len() <= u32::MAX,
        _ => true,
    }
}

/// Decodes a player announcement payload.
pub open spec fn spec_decode_info(b: Seq<u8>) -> Result<PlayerInfoView, DecodeError> {
    if b.len() < 8 {
        Err(DecodeError::UnexpectedEnd)
    } else {
        let n = spec_u32_at(b, 4) as int;
        if b.len() < 20 + n {
            Err(DecodeError::UnexpectedEnd)
        } else if !valid_utf8(b.subrange(8, 8 + n)) {
            Err(DecodeError::InvalidUtf8)
        } else {
            Ok(
                PlayerInfoView {
                    id: spec_u32_at(b, 0),
                    name: decode_utf8(b.subrange(8, 8 + n)),
                    time: spec_u32_at(b, 8 + n),
                    position: Bits2 { x: spec_u32_at(b, 12 + n), y: spec_u32_at(b, 16 + n) },
                },
            )
        }
    }
}

/// Decodes a kinematic snapshot payload.
pub open spec fn spec_decode_state(b: Seq<u8>) -> Result<MsgPlayerState, DecodeError> {
    if b.len() < 24 {
        Err(DecodeError::UnexpectedEnd)
    } else {
        Ok(
            MsgPlayerState {
                id: spec_u32_at(b, 0),
                time: spec_u32_at(b, 4),
                position: Bits2 { x: spec_u32_at(b, 8), y: spec_u32_at(b, 12) },
                velocity: Bits2 { x: spec_u32_at(b, 16), y: spec_u32_at(b, 20) },
            },
        )
    }
}

/// Decodes a payload under a kind tag. An unrecognized tag decodes to
/// `Unknown` rather than failing, for forward compatibility.
pub open spec fn spec_decode(tag: u32, b: Seq<u8>) -> Result<MessageView, DecodeError> {
    if tag == 1 {
        match spec_decode_info(b) {
            Ok(info) => Ok(MessageView::InitPlayer(info)),
            Err(e) => Err(e),
        }
    } else if tag == 2 {
        match spec_decode_info(b) {
            Ok(info) => Ok(MessageView::NewPlayer(info)),
            Err(e) => Err(e),
        }
    } else if tag == 3 {
        match spec_decode_state(b) {
            Ok(state) => Ok(MessageView::PlayerState(state)),
            Err(e) => Err(e),
        }
    } else if tag == 4 {
        if b.len() < 4 {
            Err(DecodeError::UnexpectedEnd)
        } else {
            Ok(MessageView::PlayerDisconnected(spec_u32_at(b, 0)))
        }
    } else if tag == 5 {
        if b.len() < 4 {
            Err(DecodeError::UnexpectedEnd)
        } else {
            Ok(MessageView::PlayerEat(spec_u32_at(b, 0)))
        }
    } else {
        Ok(MessageView::Unknown)
    }
}

/// The mathematical value of a decode result.
pub open spec fn spec_result_view(r: Result<MessageData, DecodeError>) -> Result<
    MessageView,
    DecodeError,
> {
    match r {
        Ok(m) => Ok(m@),
        Err(e) => Err(e),
    }
}

/// Appends the wire form of a player announcement.
fn encode_info(m: &MsgPlayerInfo, out: &mut Vec<u8>)
    requires
        encode_utf8(m@.name).len() <= u32::MAX,
    ensures
        final(out)@ == old(out)@ + spec_encode_info(m@),
{
    write_be32(out, m.id);
    let bytes = m.name.as_str().as_bytes();
    write_be32(out, bytes.len() as u32);
    append_bytes(out, bytes);
    write_be32(out, m.time);
    write_be32(out, m.position.x);
    write_be32(out, m.position.y);
    assert(out@ =~= old(out)@ + spec_encode_info(m@));
}

/// Appends the wire form of a kinematic snapshot.
fn encode_state(m: &MsgPlayerState, out: &mut Vec<u8>)
    ensures
        final(out)@ == old(out)@ + spec_encode_state(*m),
{
    write_be32(out, m.id);
    write_be32(out, m.time);
    write_be32(out, m.position.x);
    write_be32(out, m.position.y);
    write_be32(out, m.velocity.x);
    write_be32(out, m.velocity.y);
    assert(out@ =~= old(out)@ + spec_encode_state(*m));
}

/// Encodes a message's payload bytes. `Unknown` is not writable: asking to
/// encode it is a programming error in the caller, so it is ruled out here.
pub fn encode(m: &MessageData) -> (r: Vec<u8>)
    requires
        !(m@ is Unknown),
        spec_name_fits(m@),
    ensures
        r@ == spec_encode(m@),
{
    let mut out: Vec<u8> = Vec::new();
    match m {
        MessageData::Unknown => {
        },
        MessageData::InitPlayer(info) => encode_info(info, &mut out),
        MessageData::NewPlayer(info) => encode_info(info, &mut out),
        MessageData::PlayerState(state) => encode_state(state, &mut out),
        MessageData::PlayerDisconnected(id) => write_be32(&mut out, *id),
        MessageData::PlayerEat(amount) => write_be32(&mut out, *amount),
    }
    assert(out@ =~= spec_encode(m@));
    out
}

/// Decodes a player announcement payload.
fn decode_info(data: &Vec<u8>) -> (r: Result<MsgPlayerInfo, DecodeError>)
    ensures
        match r {
            Ok(info) => spec_decode_info(data@) == Ok::<PlayerInfoView, DecodeError>(info@),
            Err(e) => spec_decode_info(data@) == Err::<PlayerInfoView, DecodeError>(e),
        },
{
    if data.len() < 8 {
        return Err(DecodeError::UnexpectedEnd);
    }
    let id = read_u32_at(data, 0);
    let n32 = read_u32_at(data, 4);
    let n = n32 as usize;
    if data.len() < 20 || data.len() - 20 < n {
        return Err(DecodeError::UnexpectedEnd);
    }
    let name_bytes = bytes_range(data, 8, 8 + n);
    match string_from_utf8(name_bytes) {
        None => Err(DecodeError::InvalidUtf8),
        Some(name) => {
            let time = read_u32_at(data, 8 + n);
            let x = read_u32_at(data, 12 + n);
            let y = read_u32_at(data, 16 + n);
            Ok(MsgPlayerInfo { id, name, time, position: Bits2 { x, y } })
        },
    }
}

/// Decodes a kinematic snapshot payload.
fn decode_state(data: &Vec<u8>) -> (r: Result<MsgPlayerState, DecodeError>)
    ensures
        r == spec_decode_state(data@),
{
    if data.len() < 24 {
        return Err(DecodeError::UnexpectedEnd);
    }
    let id = read_u32_at(data, 0);
    let time = read_u32_at(data, 4);
    let px = read_u32_at(data, 8);
    let py = read_u32_at(data, 12);
    let vx = read_u32_at(data, 16);
    let vy = read_u32_at(data, 20);
    Ok(MsgPlayerState { id, time, position: Bits2 { x: px, y: py }, velocity: Bits2 { x: vx, y: vy } })
}

/// Decodes the payload bytes received under a kind tag. An unrecognized tag
/// yields `Unknown`; a malformed payload yields the error that names what was
/// wrong, never a substituted default.
pub fn decode(tag: u32, data: &Vec<u8>) -> (r: Result<MessageData, DecodeError>)
    ensures
        spec_result_view(r) == spec_decode(tag, data@),
{
    if tag == 1 {
        match decode_info(data) {
            Ok(info) => Ok(MessageData::InitPlayer(info)),
            Err(e) => Err(e),
        }
    } else if tag == 2 {
        match decode_info(data) {
            Ok(info) => Ok(MessageData::NewPlayer(info)),
            Err(e) => Err(e),
        }
    } else if tag == 3 {
        match decode_state(data) {
            Ok(state) => Ok(MessageData::PlayerState(state)),
            Err(e) => Err(e),
        }
    } else if tag == 4 {
        if data.len() < 4 {
            Err(DecodeError::UnexpectedEnd)
        } else {
            Ok(MessageData::PlayerDisconnected(read_u32_at(data, 0)))
        }
    } else if tag == 5 {
        if data.len() < 4 {
            Err(DecodeError::UnexpectedEnd)
        } else {
            Ok(MessageData::PlayerEat(read_u32_at(data, 0)))
        }
    } else {
        Ok(MessageData::Unknown)
    }
}

/// Round trip for a player announcement payload.
proof fn lemma_info_round_trip(m: PlayerInfoView)
    requires
        encode_utf8(m.name).len() <= u32::MAX,
    ensures
        spec_decode_info(spec_encode_info(m)) == Ok::<PlayerInfoView, DecodeError>(m),
{
    broadcast use encode_utf8_valid_utf8;
    broadcast use encode_utf8_decode_utf8;

    let nb = encode_utf8(m.name);
    let n = nb.len() as int;
    let b = spec_encode_info(m);
    assert(b.len() == 20 + n);
    assert(b.subrange(4, 8) =~= spec_be32(n as u32));
    lemma_u32_at(b, 4, n as u32);
    assert(b.subrange(0, 4) =~= spec_be32(m.id));
    lemma_u32_at(b, 0, m.id);
    assert(b.subrange(8, 8 + n) =~= nb);
    assert(b.subrange(8 + n, 12 + n) =~= spec_be32(m.time));
    lemma_u32_at(b, 8 + n, m.time);
    assert(b.subrange(12 + n, 16 + n) =~= spec_be32(m.position.x));
    lemma_u32_at(b, 12 + n, m.position.x);
    assert(b.subrange(16 + n, 20 + n) =~= spec_be32(m.position.y));
    lemma_u32_at(b, 16 + n, m.position.y);
    assert(spec_decode_info(b) == Ok::<PlayerInfoView, DecodeError>(m));
}

/// Round trip for a kinematic snapshot payload.
proof fn lemma_state_round_trip(m: MsgPlayerState)
    ensures
        spec_decode_state(spec_encode_state(m)) == Ok::<MsgPlayerState, DecodeError>(m),
{
    let b = spec_encode_state(m);
    assert(b.len() == 24);
    assert(b.subrange(0, 4) =~= spec_be32(m.id));
    lemma_u32_at(b, 0, m.id);
    assert(b.subrange(4, 8) =~= spec_be32(m.time));
    lemma_u32_at(b, 4, m.time);
    assert(b.subrange(8, 12) =~= spec_be32(m.position.x));
    lemma_u32_at(b, 8, m.position.x);
    assert(b.subrange(12, 16) =~= spec_be32(m.position.y));
    lemma_u32_at(b, 12, m.position.y);
    assert(b.subrange(16, 20) =~= spec_be32(m.velocity.x));
    lemma_u32_at(b, 16, m.velocity.x);
    assert(b.subrange(20, 24) =~= spec_be32(m.velocity.y));
    lemma_u32_at(b, 20, m.velocity.y);
}

/// Round trip: every message kind except `Unknown` decodes, under its own
/// kind tag, back to itself from its encoding — for all field values,
/// including empty names and negative amounts.
pub proof fn lemma_encode_decode(m: MessageView)
    requires
        !(m is Unknown),
        spec_name_fits(m),
    ensures
        spec_decode(spec_tag(m), spec_encode(m)) == Ok::<MessageView, DecodeError>(m),
{
    match m {
        MessageView::Unknown => {
        },
        MessageView::InitPlayer(info) => lemma_info_round_trip(info),
        MessageView::NewPlayer(info) => lemma_info_round_trip(info),
        MessageView::PlayerState(state) => lemma_state_round_trip(state),
        MessageView::PlayerDisconnected(id) => {
            let b = spec_encode(m);
            assert(b.subrange(0, 4) =~= spec_be32(id));
            lemma_u32_at(b, 0, id);
        },
        MessageView::PlayerEat(amount) => {
            let b = spec_encode(m);
            assert(b.subrange(0, 4) =~= spec_be32(amount));
            lemma_u32_at(b, 0, amount);
        },
    }
}

} // verus!
