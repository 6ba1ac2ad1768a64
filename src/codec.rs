use vstd::prelude::*;

verus! {

// ---------------------------------------------------------------------------
// Big-endian primitive encodings
// ---------------------------------------------------------------------------

/// The four bytes of `v`, most significant first.
pub open spec fn be_u32(v: u32) -> Seq<u8> {
    seq![(v >> 24u32) as u8, (v >> 16u32) as u8, (v >> 8u32) as u8, v as u8]
}

/// The value of the first four bytes of `b`, read most significant first.
pub open spec fn u32_from_be(b: Seq<u8>) -> u32
    recommends
        b.len() >= 4,
{
    ((b[0] as u32) << 24u32) | ((b[1] as u32) << 16u32) | ((b[2] as u32) << 8u32) | (b[3] as u32)
}

/// The eight bytes of `v`, most significant first.
pub open spec fn be_u64(v: u64) -> Seq<u8> {
    seq![
        (v >> 56u64) as u8,
        (v >> 48u64) as u8,
        (v >> 40u64) as u8,
        (v >> 32u64) as u8,
        (v >> 24u64) as u8,
        (v >> 16u64) as u8,
        (v >> 8u64) as u8,
        v as u8,
    ]
}

/// The value of the first eight bytes of `b`, read most significant first.
pub open spec fn u64_from_be(b: Seq<u8>) -> u64
    recommends
        b.len() >= 8,
{
    ((b[0] as u64) << 56u64) | ((b[1] as u64) << 48u64) | ((b[2] as u64) << 40u64) | ((b[3] as u64)
        << 32u64) | ((b[4] as u64) << 24u64) | ((b[5] as u64) << 16u64) | ((b[6] as u64) << 8u64)
        | (b[7] as u64)
}

/// Decoding the big-endian bytes of a `u32` gives the value back.
pub proof fn lemma_u32_round_trip(v: u32)
    ensures
        u32_from_be(be_u32(v)) == v,
{
    assert(((((v >> 24u32) as u8) as u32) << 24u32) | ((((v >> 16u32) as u8) as u32) << 16u32)
        | ((((v >> 8u32) as u8) as u32) << 8u32) | ((v as u8) as u32) == v) by (bit_vector);
}

/// Decoding the big-endian bytes of a `u64` gives the value back.
pub proof fn lemma_u64_round_trip(v: u64)
    ensures
        u64_from_be(be_u64(v)) == v,
{
    assert(((((v >> 56u64) as u8) as u64) << 56u64) | ((((v >> 48u64) as u8) as u64) << 48u64)
        | ((((v >> 40u64) as u8) as u64) << 40u64) | ((((v >> 32u64) as u8) as u64) << 32u64)
        | ((((v >> 24u64) as u8) as u64) << 24u64) | ((((v >> 16u64) as u8) as u64) << 16u64)
        | ((((v >> 8u64) as u8) as u64) << 8u64) | ((v as u8) as u64) == v) by (bit_vector);
}

// ---------------------------------------------------------------------------
// Three-component vectors
// ---------------------------------------------------------------------------

/// A three-component vector of single-precision numbers, each component held
/// as its IEEE-754 bit pattern (`f32::to_bits`), which is exactly what travels
/// on the wire.
#[derive(Debug, PartialEq, Eq, Structural, Copy, Clone)]
pub struct Vec3Bits {
    pub x: u32,
    pub y: u32,
    pub z: u32,
}

impl Vec3Bits {
    /// The vector whose three components are all `+0.0`.
    pub fn zero() -> (r: Vec3Bits)
        ensures
            r == (Vec3Bits { x: 0, y: 0, z: 0 }),
    {
        Vec3Bits { x: 0, y: 0, z: 0 }
    }
}

/// The twelve bytes of a vector: `x`, `y`, `z`, each big-endian.
pub open spec fn vec3_bytes(v: Vec3Bits) -> Seq<u8> {
    be_u32(v.x) + be_u32(v.y) + be_u32(v.z)
}

/// The vector held in the first twelve bytes of `b`.
pub open spec fn vec3_from_be(b: Seq<u8>) -> Vec3Bits
    recommends
        b.len() >= 12,
{
    Vec3Bits {
        x: u32_from_be(b.subrange(0, 4)),
        y: u32_from_be(b.subrange(4, 8)),
        z: u32_from_be(b.subrange(8, 12)),
    }
}

/// Decoding the bytes of a vector gives the vector back.
pub proof fn lemma_vec3_round_trip(v: Vec3Bits)
    ensures
        vec3_from_be(vec3_bytes(v)) == v,
{
    let b = vec3_bytes(v);
    assert(b.subrange(0, 4) =~= be_u32(v.x));
    assert(b.subrange(4, 8) =~= be_u32(v.y));
    assert(b.subrange(8, 12) =~= be_u32(v.z));
    lemma_u32_round_trip(v.x);
    lemma_u32_round_trip(v.y);
    lemma_u32_round_trip(v.z);
}

// ---------------------------------------------------------------------------
// Byte representations
// ---------------------------------------------------------------------------

/// Values that have a fixed wire representation.
pub trait AsBytes {
    /// The bytes that represent the value on the wire.
    spec fn wire_bytes(&self) -> Seq<u8>;

    fn as_bytes(&self) -> (r: Vec<u8>)
        ensures
            r@ == self.wire_bytes(),
    ;
}

impl AsBytes for u8 {
    open spec fn wire_bytes(&self) -> Seq<u8> {
        seq![*self]
    }

    fn as_bytes(&self) -> (r: Vec<u8>) {
        vec![*self]
    }
}

impl AsBytes for u32 {
    open spec fn wire_bytes(&self) -> Seq<u8> {
        be_u32(*self)
    }

    fn as_bytes(&self) -> (r: Vec<u8>) {
        let v = *self;
        let r = vec![(v >> 24u32) as u8, (v >> 16u32) as u8, (v >> 8u32) as u8, v as u8];
        assert(r@ =~= be_u32(v));
        r
    }
}

impl AsBytes for u64 {
    open spec fn wire_bytes(&self) -> Seq<u8> {
        be_u64(*self)
    }

    fn as_bytes(&self) -> (r: Vec<u8>) {
        let v = *self;
        let r = vec![
            (v >> 56u64) as u8,
            (v >> 48u64) as u8,
            (v >> 40u64) as u8,
            (v >> 32u64) as u8,
            (v >> 24u64) as u8,
            (v >> 16u64) as u8,
            (v >> 8u64) as u8,
            v as u8,
        ];
        assert(r@ =~= be_u64(v));
        r
    }
}

impl AsBytes for Vec3Bits {
    open spec fn wire_bytes(&self) -> Seq<u8> {
        vec3_bytes(*self)
    }

    fn as_bytes(&self) -> (r: Vec<u8>) {
        let mut r = self.x.as_bytes();
        let mut y = self.y.as_bytes();
        let mut z = self.z.as_bytes();
        r.append(&mut y);
        r.append(&mut z);
        r
    }
}

// ---------------------------------------------------------------------------
// Commands
// ---------------------------------------------------------------------------

/// The kind of a message, carried in its first byte.
///
/// Requests from a client: `LOGIN`, `STATE`, `POS`, `MUT`, `PPOS`, `GNDSTATE`,
/// `BLOB`. Replies from the server: `SETPID`, `RSTATE`, `RPPOS`, and `MUT`
/// again, as the body of a drained terrain mailbox.
#[allow(non_camel_case_types)]
#[derive(Debug, PartialEq, Eq, Structural, Copy, Clone)]
pub enum Command {
    BLOB,
    STATE,
    POS,
    MUT,
    RSTATE,
    PPOS,
    RPPOS,
    GNDSTATE,
    RGNDSTATE,
    LOGIN,
    SETPID,
}

/// The tag byte of each command.
pub open spec fn tag_of(c: Command) -> u8 {
    match c {
        Command::BLOB => 0x00,
        Command::STATE => 0x01,
        Command::POS => 0x02,
        Command::MUT => 0x03,
        Command::RSTATE => 0x04,
        Command::PPOS => 0x05,
        Command::RPPOS => 0x06,
        Command::GNDSTATE => 0x07,
        Command::RGNDSTATE => 0x08,
        Command::LOGIN => 0x09,
        Command::SETPID => 0x0A,
    }
}

/// The command that a tag byte stands for, if any.
pub open spec fn command_of(t: u8) -> Option<Command> {
    if t == 0x00 {
        Some(Command::BLOB)
    } else if t == 0x01 {
        Some(Command::STATE)
    } else if t == 0x02 {
        Some(Command::POS)
    } else if t == 0x03 {
        Some(Command::MUT)
    } else if t == 0x04 {
        Some(Command::RSTATE)
    } else if t == 0x05 {
        Some(Command::PPOS)
    } else if t == 0x06 {
        Some(Command::RPPOS)
    } else if t == 0x07 {
        Some(Command::GNDSTATE)
    } else if t == 0x08 {
        Some(Command::RGNDSTATE)
    } else if t == 0x09 {
        Some(Command::LOGIN)
    } else if t == 0x0A {
        Some(Command::SETPID)
    } else {
        None
    }
}

/// Each command's tag reads back as that command, and every tag that reads as
/// a command is that command's tag.
pub proof fn lemma_tag_round_trip(c: Command, t: u8)
    ensures
        command_of(tag_of(c)) == Some(c),
        command_of(t) == Some(c) <==> t == tag_of(c),
{
}

impl Command {
    /// The command whose tag is `t`; `None` for a byte that is no tag.
    pub fn from_repr(t: u8) -> (r: Option<Command>)
        ensures
            r == command_of(t),
    {
        match t {
            0x00 => Some(Command::BLOB),
            0x01 => Some(Command::STATE),
            0x02 => Some(Command::POS),
            0x03 => Some(Command::MUT),
            0x04 => Some(Command::RSTATE),
            0x05 => Some(Command::PPOS),
            0x06 => Some(Command::RPPOS),
            0x07 => Some(Command::GNDSTATE),
            0x08 => Some(Command::RGNDSTATE),
            0x09 => Some(Command::LOGIN),
            0x0A => Some(Command::SETPID),
            _ => None,
        }
    }

    /// The tag byte of this command.
    pub fn tag(self) -> (r: u8)
        ensures
            r == tag_of(self),
    {
        match self {
            Command::BLOB => 0x00,
            Command::STATE => 0x01,
            Command::POS => 0x02,
            Command::MUT => 0x03,
            Command::RSTATE => 0x04,
            Command::PPOS => 0x05,
            Command::RPPOS => 0x06,
            Command::GNDSTATE => 0x07,
            Command::RGNDSTATE => 0x08,
            Command::LOGIN => 0x09,
            Command::SETPID => 0x0A,
        }
    }
}

// ---------------------------------------------------------------------------
// Messages
// ---------------------------------------------------------------------------

/// One datagram: a command and its untyped payload.
#[derive(Debug)]
pub struct Message {
    pub command: Command,
    pub payload: Vec<u8>,
}

/// The datagram that carries `command` and `payload`: the tag byte, then the
/// payload.
pub open spec fn encode(command: Command, payload: Seq<u8>) -> Seq<u8> {
    seq![tag_of(command)] + payload
}

/// The command and payload of a datagram; `None` when it is empty or its first
/// byte is no tag.
pub open spec fn decode(data: Seq<u8>) -> Option<(Command, Seq<u8>)> {
    if data.len() == 0 {
        None
    } else {
        match command_of(data[0]) {
            Some(c) => Some((c, data.drop_first())),
            None => None,
        }
    }
}

/// The byte at `offset`, if the payload reaches it.
pub open spec fn field_u8(p: Seq<u8>, offset: int) -> Option<u8> {
    if 0 <= offset && offset + 1 <= p.len() {
        Some(p[offset])
    } else {
        None
    }
}

/// The big-endian `u32` at `offset`, if the payload holds all four bytes.
pub open spec fn field_u32(p: Seq<u8>, offset: int) -> Option<u32> {
    if 0 <= offset && offset + 4 <= p.len() {
        Some(u32_from_be(p.subrange(offset, offset + 4)))
    } else {
        None
    }
}

/// The big-endian `u64` at `offset`, if the payload holds all eight bytes.
pub open spec fn field_u64(p: Seq<u8>, offset: int) -> Option<u64> {
    if 0 <= offset && offset + 8 <= p.len() {
        Some(u64_from_be(p.subrange(offset, offset + 8)))
    } else {
        None
    }
}

/// The vector at `offset`, if the payload holds all twelve bytes.
pub open spec fn field_vec3(p: Seq<u8>, offset: int) -> Option<Vec3Bits> {
    if 0 <= offset && offset + 12 <= p.len() {
        Some(vec3_from_be(p.subrange(offset, offset + 12)))
    } else {
        None
    }
}

/// Reads four bytes of `p` from `o` on as a big-endian `u32`.
fn read_u32(p: &Vec<u8>, o: usize) -> (r: u32)
    requires
        o + 4 <= p.len(),
    ensures
        r == u32_from_be(p@.subrange(o as int, o + 4)),
{
    let r = ((p[o] as u32) << 24u32) | ((p[o + 1] as u32) << 16u32) | ((p[o + 2] as u32) << 8u32)
        | (p[o + 3] as u32);
    let ghost s = p@.subrange(o as int, o + 4);
    assert(s[0] == p@[o as int] && s[1] == p@[o + 1] && s[2] == p@[o + 2] && s[3] == p@[o + 3]);
    r
}

impl Message {
    /// A message of the given command with an empty payload.
    pub fn new(command: Command) -> (r: Message)
        ensures
            r.command == command,
            r.payload@ == Seq::<u8>::empty(),
    {
        Message { command, payload: Vec::new() }
    }

    /// Appends `bytes` to the payload.
    pub fn push_bytes(&mut self, bytes: Vec<u8>)
        ensures
            final(self).command == old(self).command,
            final(self).payload@ == old(self).payload@ + bytes@,
    {
        let mut bytes = bytes;
        self.payload.append(&mut bytes);
    }

    /// The datagram for this message. The payload is moved into it, which
    /// leaves the message's own payload empty.
    pub fn get_bytes(&mut self) -> (r: Vec<u8>)
        ensures
            r@ == encode(old(self).command, old(self).payload@),
            final(self).command == old(self).command,
            final(self).payload@ == Seq::<u8>::empty(),
    {
        let mut bytes = vec![self.command.tag()];
        bytes.append(&mut self.payload);
        bytes
    }

    /// The message that a received datagram holds: `None` when the datagram
    /// is empty or its first byte is no command's tag. The payload is not
    /// looked into.
    pub fn try_from_data(data: &[u8]) -> (r: Option<Message>)
        ensures
            decode(data@) is None <==> r is None,
            r matches Some(m) ==> decode(data@) == Some((m.command, m.payload@)),
    {
        if data.len() == 0 {
            return None;
        }
        let command = Command::from_repr(data[0]);
        match command {
            None => None,
            Some(command) => {
                let mut payload: Vec<u8> = Vec::new();
                let mut i: usize = 1;
                while i < data.len()
                    invariant
                        1 <= i <= data@.len(),
                        payload@ == data@.subrange(1, i as int),
                    decreases data@.len() - i,
                {
                    payload.push(data[i]);
                    i = i + 1;
                }
                assert(payload@ =~= data@.drop_first());
                Some(Message { command, payload })
            },
        }
    }

    /// The payload byte at `offset`; `None` past the end.
    pub fn extract_u8(&self, offset: usize) -> (r: Option<u8>)
        ensures
            r == field_u8(self.payload@, offset as int),
    {
        if offset < self.payload.len() {
            Some(self.payload[offset])
        } else {
            None
        }
    }

    /// The big-endian `u32` at `offset`; `None` unless four bytes are there.
    pub fn extract_u32(&self, offset: usize) -> (r: Option<u32>)
        ensures
            r == field_u32(self.payload@, offset as int),
    {
        let len = self.payload.len();
        if offset <= len && len - offset >= 4 {
            Some(read_u32(&self.payload, offset))
        } else {
            None
        }
    }

    /// The big-endian `u64` at `offset`; `None` unless eight bytes are there.
    pub fn extract_u64(&self, offset: usize) -> (r: Option<u64>)
        ensures
            r == field_u64(self.payload@, offset as int),
    {
        let len = self.payload.len();
        if offset <= len && len - offset >= 8 {
            let hi = read_u32(&self.payload, offset) as u64;
            let lo = read_u32(&self.payload, offset + 4) as u64;
            let r = (hi << 32u64) | lo;
            let ghost p = self.payload@;
            let ghost s = p.subrange(offset as int, offset + 8);
            assert(s[0] == p[offset as int] && s[1] == p[offset + 1] && s[2] == p[offset + 2]
                && s[3] == p[offset + 3] && s[4] == p[offset + 4] && s[5] == p[offset + 5]
                && s[6] == p[offset + 6] && s[7] == p[offset + 7]);
            let ghost h = p.subrange(offset as int, offset + 4);
            let ghost l = p.subrange(offset + 4, offset + 8);
            assert(h[0] == s[0] && h[1] == s[1] && h[2] == s[2] && h[3] == s[3]);
            assert(l[0] == s[4] && l[1] == s[5] && l[2] == s[6] && l[3] == s[7]);
            let ghost (b0, b1, b2, b3, b4, b5, b6, b7) = (s[0], s[1], s[2], s[3], s[4], s[5], s[6], s[7]);
            assert(((((((b0 as u32) << 24u32) | ((b1 as u32) << 16u32) | ((b2 as u32) << 8u32)
                | (b3 as u32)) as u64) << 32u64) | ((((b4 as u32) << 24u32) | ((b5 as u32) << 16u32)
                | ((b6 as u32) << 8u32) | (b7 as u32)) as u64)) == ((b0 as u64) << 56u64) | ((b1 as u64)
                << 48u64) | ((b2 as u64) << 40u64) | ((b3 as u64) << 32u64) | ((b4 as u64) << 24u64)
                | ((b5 as u64) << 16u64) | ((b6 as u64) << 8u64) | (b7 as u64)) by (bit_vector);
            Some(r)
        } else {
            None
        }
    }

    /// The bit pattern of the big-endian single-precision number at `offset`;
    /// `None` unless four bytes are there.
    pub fn extract_f32(&self, offset: usize) -> (r: Option<u32>)
        ensures
            r == field_u32(self.payload@, offset as int),
    {
        self.extract_u32(offset)
    }

    /// The vector at `offset`; `None` unless twelve bytes are there.
    pub fn extract_vec3a(&self, offset: usize) -> (r: Option<Vec3Bits>)
        ensures
            r == field_vec3(self.payload@, offset as int),
    {
        let len = self.payload.len();
        if offset <= len && len - offset >= 12 {
            let x = read_u32(&self.payload, offset);
            let y = read_u32(&self.payload, offset + 4);
            let z = read_u32(&self.payload, offset + 8);
            let ghost p = self.payload@;
            let ghost s = p.subrange(offset as int, offset + 12);
            assert(s.subrange(0, 4) =~= p.subrange(offset as int, offset + 4));
            assert(s.subrange(4, 8) =~= p.subrange(offset + 4, offset + 8));
            assert(s.subrange(8, 12) =~= p.subrange(offset + 8, offset + 12));
            Some(Vec3Bits { x, y, z })
        } else {
            None
        }
    }
}

// ---------------------------------------------------------------------------
// Round trips
// ---------------------------------------------------------------------------

/// Decoding an encoded message gives back its command and payload, whatever
/// the payload holds.
pub proof fn lemma_decode_encode(command: Command, payload: Seq<u8>)
    ensures
        decode(encode(command, payload)) == Some((command, payload)),
{
    lemma_tag_round_trip(command, tag_of(command));
    assert(encode(command, payload).drop_first() =~= payload);
}

/// A byte placed after `a` is read back at offset `a.len()`.
pub proof fn lemma_field_u8(a: Seq<u8>, v: u8, b: Seq<u8>)
    ensures
        field_u8(a + seq![v] + b, a.len() as int) == Some(v),
{
    assert((a + seq![v] + b)[a.len() as int] == v);
}

/// A `u32` placed after `a` is read back at offset `a.len()`.
pub proof fn lemma_field_u32(a: Seq<u8>, v: u32, b: Seq<u8>)
    ensures
        field_u32(a + be_u32(v) + b, a.len() as int) == Some(v),
{
    let p = a + be_u32(v) + b;
    assert(p.subrange(a.len() as int, a.len() as int + 4) =~= be_u32(v));
    lemma_u32_round_trip(v);
}

/// A `u64` placed after `a` is read back at offset `a.len()`.
pub proof fn lemma_field_u64(a: Seq<u8>, v: u64, b: Seq<u8>)
    ensures
        field_u64(a + be_u64(v) + b, a.len() as int) == Some(v),
{
    let p = a + be_u64(v) + b;
    assert(p.subrange(a.len() as int, a.len() as int + 8) =~= be_u64(v));
    lemma_u64_round_trip(v);
}

/// A vector placed after `a` is read back at offset `a.len()`.
pub proof fn lemma_field_vec3(a: Seq<u8>, v: Vec3Bits, b: Seq<u8>)
    ensures
        field_vec3(a + vec3_bytes(v) + b, a.len() as int) == Some(v),
{
    let p = a + vec3_bytes(v) + b;
    assert(p.subrange(a.len() as int, a.len() as int + 12) =~= vec3_bytes(v));
    lemma_vec3_round_trip(v);
}

/// Every extraction that would reach past the end of the payload reports the
/// field as absent.
pub proof fn lemma_extract_out_of_bounds(p: Seq<u8>, offset: int)
    requires
        offset >= 0,
    ensures
        offset + 1 > p.len() ==> field_u8(p, offset) is None,
        offset + 4 > p.len() ==> field_u32(p, offset) is None,
        offset + 8 > p.len() ==> field_u64(p, offset) is None,
        offset + 12 > p.len() ==> field_vec3(p, offset) is None,
{
}

} // verus!
