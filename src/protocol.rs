use vstd::prelude::*;

use crate::codec::{
    be_u32, be_u64, decode, encode, field_u32, field_u64, field_u8, field_vec3,
    lemma_decode_encode, lemma_field_u32, lemma_field_u64, lemma_field_u8, lemma_field_vec3,
    vec3_bytes, AsBytes, Command, Message, Vec3Bits,
};

verus! {

/// The number of player slots a session has.
pub const MAX_PLAYERS: usize = 64;

/// A terrain edit: the player that asked for it, the terrain cell, and the
/// bit pattern of the signed single-precision amount to move the cell by.
#[derive(Debug, PartialEq, Eq, Structural, Copy, Clone)]
pub struct Mutation {
    pub pid: u8,
    pub index: u32,
    pub amount: u32,
}

// ---------------------------------------------------------------------------
// Payload layouts
// ---------------------------------------------------------------------------

/// `STATE`, `PPOS`, `GNDSTATE` and `SETPID` carry one player id.
pub open spec fn id_payload(pid: u8) -> Seq<u8> {
    seq![pid]
}

/// `LOGIN` carries the port, as a `u32`, on which the client awaits replies.
pub open spec fn login_payload(port: u32) -> Seq<u8> {
    be_u32(port)
}

/// `POS` carries the player id, then the position.
pub open spec fn pos_payload(pid: u8, pos: Vec3Bits) -> Seq<u8> {
    seq![pid] + vec3_bytes(pos)
}

/// `MUT` carries the player id, the cell index, then the amount.
pub open spec fn mut_payload(m: Mutation) -> Seq<u8> {
    seq![m.pid] + be_u32(m.index) + be_u32(m.amount)
}

/// `RSTATE` carries the number of players, then the mutation frame.
pub open spec fn rstate_payload(count: u8, frame: u64) -> Seq<u8> {
    seq![count] + be_u64(frame)
}

/// The positions one after another, twelve bytes each.
pub open spec fn vec3s_bytes(ps: Seq<Vec3Bits>) -> Seq<u8>
    decreases ps.len(),
{
    if ps.len() == 0 {
        Seq::empty()
    } else {
        vec3s_bytes(ps.drop_last()) + vec3_bytes(ps.last())
    }
}

/// `RPPOS` carries the number of players, then one position per player in id
/// order.
pub open spec fn rppos_payload(count: u8, ps: Seq<Vec3Bits>) -> Seq<u8> {
    seq![count] + vec3s_bytes(ps)
}

pub proof fn lemma_vec3s_bytes_len(ps: Seq<Vec3Bits>)
    ensures
        vec3s_bytes(ps).len() == 12 * ps.len(),
    decreases ps.len(),
{
    if ps.len() > 0 {
        lemma_vec3s_bytes_len(ps.drop_last());
    }
}

/// The position of the `i`th player sits twelve bytes after the previous one.
pub proof fn lemma_vec3s_field(ps: Seq<Vec3Bits>, i: int, a: Seq<u8>)
    requires
        0 <= i < ps.len(),
    ensures
        field_vec3(a + vec3s_bytes(ps), a.len() + 12 * i) == Some(ps[i]),
    decreases ps.len(),
{
    let init = ps.drop_last();
    lemma_vec3s_bytes_len(init);
    if i == ps.len() - 1 {
        assert(a + vec3s_bytes(ps) =~= (a + vec3s_bytes(init)) + vec3_bytes(ps.last())
            + Seq::<u8>::empty());
        lemma_field_vec3(a + vec3s_bytes(init), ps.last(), Seq::<u8>::empty());
    } else {
        lemma_vec3s_field(init, i, a);
        let p = a + vec3s_bytes(ps);
        let q = a + vec3s_bytes(init);
        assert(p.subrange(a.len() + 12 * i, a.len() + 12 * i + 12) =~= q.subrange(
            a.len() + 12 * i,
            a.len() + 12 * i + 12,
        ));
    }
}

/// Every message with a defined layout decodes to its command and payload,
/// and each field of the payload reads back, at its offset, as the value that
/// was written.
pub proof fn lemma_round_trip(
    pid: u8,
    port: u32,
    pos: Vec3Bits,
    m: Mutation,
    count: u8,
    frame: u64,
    ps: Seq<Vec3Bits>,
)
    ensures
        decode(encode(Command::LOGIN, login_payload(port))) == Some(
            (Command::LOGIN, login_payload(port)),
        ),
        field_u32(login_payload(port), 0) == Some(port),
        decode(encode(Command::STATE, id_payload(pid))) == Some((Command::STATE, id_payload(pid))),
        decode(encode(Command::PPOS, id_payload(pid))) == Some((Command::PPOS, id_payload(pid))),
        decode(encode(Command::GNDSTATE, id_payload(pid))) == Some(
            (Command::GNDSTATE, id_payload(pid)),
        ),
        decode(encode(Command::SETPID, id_payload(pid))) == Some(
            (Command::SETPID, id_payload(pid)),
        ),
        field_u8(id_payload(pid), 0) == Some(pid),
        decode(encode(Command::POS, pos_payload(pid, pos))) == Some(
            (Command::POS, pos_payload(pid, pos)),
        ),
        field_u8(pos_payload(pid, pos), 0) == Some(pid),
        field_vec3(pos_payload(pid, pos), 1) == Some(pos),
        decode(encode(Command::MUT, mut_payload(m))) == Some((Command::MUT, mut_payload(m))),
        field_u8(mut_payload(m), 0) == Some(m.pid),
        field_u32(mut_payload(m), 1) == Some(m.index),
        field_u32(mut_payload(m), 5) == Some(m.amount),
        decode(encode(Command::RSTATE, rstate_payload(count, frame))) == Some(
            (Command::RSTATE, rstate_payload(count, frame)),
        ),
        field_u8(rstate_payload(count, frame), 0) == Some(count),
        field_u64(rstate_payload(count, frame), 1) == Some(frame),
        decode(encode(Command::RPPOS, rppos_payload(count, ps))) == Some(
            (Command::RPPOS, rppos_payload(count, ps)),
        ),
        field_u8(rppos_payload(count, ps), 0) == Some(count),
        forall|i: int| 0 <= i < ps.len() ==> field_vec3(rppos_payload(count, ps), 1 + 12 * i) == Some(ps[i]),
{
    lemma_decode_encode(Command::LOGIN, login_payload(port));
    lemma_decode_encode(Command::STATE, id_payload(pid));
    lemma_decode_encode(Command::PPOS, id_payload(pid));
    lemma_decode_encode(Command::GNDSTATE, id_payload(pid));
    lemma_decode_encode(Command::SETPID, id_payload(pid));
    lemma_decode_encode(Command::POS, pos_payload(pid, pos));
    lemma_decode_encode(Command::MUT, mut_payload(m));
    lemma_decode_encode(Command::RSTATE, rstate_payload(count, frame));
    lemma_decode_encode(Command::RPPOS, rppos_payload(count, ps));
    lemma_id_fields(pid);
    lemma_login_fields(port);
    lemma_pos_fields(pid, pos);
    lemma_mut_fields(m);
    lemma_rstate_fields(count, frame);
    lemma_rppos_fields(count, ps);
}

/// The id in an id payload reads back.
pub proof fn lemma_id_fields(pid: u8)
    ensures
        field_u8(id_payload(pid), 0) == Some(pid),
{
    let e = Seq::<u8>::empty();
    assert(id_payload(pid) =~= e + seq![pid] + e);
    lemma_field_u8(e, pid, e);
}

/// The port in a `LOGIN` payload reads back.
pub proof fn lemma_login_fields(port: u32)
    ensures
        field_u32(login_payload(port), 0) == Some(port),
{
    let e = Seq::<u8>::empty();
    assert(login_payload(port) =~= e + be_u32(port) + e);
    lemma_field_u32(e, port, e);
}

proof fn lemma_pos_fields(pid: u8, pos: Vec3Bits)
    ensures
        field_u8(pos_payload(pid, pos), 0) == Some(pid),
        field_vec3(pos_payload(pid, pos), 1) == Some(pos),
{
    let e = Seq::<u8>::empty();
    assert(pos_payload(pid, pos) =~= e + seq![pid] + vec3_bytes(pos));
    lemma_field_u8(e, pid, vec3_bytes(pos));
    assert(pos_payload(pid, pos) =~= seq![pid] + vec3_bytes(pos) + e);
    lemma_field_vec3(seq![pid], pos, e);
}

proof fn lemma_mut_fields(m: Mutation)
    ensures
        field_u8(mut_payload(m), 0) == Some(m.pid),
        field_u32(mut_payload(m), 1) == Some(m.index),
        field_u32(mut_payload(m), 5) == Some(m.amount),
{
    let e = Seq::<u8>::empty();
    assert(mut_payload(m) =~= e + seq![m.pid] + (be_u32(m.index) + be_u32(m.amount)));
    lemma_field_u8(e, m.pid, be_u32(m.index) + be_u32(m.amount));
    lemma_field_u32(seq![m.pid], m.index, be_u32(m.amount));
    assert(mut_payload(m) =~= (seq![m.pid] + be_u32(m.index)) + be_u32(m.amount) + e);
    lemma_field_u32(seq![m.pid] + be_u32(m.index), m.amount, e);
}

proof fn lemma_rstate_fields(count: u8, frame: u64)
    ensures
        field_u8(rstate_payload(count, frame), 0) == Some(count),
        field_u64(rstate_payload(count, frame), 1) == Some(frame),
{
    let e = Seq::<u8>::empty();
    assert(rstate_payload(count, frame) =~= e + seq![count] + be_u64(frame));
    lemma_field_u8(e, count, be_u64(frame));
    assert(rstate_payload(count, frame) =~= seq![count] + be_u64(frame) + e);
    lemma_field_u64(seq![count], frame, e);
}

proof fn lemma_rppos_fields(count: u8, ps: Seq<Vec3Bits>)
    ensures
        field_u8(rppos_payload(count, ps), 0) == Some(count),
        forall|i: int|
            0 <= i < ps.len() ==> field_vec3(rppos_payload(count, ps), 1 + 12 * i) == Some(ps[i]),
{
    let e = Seq::<u8>::empty();
    assert(rppos_payload(count, ps) =~= e + seq![count] + vec3s_bytes(ps));
    lemma_field_u8(e, count, vec3s_bytes(ps));
    assert forall|i: int| 0 <= i < ps.len() implies field_vec3(
        rppos_payload(count, ps),
        1 + 12 * i,
    ) == Some(ps[i]) by {
        lemma_vec3s_field(ps, i, seq![count]);
    }
}

// ---------------------------------------------------------------------------
// Building messages
// ---------------------------------------------------------------------------

/// The datagram of a command whose payload is one player id.
pub fn id_message(command: Command, pid: u8) -> (r: Vec<u8>)
    ensures
        r@ == encode(command, id_payload(pid)),
{
    let mut m = Message::new(command);
    m.push_bytes(pid.as_bytes());
    m.get_bytes()
}

/// The `LOGIN` datagram, naming the port on which replies are awaited.
pub fn login_message(port: u32) -> (r: Vec<u8>)
    ensures
        r@ == encode(Command::LOGIN, login_payload(port)),
{
    let mut m = Message::new(Command::LOGIN);
    m.push_bytes(port.as_bytes());
    m.get_bytes()
}

/// The `POS` datagram that publishes a player's position.
pub fn pos_cmd(pid: u8, pos: Vec3Bits) -> (r: Vec<u8>)
    ensures
        r@ == encode(Command::POS, pos_payload(pid, pos)),
        r@.len() == 14,
{
    let mut m = Message::new(Command::POS);
    m.push_bytes(pid.as_bytes());
    m.push_bytes(pos.as_bytes());
    m.get_bytes()
}

/// The `MUT` datagram that asks for a terrain edit.
pub fn mut_message(m: Mutation) -> (r: Vec<u8>)
    ensures
        r@ == encode(Command::MUT, mut_payload(m)),
{
    let mut msg = Message::new(Command::MUT);
    msg.push_bytes(m.pid.as_bytes());
    msg.push_bytes(m.index.as_bytes());
    msg.push_bytes(m.amount.as_bytes());
    msg.get_bytes()
}

/// The `RSTATE` datagram.
pub fn rstate_message(count: u8, frame: u64) -> (r: Vec<u8>)
    ensures
        r@ == encode(Command::RSTATE, rstate_payload(count, frame)),
{
    let mut m = Message::new(Command::RSTATE);
    m.push_bytes(count.as_bytes());
    m.push_bytes(frame.as_bytes());
    m.get_bytes()
}

} // verus!
