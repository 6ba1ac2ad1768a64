use vstd::prelude::*;

use crate::codec::{
    decode, encode, field_u32, field_u64, field_u8, field_vec3, Command, Message, Vec3Bits,
};
use crate::protocol::{id_message, id_payload, MAX_PLAYERS};

verus! {

/// What a client has learned from the server's replies: the number of
/// players, the highest mutation frame seen, one position cell per player
/// slot (`None` until a position arrives for it), and the latest terrain edit
/// (cell index and amount bits) not yet taken by the terrain.
pub struct ClientView {
    pub num_players: u8,
    pub counter: u64,
    pub positions: Seq<Option<Vec3Bits>>,
    pub last_mutation: Option<(u32, u32)>,
}

impl ClientView {
    /// One position cell per player slot.
    pub open spec fn wf(self) -> bool {
        self.positions.len() == MAX_PLAYERS
    }
}

/// A client that has heard nothing yet.
pub open spec fn fresh_client() -> ClientView {
    ClientView {
        num_players: 0,
        counter: 0,
        positions: Seq::new(MAX_PLAYERS as nat, |i: int| None),
        last_mutation: None,
    }
}

/// The position cells after an `RPPOS` payload `p` advertising `np` players:
/// each of the first `np` cells whose position the payload holds takes it;
/// the other cells keep what they had.
pub open spec fn positions_after(cells: Seq<Option<Vec3Bits>>, p: Seq<u8>, np: u8) -> Seq<Option<Vec3Bits>> {
    Seq::new(
        cells.len(),
        |i: int|
            if i < np && field_vec3(p, 1 + 12 * i) is Some {
                field_vec3(p, 1 + 12 * i)
            } else {
                cells[i]
            },
    )
}

/// What one reply does to the client's mirror.
/// - `RSTATE`: the player count is taken, and the frame watermark rises to
///   the reported frame if that is higher.
/// - `RPPOS`: the positions it holds are written into their cells.
/// - `MUT`: its cell index and amount become the latest terrain edit.
/// Anything else, a datagram that does not decode, or a reply that lacks the
/// fields it needs, changes nothing.
pub open spec fn apply_spec(c: ClientView, data: Seq<u8>) -> ClientView {
    match decode(data) {
        None => c,
        Some((cmd, p)) => match cmd {
            Command::RSTATE => match (field_u8(p, 0), field_u64(p, 1)) {
                (Some(n), Some(f)) => ClientView {
                    num_players: n,
                    counter: if c.counter < f {
                        f
                    } else {
                        c.counter
                    },
                    ..c
                },
                _ => c,
            },
            Command::RPPOS => match field_u8(p, 0) {
                Some(np) => ClientView { positions: positions_after(c.positions, p, np), ..c },
                None => c,
            },
            Command::MUT => match (field_u32(p, 1), field_u32(p, 5)) {
                (Some(index), Some(amount)) => ClientView { last_mutation: Some((index, amount)), ..c },
                _ => c,
            },
            _ => c,
        },
    }
}

/// The mirror after a run of replies, applied in order.
pub open spec fn apply_all(c: ClientView, rs: Seq<Seq<u8>>) -> ClientView
    decreases rs.len(),
{
    if rs.len() == 0 {
        c
    } else {
        apply_spec(apply_all(c, rs.drop_last()), rs.last())
    }
}

/// The frame watermark never goes back: along any run of replies, it is at
/// least as high after more of them have been applied.
pub proof fn lemma_counter_never_decreases(c: ClientView, rs: Seq<Seq<u8>>, i: int, j: int)
    requires
        0 <= i <= j <= rs.len(),
    ensures
        apply_all(c, rs.take(i)).counter <= apply_all(c, rs.take(j)).counter,
    decreases j - i,
{
    if i < j {
        lemma_counter_never_decreases(c, rs, i, j - 1);
        assert(rs.take(j).drop_last() =~= rs.take(j - 1));
    }
}

/// The client's mirror of the shared game state, written by the poller and
/// read by the simulation.
pub struct ClientState {
    num_players: u8,
    counter: u64,
    positions: Vec<Option<Vec3Bits>>,
    last_mutation: Option<(u32, u32)>,
}

impl View for ClientState {
    type V = ClientView;

    closed spec fn view(&self) -> ClientView {
        ClientView {
            num_players: self.num_players,
            counter: self.counter,
            positions: self.positions@,
            last_mutation: self.last_mutation,
        }
    }
}

impl ClientState {
    /// A mirror that has heard nothing yet.
    pub fn new() -> (r: ClientState)
        ensures
            r@ == fresh_client(),
            r@.wf(),
    {
        let mut positions: Vec<Option<Vec3Bits>> = Vec::new();
        let mut i: usize = 0;
        while i < MAX_PLAYERS
            invariant
                i <= MAX_PLAYERS,
                positions@ =~= Seq::new(i as nat, |j: int| None::<Vec3Bits>),
            decreases MAX_PLAYERS - i,
        {
            positions.push(None);
            i = i + 1;
        }
        ClientState { num_players: 0, counter: 0, positions, last_mutation: None }
    }

    /// The number of players last reported.
    pub fn num_players(&self) -> (r: u8)
        ensures
            r == self@.num_players,
    {
        self.num_players
    }

    /// The highest mutation frame reported so far.
    pub fn counter(&self) -> (r: u64)
        ensures
            r == self@.counter,
    {
        self.counter
    }

    /// The last position received for a player slot.
    pub fn position(&self, pid: u8) -> (r: Option<Vec3Bits>)
        requires
            self@.wf(),
        ensures
            r == (if (pid as int) < MAX_PLAYERS {
                self@.positions[pid as int]
            } else {
                None
            }),
    {
        if (pid as usize) < MAX_PLAYERS {
            self.positions[pid as usize]
        } else {
            None
        }
    }

    /// Hands the latest terrain edit to the terrain, once: the slot is empty
    /// afterwards.
    pub fn take_mutation(&mut self) -> (r: Option<(u32, u32)>)
        ensures
            r == old(self)@.last_mutation,
            final(self)@ == (ClientView { last_mutation: None, ..old(self)@ }),
    {
        let r = self.last_mutation;
        self.last_mutation = None;
        r
    }

    /// Applies one reply from the server to the mirror.
    pub fn apply_reply(&mut self, data: &[u8])
        requires
            old(self)@.wf(),
        ensures
            final(self)@ == apply_spec(old(self)@, data@),
            final(self)@.wf(),
    {
        let m = match Message::try_from_data(data) {
            Some(m) => m,
            None => return,
        };
        match m.command {
            Command::RSTATE => match (m.extract_u8(0), m.extract_u64(1)) {
                (Some(n), Some(f)) => {
                    self.num_players = n;
                    if self.counter < f {
                        self.counter = f;
                    }
                },
                _ => {},
            },
            Command::RPPOS => match m.extract_u8(0) {
                Some(np) => {
                    let ghost target = positions_after(old(self).positions@, m.payload@, np);
                    let mut i: usize = 0;
                    while i < MAX_PLAYERS
                        invariant
                            i <= MAX_PLAYERS,
                            self.positions@.len() == MAX_PLAYERS,
                            self.num_players == old(self).num_players,
                            self.counter == old(self).counter,
                            self.last_mutation == old(self).last_mutation,
                            target == positions_after(old(self).positions@, m.payload@, np),
                            old(self).positions@.len() == MAX_PLAYERS,
                            forall|j: int|
                                0 <= j < MAX_PLAYERS ==> #[trigger] self.positions@[j] == if j < i {
                                    target[j]
                                } else {
                                    old(self).positions@[j]
                                },
                        decreases MAX_PLAYERS - i,
                    {
                        if i < np as usize {
                            match m.extract_vec3a(12 * i + 1) {
                                Some(v) => {
                                    self.positions[i] = Some(v);
                                },
                                None => {},
                            }
                        }
                        i = i + 1;
                    }
                    assert(self.positions@ =~= target);
                },
                None => {},
            },
            Command::MUT => match (m.extract_u32(1), m.extract_f32(5)) {
                (Some(index), Some(amount)) => {
                    self.last_mutation = Some((index, amount));
                },
                _ => {},
            },
            _ => {},
        }
    }
}

/// The three requests of one poll round, in the order they are sent: `STATE`,
/// `PPOS`, `GNDSTATE`, each carrying the client's id.
pub fn poll_requests(pid: u8) -> (r: Vec<Vec<u8>>)
    ensures
        r@.len() == 3,
        r@[0]@ == encode(Command::STATE, id_payload(pid)),
        r@[1]@ == encode(Command::PPOS, id_payload(pid)),
        r@[2]@ == encode(Command::GNDSTATE, id_payload(pid)),
{
    let mut r: Vec<Vec<u8>> = Vec::new();
    r.push(id_message(Command::STATE, pid));
    r.push(id_message(Command::PPOS, pid));
    r.push(id_message(Command::GNDSTATE, pid));
    r
}

/// The id that a `SETPID` reply assigns; `None` for any other datagram, or
/// one without the id.
pub fn login_reply_id(data: &[u8]) -> (r: Option<u8>)
    ensures
        r == (match decode(data@) {
            Some((Command::SETPID, p)) => field_u8(p, 0),
            _ => None,
        }),
{
    match Message::try_from_data(data) {
        Some(m) => match m.command {
            Command::SETPID => m.extract_u8(0),
            _ => None,
        },
        None => None,
    }
}

} // verus!
