use vstd::prelude::*;

use crate::codec::{
    decode, encode, field_u32, field_u8, field_vec3, lemma_decode_encode, vec3_bytes, AsBytes,
    Command, Message, Vec3Bits,
};
use crate::protocol::{
    id_message, id_payload, lemma_id_fields, lemma_login_fields, login_payload, rppos_payload,
    rstate_message, rstate_payload, vec3s_bytes, MAX_PLAYERS,
};

verus! {

/// Where a logged-in player awaits replies: the address its `LOGIN` came from,
/// with the port that it declared in place of the sending one.
#[derive(Debug)]
pub struct Session<A> {
    pub ip: A,
    pub port: u16,
}

/// What the server knows: one session per logged-in player, in id order, the
/// position table, the mutation frame counter, and one single-slot terrain
/// mailbox per player slot.
pub struct ServerView<A> {
    pub sessions: Seq<Session<A>>,
    pub players: Seq<Option<Vec3Bits>>,
    pub frame: u64,
    pub mailboxes: Seq<Option<Seq<u8>>>,
}

impl<A> ServerView<A> {
    /// The tables have one entry per player slot, and no more players than
    /// slots are logged in.
    pub open spec fn wf(self) -> bool {
        &&& self.sessions.len() <= MAX_PLAYERS
        &&& self.players.len() == MAX_PLAYERS
        &&& self.mailboxes.len() == MAX_PLAYERS
    }

    /// The number of logged-in players.
    pub open spec fn count(self) -> u8 {
        self.sessions.len() as u8
    }
}

/// A server with nobody logged in, no positions and empty mailboxes.
pub open spec fn fresh_server<A>() -> ServerView<A> {
    ServerView {
        sessions: Seq::empty(),
        players: Seq::new(MAX_PLAYERS as nat, |i: int| None),
        frame: 0,
        mailboxes: Seq::new(MAX_PLAYERS as nat, |i: int| None),
    }
}

/// `LOGIN`: the next id goes to the new player, while a slot is free.
pub open spec fn login_spec<A>(s: ServerView<A>, ip: A, port: u32) -> (ServerView<A>, Option<u8>) {
    if s.sessions.len() < MAX_PLAYERS {
        (
            ServerView { sessions: s.sessions.push(Session { ip, port: port as u16 }), ..s },
            Some(s.sessions.len() as u8),
        )
    } else {
        (s, None)
    }
}

/// `POS`: the player's position is recorded, for an id within the table.
pub open spec fn set_position_spec<A>(s: ServerView<A>, pid: u8, pos: Vec3Bits) -> (
    ServerView<A>,
    bool,
) {
    if (pid as int) < MAX_PLAYERS {
        (ServerView { players: s.players.update(pid as int, Some(pos)), ..s }, true)
    } else {
        (s, false)
    }
}

/// How many of the first `n` mailboxes hold an edit.
pub open spec fn unread_count(mailboxes: Seq<Option<Seq<u8>>>, n: int) -> nat
    decreases n,
{
    if n <= 0 {
        0
    } else {
        unread_count(mailboxes, n - 1) + if mailboxes[n - 1] is Some {
            1nat
        } else {
            0nat
        }
    }
}

proof fn lemma_unread_count_bound(mailboxes: Seq<Option<Seq<u8>>>, n: int)
    requires
        n >= 0,
    ensures
        unread_count(mailboxes, n) <= n,
    decreases n,
{
    if n > 0 {
        lemma_unread_count_bound(mailboxes, n - 1);
    }
}

/// `MUT` with payload `p`: accepted when `p` holds the player id, the cell
/// index and the amount (nine bytes at least) and the frame counter can still
/// move on. The counter then moves on by one, and the mailbox of every
/// logged-in player holds the payload as received, whatever it held before;
/// the result tells how many of those mailboxes held an edit still unread,
/// which is lost. A refused payload changes nothing.
pub open spec fn mutate_spec<A>(s: ServerView<A>, p: Seq<u8>) -> (ServerView<A>, Option<u8>) {
    if field_u32(p, 5) is Some && s.frame < u64::MAX {
        (
            ServerView {
                frame: (s.frame + 1) as u64,
                mailboxes: Seq::new(
                    s.mailboxes.len(),
                    |i: int|
                        if i < s.sessions.len() {
                            Some(p)
                        } else {
                            s.mailboxes[i]
                        },
                ),
                ..s
            },
            Some(unread_count(s.mailboxes, s.sessions.len() as int) as u8),
        )
    } else {
        (s, None)
    }
}

/// `GNDSTATE`: the player's mailbox is read and emptied.
pub open spec fn drain_spec<A>(s: ServerView<A>, pid: u8) -> (ServerView<A>, Option<Seq<u8>>) {
    if (pid as int) < MAX_PLAYERS {
        (ServerView { mailboxes: s.mailboxes.update(pid as int, None), ..s }, s.mailboxes[pid as int])
    } else {
        (s, None)
    }
}

/// The position reported for a slot: the zero vector while none is known.
pub open spec fn slot_position(p: Option<Vec3Bits>) -> Vec3Bits {
    match p {
        Some(v) => v,
        None => Vec3Bits { x: 0, y: 0, z: 0 },
    }
}

/// The positions of the logged-in players, in id order.
pub open spec fn known_positions<A>(s: ServerView<A>) -> Seq<Vec3Bits> {
    Seq::new(s.sessions.len(), |i: int| slot_position(s.players[i]))
}

/// The reply to `STATE`.
pub open spec fn rstate_reply<A>(s: ServerView<A>) -> Seq<u8> {
    encode(Command::RSTATE, rstate_payload(s.count(), s.frame))
}

/// The reply to `PPOS`.
pub open spec fn rppos_reply<A>(s: ServerView<A>) -> Seq<u8> {
    encode(Command::RPPOS, rppos_payload(s.count(), known_positions(s)))
}

/// The reply to `GNDSTATE`: the `MUT` datagram whose payload was drained,
/// byte for byte as it was received, or an empty datagram when the mailbox
/// held nothing.
pub open spec fn gndstate_reply(d: Option<Seq<u8>>) -> Seq<u8> {
    match d {
        Some(p) => encode(Command::MUT, p),
        None => Seq::empty(),
    }
}

/// What the server does with one datagram from `ip`: its next state, and the
/// datagram it sends back, if any. A datagram that does not decode, or whose
/// command lacks a field it needs, changes nothing and gets no reply.
pub open spec fn step<A>(s: ServerView<A>, ip: A, data: Seq<u8>) -> (ServerView<A>, Option<Seq<u8>>) {
    match decode(data) {
        None => (s, None),
        Some((c, p)) => match c {
            Command::LOGIN => match field_u32(p, 0) {
                Some(port) => match login_spec(s, ip, port).1 {
                    Some(id) => (login_spec(s, ip, port).0, Some(encode(Command::SETPID, id_payload(id)))),
                    None => (s, None),
                },
                None => (s, None),
            },
            Command::STATE => if field_u8(p, 0) is Some {
                (s, Some(rstate_reply(s)))
            } else {
                (s, None)
            },
            Command::POS => match (field_u8(p, 0), field_vec3(p, 1)) {
                (Some(pid), Some(pos)) => (set_position_spec(s, pid, pos).0, None),
                _ => (s, None),
            },
            Command::MUT => (mutate_spec(s, p).0, None),
            Command::PPOS => if field_u8(p, 0) is Some {
                (s, Some(rppos_reply(s)))
            } else {
                (s, None)
            },
            Command::GNDSTATE => match field_u8(p, 0) {
                Some(pid) => if (pid as int) < MAX_PLAYERS {
                    (drain_spec(s, pid).0, Some(gndstate_reply(drain_spec(s, pid).1)))
                } else {
                    (s, None)
                },
                None => (s, None),
            },
            _ => (s, None),
        },
    }
}

/// The datagram decodes to a request that the server handles, and its
/// payload holds every field that the request needs.
pub open spec fn complete_request(data: Seq<u8>) -> bool {
    match decode(data) {
        None => false,
        Some((c, p)) => match c {
            Command::LOGIN => field_u32(p, 0) is Some,
            Command::STATE => field_u8(p, 0) is Some,
            Command::POS => field_vec3(p, 1) is Some,
            Command::MUT => field_u32(p, 5) is Some,
            Command::PPOS => field_u8(p, 0) is Some,
            Command::GNDSTATE => field_u8(p, 0) is Some,
            _ => false,
        },
    }
}

/// A datagram that is no complete request is dropped: it changes nothing and
/// gets no reply.
pub proof fn lemma_incomplete_requests_are_dropped<A>(s: ServerView<A>, ip: A, data: Seq<u8>)
    requires
        !complete_request(data),
    ensures
        step(s, ip, data) == (s, None::<Seq<u8>>),
{
}

/// Whether the server can act on a datagram: it decodes to a request that
/// the server handles and carries every field that the request needs. One
/// that is not is dropped without a reply.
pub fn is_complete_request(data: &[u8]) -> (r: bool)
    ensures
        r == complete_request(data@),
{
    match Message::try_from_data(data) {
        None => false,
        Some(m) => match m.command {
            Command::LOGIN => m.extract_u32(0).is_some(),
            Command::STATE => m.extract_u8(0).is_some(),
            Command::POS => m.extract_vec3a(1).is_some(),
            Command::MUT => m.extract_f32(5).is_some(),
            Command::PPOS => m.extract_u8(0).is_some(),
            Command::GNDSTATE => m.extract_u8(0).is_some(),
            _ => false,
        },
    }
}

/// The state and the replies after a run of datagrams, each with its sender,
/// handled in order.
pub open spec fn run<A>(s: ServerView<A>, inputs: Seq<(A, Seq<u8>)>) -> (
    ServerView<A>,
    Seq<Option<Seq<u8>>>,
)
    decreases inputs.len(),
{
    if inputs.len() == 0 {
        (s, Seq::empty())
    } else {
        let before = run(s, inputs.drop_last());
        let last = step(before.0, inputs.last().0, inputs.last().1);
        (last.0, before.1.push(last.1))
    }
}

/// The datagram is a `MUT` that the server accepts: it carries all three
/// fields and the frame counter can still move on.
pub open spec fn accepts_mutation<A>(s: ServerView<A>, data: Seq<u8>) -> bool {
    match decode(data) {
        Some((Command::MUT, p)) => field_u32(p, 5) is Some && s.frame < u64::MAX,
        _ => false,
    }
}

/// The frame counter moves on by exactly one for each accepted `MUT`, and
/// stays where it is for every other datagram: it never goes back.
pub proof fn lemma_frame_counts_mutations<A>(s: ServerView<A>, ip: A, data: Seq<u8>)
    requires
        s.wf(),
    ensures
        step(s, ip, data).0.frame == if accepts_mutation(s, data) {
            s.frame + 1
        } else {
            s.frame as int
        },
{
}

/// An accepted `MUT` reaches every logged-in player: each of their
/// mailboxes then holds the payload as received, the other mailboxes, the
/// sessions and the positions are as they were, and no reply is sent.
pub proof fn lemma_mutation_reaches_everyone<A>(s: ServerView<A>, ip: A, q: Seq<u8>)
    requires
        s.wf(),
        q.len() >= 9,
        s.frame < u64::MAX,
    ensures
        ({
            let (t, r) = step(s, ip, encode(Command::MUT, q));
            &&& r is None
            &&& t.wf()
            &&& t.frame == s.frame + 1
            &&& t.sessions == s.sessions
            &&& t.players == s.players
            &&& forall|i: int|
                0 <= i < MAX_PLAYERS ==> #[trigger] t.mailboxes[i] == if i < s.sessions.len() {
                    Some(q)
                } else {
                    s.mailboxes[i]
                }
        }),
{
    lemma_decode_encode(Command::MUT, q);
}

/// A mailbox holds one edit at most: after two accepted `MUT`s, a logged-in
/// player's `GNDSTATE` is answered with the second `MUT` datagram exactly as
/// it was received, and the next `GNDSTATE` with an empty datagram.
pub proof fn lemma_mailbox_overwrite<A>(s: ServerView<A>, ip: A, q1: Seq<u8>, q2: Seq<u8>, pid: u8)
    requires
        s.wf(),
        (pid as int) < s.sessions.len(),
        q1.len() >= 9,
        q2.len() >= 9,
        s.frame + 2 <= u64::MAX,
    ensures
        ({
            let s1 = step(s, ip, encode(Command::MUT, q1)).0;
            let s2 = step(s1, ip, encode(Command::MUT, q2)).0;
            let s3 = step(s2, ip, encode(Command::GNDSTATE, id_payload(pid)));
            &&& s3.1 == Some(encode(Command::MUT, q2))
            &&& s3.0.mailboxes[pid as int] is None
            &&& step(s3.0, ip, encode(Command::GNDSTATE, id_payload(pid))).1 == Some(
                Seq::<u8>::empty(),
            )
        }),
{
    lemma_mutation_reaches_everyone(s, ip, q1);
    let s1 = step(s, ip, encode(Command::MUT, q1)).0;
    lemma_mutation_reaches_everyone(s1, ip, q2);
    let s2 = step(s1, ip, encode(Command::MUT, q2)).0;
    assert(s2.mailboxes[pid as int] == Some(q2));
    lemma_decode_encode(Command::GNDSTATE, id_payload(pid));
    lemma_id_fields(pid);
}

/// Logins are answered in order: on a server where nobody is logged in yet,
/// up to one `LOGIN` per player slot, from any senders, get `SETPID 0`,
/// `SETPID 1`, ... in the order they arrive.
pub proof fn lemma_login_ids_in_order<A>(
    s: ServerView<A>,
    inputs: Seq<(A, Seq<u8>)>,
    ports: Seq<u32>,
)
    requires
        s.wf(),
        s.sessions.len() == 0,
        inputs.len() <= MAX_PLAYERS,
        ports.len() == inputs.len(),
        forall|i: int|
            0 <= i < inputs.len() ==> #[trigger] inputs[i].1 == encode(
                Command::LOGIN,
                login_payload(ports[i]),
            ),
    ensures
        run(s, inputs).0.wf(),
        run(s, inputs).0.sessions.len() == inputs.len(),
        run(s, inputs).1.len() == inputs.len(),
        forall|i: int|
            0 <= i < inputs.len() ==> #[trigger] run(s, inputs).1[i] == Some(
                encode(Command::SETPID, id_payload(i as u8)),
            ),
    decreases inputs.len(),
{
    if inputs.len() > 0 {
        let n = inputs.len() - 1;
        let init = inputs.drop_last();
        assert forall|i: int| 0 <= i < init.len() implies #[trigger] init[i].1 == encode(
            Command::LOGIN,
            login_payload(ports.drop_last()[i]),
        ) by {
            assert(init[i] == inputs[i]);
        }
        lemma_login_ids_in_order(s, init, ports.drop_last());
        let before = run(s, init);
        lemma_decode_encode(Command::LOGIN, login_payload(ports[n]));
        lemma_login_fields(ports[n]);
        assert(inputs.last().1 == encode(Command::LOGIN, login_payload(ports[n])));
        let last = step(before.0, inputs.last().0, inputs.last().1);
        assert(last.1 == Some(encode(Command::SETPID, id_payload(n as u8))));
    }
}

/// The bytes held in a mailbox, if any.
pub open spec fn bytes_of(o: Option<Vec<u8>>) -> Option<Seq<u8>> {
    match o {
        Some(v) => Some(v@),
        None => None,
    }
}

/// A copy of `b`.
fn copy_bytes(b: &[u8]) -> (r: Vec<u8>)
    ensures
        r@ == b@,
{
    let mut r: Vec<u8> = Vec::new();
    let mut i: usize = 0;
    while i < b.len()
        invariant
            i <= b@.len(),
            r@ == b@.subrange(0, i as int),
        decreases b@.len() - i,
    {
        r.push(b[i]);
        i = i + 1;
    }
    assert(r@ =~= b@);
    r
}

/// The `k`th reply of a run is the reply of its `k`th datagram, handled in
/// the state that the datagrams before it left.
proof fn lemma_run_reply<A>(s: ServerView<A>, inputs: Seq<(A, Seq<u8>)>, k: int)
    requires
        0 <= k < inputs.len(),
    ensures
        run(s, inputs).1.len() == inputs.len(),
        run(s, inputs).1[k] == step(run(s, inputs.take(k)).0, inputs[k].0, inputs[k].1).1,
    decreases inputs.len(),
{
    let init = inputs.drop_last();
    if k == inputs.len() - 1 {
        assert(init =~= inputs.take(k));
        if init.len() > 0 {
            lemma_run_reply(s, init, 0);
        }
    } else {
        lemma_run_reply(s, init, k);
        assert(init.take(k) =~= inputs.take(k));
    }
}

/// Along a run, the frame counter never goes back.
proof fn lemma_run_frame_monotonic<A>(s: ServerView<A>, inputs: Seq<(A, Seq<u8>)>, i: int, j: int)
    requires
        0 <= i <= j <= inputs.len(),
    ensures
        run(s, inputs.take(i)).0.frame <= run(s, inputs.take(j)).0.frame,
    decreases j - i,
{
    if i < j {
        lemma_run_frame_monotonic(s, inputs, i, j - 1);
        let t = inputs.take(j);
        assert(t.drop_last() =~= inputs.take(j - 1));
        let before = run(s, inputs.take(j - 1)).0;
        assert(step(before, t.last().0, t.last().1).0.frame >= before.frame);
    }
}

/// `STATE` replies never report a lower frame: along any run of datagrams,
/// each `STATE` is answered with the player count and frame counter of the
/// state it was handled in, and a later `STATE` is answered with a frame at
/// least as high.
pub proof fn lemma_state_replies_never_go_back<A>(
    s: ServerView<A>,
    inputs: Seq<(A, Seq<u8>)>,
    i: int,
    j: int,
)
    requires
        0 <= i < j < inputs.len(),
        decode(inputs[i].1) matches Some((c, p)) && c == Command::STATE && p.len() >= 1,
        decode(inputs[j].1) matches Some((c, p)) && c == Command::STATE && p.len() >= 1,
    ensures
        run(s, inputs).1[i] == Some(rstate_reply(run(s, inputs.take(i)).0)),
        run(s, inputs).1[j] == Some(rstate_reply(run(s, inputs.take(j)).0)),
        run(s, inputs.take(i)).0.frame <= run(s, inputs.take(j)).0.frame,
{
    lemma_run_reply(s, inputs, i);
    lemma_run_reply(s, inputs, j);
    lemma_run_frame_monotonic(s, inputs, i, j);
}

/// The authoritative game state, owned by one dispatch loop.
pub struct Server<A> {
    sessions: Vec<Session<A>>,
    players: Vec<Option<Vec3Bits>>,
    frame: u64,
    mailboxes: Vec<Option<Vec<u8>>>,
}

impl<A> View for Server<A> {
    type V = ServerView<A>;

    closed spec fn view(&self) -> ServerView<A> {
        ServerView {
            sessions: self.sessions@,
            players: self.players@,
            frame: self.frame,
            mailboxes: Seq::new(self.mailboxes@.len(), |i: int| bytes_of(self.mailboxes@[i])),
        }
    }
}

impl<A> Server<A> {
    /// A server with nobody logged in.
    pub fn new() -> (r: Server<A>)
        ensures
            r@ == fresh_server::<A>(),
            r@.wf(),
    {
        let mut players: Vec<Option<Vec3Bits>> = Vec::new();
        let mut mailboxes: Vec<Option<Vec<u8>>> = Vec::new();
        let mut i: usize = 0;
        while i < MAX_PLAYERS
            invariant
                i <= MAX_PLAYERS,
                players@ =~= Seq::new(i as nat, |j: int| None::<Vec3Bits>),
                mailboxes@.len() == i,
                forall|j: int| 0 <= j < i ==> #[trigger] mailboxes@[j] is None,
            decreases MAX_PLAYERS - i,
        {
            players.push(None);
            mailboxes.push(None);
            i = i + 1;
        }
        let r = Server { sessions: Vec::new(), players, frame: 0, mailboxes };
        assert(r@.sessions =~= Seq::<Session<A>>::empty());
        assert(r@.mailboxes =~= fresh_server::<A>().mailboxes);
        r
    }

    /// The number of logged-in players.
    pub fn num_players(&self) -> (r: u8)
        requires
            self@.wf(),
        ensures
            r == self@.count(),
    {
        self.sessions.len() as u8
    }

    /// The mutation frame counter.
    pub fn frame(&self) -> (r: u64)
        ensures
            r == self@.frame,
    {
        self.frame
    }

    /// The recorded position of a player, if one has arrived.
    pub fn position(&self, pid: u8) -> (r: Option<Vec3Bits>)
        requires
            self@.wf(),
        ensures
            r == (if (pid as int) < MAX_PLAYERS {
                self@.players[pid as int]
            } else {
                None
            }),
    {
        if (pid as usize) < MAX_PLAYERS {
            self.players[pid as usize]
        } else {
            None
        }
    }

    /// The `MUT` payload waiting in a player's mailbox, left in place.
    pub fn pending(&self, pid: u8) -> (r: Option<&Vec<u8>>)
        requires
            self@.wf(),
        ensures
            r is Some <==> (pid as int) < MAX_PLAYERS && self@.mailboxes[pid as int] is Some,
            r matches Some(v) ==> self@.mailboxes[pid as int] == Some(v@),
    {
        if (pid as usize) < MAX_PLAYERS {
            match &self.mailboxes[pid as usize] {
                Some(v) => Some(v),
                None => None,
            }
        } else {
            None
        }
    }

    /// Where a logged-in player awaits replies.
    pub fn session(&self, pid: u8) -> (r: Option<&Session<A>>)
        ensures
            r matches Some(x) ==> (pid as int) < self@.sessions.len() && *x == self@.sessions[pid as int],
            r is None <==> (pid as int) >= self@.sessions.len(),
    {
        if (pid as usize) < self.sessions.len() {
            Some(&self.sessions[pid as usize])
        } else {
            None
        }
    }

    /// Logs a player in: records where it awaits replies and hands it the
    /// next id, counting from 0. `None`, and nothing recorded, once every slot
    /// is taken.
    pub fn login(&mut self, ip: A, port: u32) -> (r: Option<u8>)
        requires
            old(self)@.wf(),
        ensures
            (final(self)@, r) == login_spec(old(self)@, ip, port),
            final(self)@.wf(),
    {
        if self.sessions.len() < MAX_PLAYERS {
            let id = self.sessions.len() as u8;
            self.sessions.push(Session { ip, port: port as u16 });
            Some(id)
        } else {
            None
        }
    }

    /// Records a player's position. `false`, and nothing recorded, for an id
    /// past the table.
    pub fn set_position(&mut self, pid: u8, pos: Vec3Bits) -> (r: bool)
        requires
            old(self)@.wf(),
        ensures
            (final(self)@, r) == set_position_spec(old(self)@, pid, pos),
            final(self)@.wf(),
    {
        if (pid as usize) < MAX_PLAYERS {
            self.players[pid as usize] = Some(pos);
            assert(self.players@ =~= old(self).players@.update(pid as int, Some(pos)));
            true
        } else {
            false
        }
    }

    /// Takes the payload of a `MUT`: when it holds the player id, the cell
    /// index and the amount, moves the frame counter on by one and puts the
    /// payload, as received, in the mailbox of every logged-in player, over
    /// any edit still unread there. Returns how many unread edits were
    /// overwritten so. `None`, and nothing changed, for a payload shorter than
    /// nine bytes, and when the counter is at its largest value.
    pub fn mutate(&mut self, payload: &[u8]) -> (r: Option<u8>)
        requires
            old(self)@.wf(),
        ensures
            (final(self)@, r) == mutate_spec(old(self)@, payload@),
            final(self)@.wf(),
    {
        if payload.len() < 9 || self.frame == u64::MAX {
            return None;
        }
        self.frame = self.frame + 1;
        let n = self.sessions.len();
        let mut lost: u8 = 0;
        let mut i: usize = 0;
        while i < n
            invariant
                n == self.sessions@.len(),
                n <= MAX_PLAYERS,
                i <= n,
                lost == unread_count(old(self)@.mailboxes, i as int),
                self.sessions@ == old(self).sessions@,
                self.players@ == old(self).players@,
                self.frame == old(self).frame + 1,
                self.mailboxes@.len() == MAX_PLAYERS,
                old(self).mailboxes@.len() == MAX_PLAYERS,
                forall|j: int|
                    0 <= j < MAX_PLAYERS ==> #[trigger] bytes_of(self.mailboxes@[j]) == if j < i {
                        Some(payload@)
                    } else {
                        bytes_of(old(self).mailboxes@[j])
                    },
            decreases n - i,
        {
            proof {
                lemma_unread_count_bound(old(self)@.mailboxes, i as int);
                assert(bytes_of(self.mailboxes@[i as int]) == old(self)@.mailboxes[i as int]);
                assert(unread_count(old(self)@.mailboxes, i + 1) == unread_count(
                    old(self)@.mailboxes,
                    i as int,
                ) + if old(self)@.mailboxes[i as int] is Some {
                    1nat
                } else {
                    0nat
                });
            }
            if self.mailboxes[i].is_some() {
                lost = lost + 1;
            }
            self.mailboxes[i] = Some(copy_bytes(payload));
            i = i + 1;
        }
        assert(self@.mailboxes =~= mutate_spec(old(self)@, payload@).0.mailboxes);
        Some(lost)
    }

    /// Reads and empties a player's mailbox, handing out the `MUT` payload
    /// it held. `None` for an empty mailbox, and for an id past the table.
    pub fn drain(&mut self, pid: u8) -> (r: Option<Vec<u8>>)
        requires
            old(self)@.wf(),
        ensures
            (final(self)@, bytes_of(r)) == drain_spec(old(self)@, pid),
            final(self)@.wf(),
    {
        if (pid as usize) < MAX_PLAYERS {
            self.mailboxes.push(None);
            let d = self.mailboxes.swap_remove(pid as usize);
            assert(self.mailboxes@ =~= old(self).mailboxes@.update(pid as int, None));
            assert(self@.mailboxes =~= old(self)@.mailboxes.update(pid as int, None));
            d
        } else {
            None
        }
    }

    /// The `RSTATE` datagram: the number of players and the frame counter.
    pub fn state_reply(&self) -> (r: Vec<u8>)
        requires
            self@.wf(),
        ensures
            r@ == rstate_reply(self@),
    {
        rstate_message(self.num_players(), self.frame)
    }

    /// The `RPPOS` datagram: the number of players, then the position of each
    /// logged-in player in id order, the zero vector for one not yet known.
    pub fn positions_reply(&self) -> (r: Vec<u8>)
        requires
            self@.wf(),
        ensures
            r@ == rppos_reply(self@),
    {
        let count = self.num_players();
        let n = self.sessions.len();
        let ghost ps = known_positions(self@);
        let mut m = Message::new(Command::RPPOS);
        m.push_bytes(count.as_bytes());
        let mut i: usize = 0;
        while i < n
            invariant
                n == self@.sessions.len(),
                n <= MAX_PLAYERS,
                self@.wf(),
                i <= n,
                ps == known_positions(self@),
                m.command == Command::RPPOS,
                m.payload@ == seq![count] + vec3s_bytes(ps.take(i as int)),
            decreases n - i,
        {
            let v = match self.players[i] {
                Some(v) => v,
                None => Vec3Bits::zero(),
            };
            assert(ps.take(i + 1).drop_last() =~= ps.take(i as int));
            m.push_bytes(v.as_bytes());
            assert(seq![count] + vec3s_bytes(ps.take(i + 1)) =~= seq![count] + vec3s_bytes(
                ps.take(i as int),
            ) + vec3_bytes(v));
            i = i + 1;
        }
        assert(ps.take(n as int) =~= ps);
        m.get_bytes()
    }

    /// Handles one datagram that arrived from `ip`, and returns the datagram
    /// to send back to the sender, if any.
    pub fn handle_datagram(&mut self, ip: A, data: &[u8]) -> (r: Option<Vec<u8>>)
        requires
            old(self)@.wf(),
        ensures
            final(self)@ == step(old(self)@, ip, data@).0,
            r.deep_view() == step(old(self)@, ip, data@).1,
            final(self)@.wf(),
    {
        let m = match Message::try_from_data(data) {
            Some(m) => m,
            None => return None,
        };
        match m.command {
            Command::LOGIN => match m.extract_u32(0) {
                Some(port) => match self.login(ip, port) {
                    Some(id) => Some(id_message(Command::SETPID, id)),
                    None => None,
                },
                None => None,
            },
            Command::STATE => match m.extract_u8(0) {
                Some(_) => Some(self.state_reply()),
                None => None,
            },
            Command::POS => match (m.extract_u8(0), m.extract_vec3a(1)) {
                (Some(pid), Some(pos)) => {
                    self.set_position(pid, pos);
                    None
                },
                _ => None,
            },
            Command::MUT => {
                self.mutate(m.payload.as_slice());
                None
            },
            Command::PPOS => match m.extract_u8(0) {
                Some(_) => Some(self.positions_reply()),
                None => None,
            },
            Command::GNDSTATE => match m.extract_u8(0) {
                Some(pid) => {
                    if (pid as usize) < MAX_PLAYERS {
                        match self.drain(pid) {
                            Some(d) => {
                                let mut echo = Message::new(Command::MUT);
                                echo.push_bytes(d);
                                Some(echo.get_bytes())
                            },
                            None => Some(Vec::new()),
                        }
                    } else {
                        None
                    }
                },
                None => None,
            },
            _ => None,
        }
    }
}

} // verus!
