use messaging::client::{login_reply_id, poll_requests, ClientState};
use messaging::codec::{AsBytes, Command, Message, Vec3Bits};
use messaging::protocol::{id_message, login_message, mut_message, pos_cmd, rstate_message, Mutation, MAX_PLAYERS};
use messaging::server::{is_complete_request, Server};

fn v3(x: f32, y: f32, z: f32) -> Vec3Bits {
    Vec3Bits { x: x.to_bits(), y: y.to_bits(), z: z.to_bits() }
}

fn edit(pid: u8, index: u32, amount: f32) -> Mutation {
    Mutation { pid, index, amount: amount.to_bits() }
}

fn payload(pid: u8, index: u32, amount: f32) -> Vec<u8> {
    mut_message(edit(pid, index, amount))[1..].to_vec()
}

fn login(s: &mut Server<u32>, ip: u32, port: u32) -> u8 {
    let reply = s.handle_datagram(ip, &login_message(port)).expect("a SETPID reply");
    login_reply_id(&reply).expect("an id")
}

#[test]
fn request_layouts() {
    assert_eq!(login_message(0x1234), vec![0x09, 0, 0, 0x12, 0x34]);
    assert_eq!(id_message(Command::STATE, 5), vec![0x01, 5]);
    let pos = pos_cmd(3, v3(1.0, 0.0, 2.0));
    assert_eq!(pos.len(), 14);
    assert_eq!(pos, vec![0x02, 3, 0x3f, 0x80, 0, 0, 0, 0, 0, 0, 0x40, 0, 0, 0]);
    let mut expected = vec![0x03, 1, 0, 0, 0, 42];
    expected.extend_from_slice(&0.08f32.to_be_bytes());
    assert_eq!(mut_message(edit(1, 42, 0.08)), expected);
    assert_eq!(rstate_message(2, 0x0102), vec![0x04, 2, 0, 0, 0, 0, 0, 0, 1, 2]);
}

#[test]
fn poll_round_is_state_ppos_gndstate() {
    let r = poll_requests(7);
    assert_eq!(r, vec![vec![0x01, 7], vec![0x05, 7], vec![0x07, 7]]);
}

#[test]
fn shapes_round_trip_at_the_boundaries() {
    for pid in [0u8, 63] {
        for f in [0.0f32, -0.0, 1.0, -1.0, f32::MAX, f32::MIN_POSITIVE, f32::INFINITY] {
            let bytes = pos_cmd(pid, v3(f, -f, f));
            let m = Message::try_from_data(&bytes).unwrap();
            assert_eq!(m.command, Command::POS);
            assert_eq!(m.extract_u8(0), Some(pid));
            assert_eq!(m.extract_vec3a(1), Some(v3(f, -f, f)));

            let bytes = mut_message(edit(pid, u32::MAX, f));
            let m = Message::try_from_data(&bytes).unwrap();
            assert_eq!(m.command, Command::MUT);
            assert_eq!(m.extract_u8(0), Some(pid));
            assert_eq!(m.extract_u32(1), Some(u32::MAX));
            assert_eq!(m.extract_f32(5), Some(f.to_bits()));
        }
        let m = Message::try_from_data(&id_message(Command::SETPID, pid)).unwrap();
        assert_eq!(m.command, Command::SETPID);
        assert_eq!(m.extract_u8(0), Some(pid));
    }
    for port in [0u32, 42069, u32::MAX] {
        let m = Message::try_from_data(&login_message(port)).unwrap();
        assert_eq!(m.command, Command::LOGIN);
        assert_eq!(m.extract_u32(0), Some(port));
    }
    let m = Message::try_from_data(&rstate_message(64, u64::MAX)).unwrap();
    assert_eq!(m.command, Command::RSTATE);
    assert_eq!(m.extract_u8(0), Some(64));
    assert_eq!(m.extract_u64(1), Some(u64::MAX));
}

#[test]
fn logins_get_ids_in_request_order() {
    let mut s: Server<u32> = Server::new();
    for i in 0..10u32 {
        assert_eq!(login(&mut s, 100 + i, 5000 + i), i as u8);
    }
    assert_eq!(s.num_players(), 10);
    let sess = s.session(3).unwrap();
    assert_eq!(sess.ip, 103);
    assert_eq!(sess.port, 5003);
    assert!(s.session(10).is_none());
}

#[test]
fn login_records_the_declared_port_truncated_to_sixteen_bits() {
    let mut s: Server<u32> = Server::new();
    assert_eq!(s.login(1, 0x0001_0050), Some(0));
    assert_eq!(s.session(0).unwrap().port, 0x50);
}

#[test]
fn login_past_capacity_is_refused() {
    let mut s: Server<u32> = Server::new();
    for i in 0..MAX_PLAYERS {
        assert_eq!(s.login(i as u32, 1), Some(i as u8));
    }
    assert_eq!(s.login(99, 1), None);
    assert_eq!(s.handle_datagram(99, &login_message(1)), None);
    assert_eq!(s.num_players(), 64);
}

#[test]
fn login_without_a_port_gets_no_reply() {
    let mut s: Server<u32> = Server::new();
    assert_eq!(s.handle_datagram(1, &[0x09, 0, 0, 1]), None);
    assert_eq!(s.num_players(), 0);
}

#[test]
fn bad_datagrams_are_dropped() {
    let mut s: Server<u32> = Server::new();
    login(&mut s, 1, 1);
    assert_eq!(s.handle_datagram(1, &[]), None);
    assert_eq!(s.handle_datagram(1, &[0x0B, 0]), None);
    assert_eq!(s.handle_datagram(1, &[0x01]), None);
    assert_eq!(s.handle_datagram(1, &[0x05]), None);
    assert_eq!(s.handle_datagram(1, &[0x07]), None);
    assert_eq!(s.handle_datagram(1, &[0x02, 0, 1, 2, 3]), None);
    assert_eq!(s.handle_datagram(1, &[0x03, 0, 0, 0, 0, 1, 0, 0, 0]), None);
    assert_eq!(s.handle_datagram(1, &[0x00, 1, 2]), None);
    assert_eq!(s.handle_datagram(1, &[0x04, 1, 2]), None);
    assert_eq!(s.frame(), 0);
    assert_eq!(s.position(0), None);
    assert_eq!(s.handle_datagram(1, &id_message(Command::GNDSTATE, 64)), None);
}

#[test]
fn state_reply_reports_count_and_frame() {
    let mut s: Server<u32> = Server::new();
    login(&mut s, 1, 1);
    login(&mut s, 2, 2);
    assert_eq!(s.mutate(&payload(0, 1, 1.0)), Some(0));
    let reply = s.handle_datagram(1, &id_message(Command::STATE, 0)).unwrap();
    assert_eq!(reply, vec![0x04, 2, 0, 0, 0, 0, 0, 0, 0, 1]);
}

#[test]
fn frame_moves_by_one_per_accepted_mutation() {
    let mut s: Server<u32> = Server::new();
    login(&mut s, 1, 1);
    for n in 1..=5u64 {
        assert_eq!(s.handle_datagram(1, &mut_message(edit(0, n as u32, 0.5))), None);
        assert_eq!(s.frame(), n);
    }
    s.handle_datagram(1, &id_message(Command::STATE, 0));
    s.handle_datagram(1, &pos_cmd(0, v3(1.0, 1.0, 1.0)));
    s.handle_datagram(1, &id_message(Command::GNDSTATE, 0));
    assert_eq!(s.frame(), 5);
}

#[test]
fn second_mutation_overwrites_the_first() {
    let mut s: Server<u32> = Server::new();
    login(&mut s, 1, 1);
    login(&mut s, 2, 2);
    s.handle_datagram(1, &mut_message(edit(0, 10, 0.5)));
    s.handle_datagram(2, &mut_message(edit(1, 20, -0.25)));
    let gnd = id_message(Command::GNDSTATE, 1);
    assert_eq!(s.handle_datagram(2, &gnd), Some(mut_message(edit(1, 20, -0.25))));
    assert_eq!(s.handle_datagram(2, &gnd), Some(vec![]));
    assert_eq!(s.pending(0), Some(&payload(1, 20, -0.25)));
}

#[test]
fn longer_mutation_is_echoed_byte_for_byte() {
    let mut s: Server<u32> = Server::new();
    login(&mut s, 1, 1);
    login(&mut s, 2, 2);
    let mut first = mut_message(edit(0, 7, 0.5));
    first.extend_from_slice(&[0xaa, 0xbb]);
    let mut second = mut_message(edit(1, 9, -2.0));
    second.extend_from_slice(&[1, 2, 3, 4, 5]);
    assert_eq!(s.handle_datagram(1, &first), None);
    assert_eq!(s.handle_datagram(2, &second), None);
    assert_eq!(s.frame(), 2);
    for pid in 0..2u8 {
        let reply = s.handle_datagram(1, &id_message(Command::GNDSTATE, pid));
        assert_eq!(reply, Some(second.clone()));
        assert_eq!(s.handle_datagram(1, &id_message(Command::GNDSTATE, pid)), Some(vec![]));
    }
    let mut c = ClientState::new();
    c.apply_reply(&second);
    let (index, amount) = c.take_mutation().unwrap();
    assert_eq!(index, 9);
    assert_eq!(f32::from_bits(amount), -2.0);
}

#[test]
fn short_mutation_is_refused() {
    let mut s: Server<u32> = Server::new();
    login(&mut s, 1, 1);
    assert_eq!(s.mutate(&[0, 0, 0, 0, 1, 0, 0, 0]), None);
    assert_eq!(s.frame(), 0);
    assert_eq!(s.pending(0), None);
}

#[test]
fn complete_requests_are_recognised() {
    assert!(is_complete_request(&login_message(5)));
    assert!(is_complete_request(&id_message(Command::STATE, 0)));
    assert!(is_complete_request(&id_message(Command::PPOS, 0)));
    assert!(is_complete_request(&id_message(Command::GNDSTATE, 0)));
    assert!(is_complete_request(&pos_cmd(0, Vec3Bits::zero())));
    assert!(is_complete_request(&mut_message(edit(0, 1, 1.0))));
    assert!(!is_complete_request(&[]));
    assert!(!is_complete_request(&[0xee]));
    assert!(!is_complete_request(&[0x09, 0, 0, 1]));
    assert!(!is_complete_request(&[0x01]));
    assert!(!is_complete_request(&[0x02, 0, 1, 2, 3]));
    assert!(!is_complete_request(&[0x03, 0, 0, 0, 0, 1, 0, 0, 0]));
    assert!(!is_complete_request(&[0x00, 1, 2]));
    assert!(!is_complete_request(&rstate_message(1, 1)));
}

#[test]
fn overwritten_edits_are_counted() {
    let mut s: Server<u32> = Server::new();
    for ip in 0..3u32 {
        login(&mut s, ip, 1);
    }
    assert_eq!(s.mutate(&payload(0, 1, 1.0)), Some(0));
    assert_eq!(s.drain(1), Some(payload(0, 1, 1.0)));
    assert_eq!(s.mutate(&payload(2, 2, 2.0)), Some(2));
    assert_eq!(s.mutate(&payload(2, 3, 3.0)), Some(3));
    assert_eq!(s.frame(), 3);
}

#[test]
fn mutation_reaches_only_logged_in_players() {
    let mut s: Server<u32> = Server::new();
    login(&mut s, 1, 1);
    assert_eq!(s.mutate(&payload(0, 3, 1.0)), Some(0));
    assert_eq!(s.pending(0), Some(&payload(0, 3, 1.0)));
    assert_eq!(s.pending(1), None);
    assert_eq!(s.drain(1), None);
    assert_eq!(s.drain(200), None);
}

#[test]
fn position_outside_the_table_is_ignored() {
    let mut s: Server<u32> = Server::new();
    assert!(!s.set_position(64, v3(1.0, 2.0, 3.0)));
    assert!(s.set_position(63, v3(1.0, 2.0, 3.0)));
    assert_eq!(s.position(63), Some(v3(1.0, 2.0, 3.0)));
    assert_eq!(s.position(64), None);
}

#[test]
fn end_to_end_positions() {
    let mut s: Server<u32> = Server::new();
    let a = login(&mut s, 10, 7000);
    let b = login(&mut s, 11, 7001);
    assert_eq!((a, b), (0, 1));
    assert_eq!(s.handle_datagram(10, &pos_cmd(a, v3(1.0, 0.0, 2.0))), None);
    let reply = s.handle_datagram(11, &id_message(Command::PPOS, b)).unwrap();
    let m = Message::try_from_data(&reply).unwrap();
    assert_eq!(m.command, Command::RPPOS);
    assert_eq!(m.extract_u8(0), Some(2));
    assert_eq!(m.extract_vec3a(1), Some(v3(1.0, 0.0, 2.0)));
    assert_eq!(m.extract_vec3a(13), Some(Vec3Bits::zero()));
    assert_eq!(m.extract_vec3a(25), None);

    let mut mirror = ClientState::new();
    mirror.apply_reply(&reply);
    assert_eq!(mirror.position(0), Some(v3(1.0, 0.0, 2.0)));
    assert_eq!(mirror.position(1), Some(Vec3Bits::zero()));
    assert_eq!(mirror.position(2), None);
}

#[test]
fn end_to_end_terrain_edit() {
    let mut s: Server<u32> = Server::new();
    let a = login(&mut s, 10, 7000);
    let b = login(&mut s, 11, 7001);
    assert_eq!(s.handle_datagram(10, &mut_message(edit(a, 42, 0.08))), None);
    let mut mirror_a = ClientState::new();
    let mut mirror_b = ClientState::new();
    for (pid, ip, mirror) in [(a, 10u32, &mut mirror_a), (b, 11u32, &mut mirror_b)] {
        let reply = s.handle_datagram(ip, &id_message(Command::GNDSTATE, pid)).unwrap();
        mirror.apply_reply(&reply);
        let (index, amount) = mirror.take_mutation().unwrap();
        assert_eq!(index, 42);
        assert_eq!(f32::from_bits(amount), 0.08);
        assert_eq!(mirror.take_mutation(), None);
        let again = s.handle_datagram(ip, &id_message(Command::GNDSTATE, pid)).unwrap();
        assert!(again.is_empty());
        mirror.apply_reply(&again);
        assert_eq!(mirror.take_mutation(), None);
    }
}

#[test]
fn watermark_never_goes_back() {
    let mut c = ClientState::new();
    c.apply_reply(&rstate_message(2, 5));
    assert_eq!((c.num_players(), c.counter()), (2, 5));
    c.apply_reply(&rstate_message(3, 4));
    assert_eq!((c.num_players(), c.counter()), (3, 5));
    c.apply_reply(&rstate_message(3, 9));
    assert_eq!(c.counter(), 9);
    c.apply_reply(&[0x04, 3, 0, 0]);
    assert_eq!(c.counter(), 9);
}

#[test]
fn mirror_ignores_what_it_cannot_read() {
    let mut c = ClientState::new();
    c.apply_reply(&[]);
    c.apply_reply(&[0xee, 1]);
    c.apply_reply(&id_message(Command::SETPID, 4));
    c.apply_reply(&[0x03, 0, 0, 0, 0, 1, 0]);
    assert_eq!(c.num_players(), 0);
    assert_eq!(c.counter(), 0);
    assert_eq!(c.take_mutation(), None);
    assert_eq!(c.position(0), None);
}

#[test]
fn positions_stop_where_the_reply_ends() {
    let mut reply = vec![0x06, 3];
    reply.extend(v3(1.0, 1.0, 1.0).as_bytes());
    reply.extend(v3(2.0, 2.0, 2.0).as_bytes());
    let mut c = ClientState::new();
    c.apply_reply(&reply);
    assert_eq!(c.position(0), Some(v3(1.0, 1.0, 1.0)));
    assert_eq!(c.position(1), Some(v3(2.0, 2.0, 2.0)));
    assert_eq!(c.position(2), None);
}

#[test]
fn setpid_reply_gives_the_id() {
    assert_eq!(login_reply_id(&id_message(Command::SETPID, 9)), Some(9));
    assert_eq!(login_reply_id(&id_message(Command::STATE, 9)), None);
    assert_eq!(login_reply_id(&[0x0A]), None);
    assert_eq!(login_reply_id(&[]), None);
}
