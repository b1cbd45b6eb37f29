use server::{ClientPipe, CloseCode, Frame, Handler, Listener, Server, REGISTRATION_CAPACITY};

fn json(text: &String) -> Option<i64> {
    serde_json::from_str(text).ok()
}

fn text(payload: &str) -> Frame {
    Frame::Text(String::from(payload))
}

fn sorted<T: Ord>(mut pairs: Vec<(usize, T)>) -> Vec<(usize, T)> {
    pairs.sort();
    pairs
}

#[test]
fn new_bus_has_nothing_to_poll() {
    let (mut server, listener) = server::new::<i64, ()>(4);
    assert_eq!(listener.capacity(), 4);
    assert_eq!(listener.client_count(), 0);
    assert_eq!(server.messages(), vec![]);
    assert_eq!(server.messages(), vec![]);
}

#[test]
fn registration_capacity_is_four() {
    assert_eq!(REGISTRATION_CAPACITY, 4);
}

#[test]
fn new_pipe_is_empty() {
    let pipe: ClientPipe<i64, String> = ClientPipe::new(7);
    assert_eq!(pipe.inbound.len(), 0);
    assert_eq!(pipe.inbound.capacity(), 7);
    assert_eq!(pipe.outbound.len(), 0);
    assert_eq!(pipe.outbound.capacity(), 7);
}

#[test]
fn identifiers_start_at_zero_and_increase() {
    let (mut server, mut listener) = server::new::<i64, ()>(4);
    let a = listener.connection_made(&mut server).unwrap();
    let b = listener.connection_made(&mut server).unwrap();
    server.messages();
    let c = listener.connection_made(&mut server).unwrap();
    assert_eq!((a.id(), b.id(), c.id()), (0, 1, 2));
    assert_eq!(listener.client_count(), 3);
    assert_eq!(listener.capacity(), 4);
}

#[test]
fn message_is_seen_by_the_first_poll_after_the_connection() {
    let (mut server, mut listener) = server::new::<i64, ()>(4);
    let mut a = listener.connection_made(&mut server).unwrap();
    assert_eq!(a.on_message(&mut server, text("41"), json), None);
    assert_eq!(server.messages(), vec![(0, 41)]);
    assert_eq!(server.messages(), vec![]);
}

#[test]
fn client_connected_after_a_poll_is_seen_by_the_next() {
    let (mut server, mut listener) = server::new::<i64, ()>(4);
    let mut a = listener.connection_made(&mut server).unwrap();
    assert_eq!(server.messages(), vec![]);
    let mut b = listener.connection_made(&mut server).unwrap();
    assert_eq!(a.on_message(&mut server, text("1"), json), None);
    assert_eq!(b.on_message(&mut server, text("2"), json), None);
    assert_eq!(sorted(server.messages()), vec![(0, 1), (1, 2)]);
}

#[test]
fn messages_of_one_client_keep_their_order() {
    let (mut server, mut listener) = server::new::<i64, ()>(4);
    let mut a = listener.connection_made(&mut server).unwrap();
    let mut b = listener.connection_made(&mut server).unwrap();
    assert_eq!(a.on_message(&mut server, text("10"), json), None);
    assert_eq!(b.on_message(&mut server, text("20"), json), None);
    assert_eq!(a.on_message(&mut server, text("11"), json), None);
    assert_eq!(sorted(server.messages()), vec![(0, 10), (1, 20)]);
    assert_eq!(a.on_message(&mut server, text("12"), json), None);
    assert_eq!(server.messages(), vec![(0, 11)]);
    assert_eq!(server.messages(), vec![(0, 12)]);
    assert_eq!(server.messages(), vec![]);
}

#[test]
fn poll_takes_one_message_per_client() {
    let (mut server, mut listener) = server::new::<i64, ()>(3);
    let mut a = listener.connection_made(&mut server).unwrap();
    let mut b = listener.connection_made(&mut server).unwrap();
    for n in ["1", "2", "3"] {
        assert_eq!(a.on_message(&mut server, text(n), json), None);
    }
    assert_eq!(b.on_message(&mut server, text("7"), json), None);
    assert_eq!(sorted(server.messages()), vec![(0, 1), (1, 7)]);
    assert_eq!(server.messages(), vec![(0, 2)]);
    assert_eq!(server.messages(), vec![(0, 3)]);
    assert_eq!(server.messages(), vec![]);
}

#[test]
fn fifth_message_on_a_queue_of_four_closes_the_connection() {
    let (mut server, mut listener) = server::new::<i64, ()>(4);
    let mut a = listener.connection_made(&mut server).unwrap();
    for n in ["1", "2", "3", "4"] {
        assert_eq!(a.on_message(&mut server, text(n), json), None);
    }
    assert_eq!(a.on_message(&mut server, text("5"), json), Some(CloseCode::Protocol));
    assert_eq!(server.messages(), vec![(0, 1)]);
    assert_eq!(server.messages(), vec![(0, 2)]);
    assert_eq!(server.messages(), vec![(0, 3)]);
    assert_eq!(server.messages(), vec![(0, 4)]);
    assert_eq!(server.messages(), vec![]);
    assert_eq!(server.messages(), vec![]);
}

#[test]
fn full_queue_of_one_client_leaves_the_others_alone() {
    let (mut server, mut listener) = server::new::<i64, ()>(1);
    let mut a = listener.connection_made(&mut server).unwrap();
    let mut b = listener.connection_made(&mut server).unwrap();
    assert_eq!(a.on_message(&mut server, text("1"), json), None);
    assert_eq!(a.on_message(&mut server, text("2"), json), Some(CloseCode::Protocol));
    assert_eq!(b.on_message(&mut server, text("3"), json), None);
    assert_eq!(sorted(server.messages()), vec![(0, 1), (1, 3)]);
    assert_eq!(server.messages(), vec![]);
}

#[test]
fn queue_has_room_again_after_a_poll() {
    let (mut server, mut listener) = server::new::<i64, ()>(1);
    let mut a = listener.connection_made(&mut server).unwrap();
    assert_eq!(a.deliver(&mut server, Some(1)), None);
    assert_eq!(a.deliver(&mut server, Some(2)), Some(CloseCode::Protocol));
    assert_eq!(server.messages(), vec![(0, 1)]);
    assert_eq!(a.deliver(&mut server, Some(3)), None);
    assert_eq!(server.messages(), vec![(0, 3)]);
}

#[test]
fn two_clients_one_message_each_one_poll() {
    let (mut server, mut listener) = server::new::<String, ()>(4);
    let mut a = listener.connection_made(&mut server).unwrap();
    let mut b = listener.connection_made(&mut server).unwrap();
    let decode = |t: &String| serde_json::from_str::<String>(t).ok();
    assert_eq!(b.on_message(&mut server, text("\"from b\""), decode), None);
    assert_eq!(a.on_message(&mut server, text("\"from a\""), decode), None);
    let out = server.messages();
    assert_eq!(out.len(), 2);
    assert_eq!(
        sorted(out),
        vec![(a.id(), String::from("from a")), (b.id(), String::from("from b"))]
    );
    assert_eq!(server.messages(), vec![]);
}

#[test]
fn fifth_waiting_connection_is_rejected() {
    let (mut server, mut listener) = server::new::<i64, ()>(4);
    let mut handlers: Vec<Handler<i64, ()>> = Vec::new();
    for _ in 0..4 {
        handlers.push(listener.connection_made(&mut server).unwrap());
    }
    assert_eq!(listener.connection_made(&mut server).err(), Some(CloseCode::Again));
    assert_eq!(listener.connection_made(&mut server).err(), Some(CloseCode::Again));
    assert_eq!(listener.client_count(), 6);
    for h in handlers.iter_mut() {
        assert_eq!(h.deliver(&mut server, Some(100 + h.id() as i64)), None);
    }
    let mut rejected: Handler<i64, ()> = Handler::new(4);
    assert_eq!(rejected.deliver(&mut server, Some(104)), Some(CloseCode::Protocol));
    assert_eq!(
        sorted(server.messages()),
        vec![(0, 100), (1, 101), (2, 102), (3, 103)]
    );
    let mut next = listener.connection_made(&mut server).unwrap();
    assert_eq!(next.id(), 6);
    assert_eq!(rejected.deliver(&mut server, Some(105)), Some(CloseCode::Protocol));
    assert_eq!(next.deliver(&mut server, Some(106)), None);
    assert_eq!(server.messages(), vec![(6, 106)]);
    assert_eq!(server.messages(), vec![]);
}

#[test]
fn poll_makes_room_for_four_more_connections() {
    let (mut server, mut listener) = server::new::<i64, ()>(2);
    for round in 0..3 {
        for k in 0..4 {
            let h = listener.connection_made(&mut server).unwrap();
            assert_eq!(h.id(), round * 4 + k);
        }
        assert_eq!(server.messages(), vec![]);
    }
    assert_eq!(listener.client_count(), 12);
}

#[test]
fn malformed_payload_is_dropped_and_the_connection_goes_on() {
    let (mut server, mut listener) = server::new::<i64, ()>(2);
    let mut a = listener.connection_made(&mut server).unwrap();
    assert_eq!(a.on_message(&mut server, text("not a number"), json), None);
    assert_eq!(a.on_message(&mut server, text("{\"x\": 1}"), json), None);
    assert_eq!(a.on_message(&mut server, text(""), json), None);
    assert_eq!(server.messages(), vec![]);
    assert_eq!(a.on_message(&mut server, text("5"), json), None);
    assert_eq!(a.on_message(&mut server, text("oops"), json), None);
    assert_eq!(a.on_message(&mut server, text("6"), json), None);
    assert_eq!(server.messages(), vec![(0, 5)]);
    assert_eq!(server.messages(), vec![(0, 6)]);
}

#[test]
fn malformed_payload_on_a_full_queue_closes_nothing() {
    let (mut server, mut listener) = server::new::<i64, ()>(1);
    let mut a = listener.connection_made(&mut server).unwrap();
    assert_eq!(a.on_message(&mut server, text("1"), json), None);
    assert_eq!(a.on_message(&mut server, text("x"), json), None);
    assert_eq!(a.deliver(&mut server, None), None);
    assert_eq!(server.messages(), vec![(0, 1)]);
}

#[test]
fn binary_frame_is_ignored() {
    let (mut server, mut listener) = server::new::<i64, ()>(1);
    let mut a = listener.connection_made(&mut server).unwrap();
    assert_eq!(a.on_message(&mut server, Frame::Binary(vec![0x35]), json), None);
    assert_eq!(server.messages(), vec![]);
    assert_eq!(a.on_message(&mut server, text("1"), json), None);
    assert_eq!(a.on_message(&mut server, Frame::Binary(vec![0x32]), json), None);
    assert_eq!(server.messages(), vec![(0, 1)]);
}

#[test]
fn decoder_is_not_asked_about_a_binary_frame() {
    let (mut server, mut listener) = server::new::<i64, ()>(1);
    let mut a = listener.connection_made(&mut server).unwrap();
    let asked = std::cell::Cell::new(0);
    let decode = |t: &String| {
        asked.set(asked.get() + 1);
        json(t)
    };
    assert_eq!(a.on_message(&mut server, Frame::Binary(vec![]), &decode), None);
    assert_eq!(asked.get(), 0);
    assert_eq!(a.on_message(&mut server, text("3"), &decode), None);
    assert_eq!(asked.get(), 1);
}

#[test]
fn bus_without_capacity_closes_on_the_first_message() {
    let (mut server, mut listener) = server::new::<i64, ()>(0);
    let mut a = listener.connection_made(&mut server).unwrap();
    assert_eq!(a.on_message(&mut server, text("1"), json), Some(CloseCode::Protocol));
    assert_eq!(a.on_message(&mut server, text("bad"), json), None);
    assert_eq!(server.messages(), vec![]);
}

#[test]
fn handler_of_an_unknown_client_is_told_to_close() {
    let mut server: Server<i64, ()> = Server::new();
    let mut stray: Handler<i64, ()> = Handler::new(3);
    assert_eq!(stray.id(), 3);
    assert_eq!(stray.deliver(&mut server, Some(1)), Some(CloseCode::Protocol));
    assert_eq!(stray.deliver(&mut server, None), None);
    assert_eq!(server.messages(), vec![]);
}

#[test]
fn server_registers_and_queues_by_identifier() {
    let mut server: Server<&str, ()> = Server::new();
    assert!(server.register(7, 2));
    assert_eq!(server.enqueue(7, "a"), Ok(()));
    assert_eq!(server.enqueue(8, "b"), Err("b"));
    assert_eq!(server.enqueue(7, "c"), Ok(()));
    assert_eq!(server.enqueue(7, "d"), Err("d"));
    assert!(server.register(1, 1));
    assert!(server.register(2, 1));
    assert!(server.register(3, 1));
    assert!(!server.register(4, 1));
    assert_eq!(server.enqueue(4, "e"), Err("e"));
    assert_eq!(server.messages(), vec![(7, "a")]);
    assert!(server.register(4, 1));
    assert_eq!(server.enqueue(4, "f"), Ok(()));
    assert_eq!(sorted(server.messages()), vec![(4, "f"), (7, "c")]);
}

#[test]
fn listener_made_alone_starts_at_zero() {
    let listener: Listener<i64, ()> = Listener::new(9);
    assert_eq!(listener.capacity(), 9);
    assert_eq!(listener.client_count(), 0);
}

#[test]
fn structured_payload_is_decoded() {
    let (mut server, mut listener) = server::new::<(String, Vec<i32>), ()>(2);
    let mut a = listener.connection_made(&mut server).unwrap();
    let decode = |t: &String| serde_json::from_str::<(String, Vec<i32>)>(t).ok();
    assert_eq!(a.on_message(&mut server, text("[\"pos\", [3, -4]]"), decode), None);
    assert_eq!(a.on_message(&mut server, text("[\"pos\", 3]"), decode), None);
    assert_eq!(server.messages(), vec![(0, (String::from("pos"), vec![3, -4]))]);
    assert_eq!(server.messages(), vec![]);
}
