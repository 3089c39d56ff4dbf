use stream::error::{Error, ErrorKind, Failure};
use stream::poll::Poll;
use stream::receiver::{CopyAction, CopyEvent, Receiver};
use stream::request::{Request, MAX_REQUEST_SIZE};
use tokio::io::ReadBuf;

type Action = CopyAction<u32, String>;

fn step(receiver: &mut Receiver, event: CopyEvent<'_, String>) -> Action {
    receiver.poll_copy_one(7u32, event)
}

fn accepts(receiver: &Receiver, event: CopyEvent<'_, String>) -> bool {
    receiver.accepts(&event)
}

fn room(action: Action) -> usize {
    match action {
        CopyAction::Read { room } => room,
        _ => panic!("expected a read"),
    }
}

fn request(action: Action) -> Request<u32> {
    match action {
        CopyAction::Write(request) => request,
        _ => panic!("expected a write"),
    }
}

fn feed(receiver: &mut Receiver, data: &[u8]) {
    match step(receiver, CopyEvent::Read(data)) {
        CopyAction::Parse { read } => assert_eq!(read, data.len()),
        _ => panic!("expected a parse"),
    }
}

fn partial(receiver: &mut Receiver, read: usize) {
    match step(receiver, CopyEvent::Parsed { read, parsed: false, n: 0 }) {
        CopyAction::Record { received, done } => {
            assert_eq!(received, read);
            assert_eq!(done, None);
        }
        _ => panic!("expected a record"),
    }
}

fn whole(receiver: &mut Receiver, read: usize, n: usize) {
    match step(receiver, CopyEvent::Parsed { read, parsed: true, n }) {
        CopyAction::Record { received, done } => {
            assert_eq!(received, read);
            assert_eq!(done, Some(n));
        }
        _ => panic!("expected a record"),
    }
}

fn written(receiver: &mut Receiver) {
    assert!(matches!(
        step(receiver, CopyEvent::Written),
        CopyAction::Return(Poll::Ready(Ok(())))
    ));
}

#[test]
fn new_receiver_reads_into_its_whole_buffer() {
    let mut receiver = Receiver::new();
    assert_eq!(receiver.pending(), b"");
    assert_eq!(room(step(&mut receiver, CopyEvent::Polled)), 2048);
}

#[test]
fn one_request_is_forwarded() {
    let mut receiver = Receiver::new();
    room(step(&mut receiver, CopyEvent::Polled));
    feed(&mut receiver, b"get k");
    partial(&mut receiver, 5);
    assert_eq!(room(step(&mut receiver, CopyEvent::Polled)), 2043);
    feed(&mut receiver, b"ey\r\n");
    assert_eq!(receiver.pending(), b"get key\r\n");
    whole(&mut receiver, 4, 9);
    assert_eq!(receiver.request(), b"get key\r\n");
    let sent = request(step(&mut receiver, CopyEvent::Polled));
    assert_eq!(sent.data(), b"get key\r\n");
    assert_eq!(sent.len(), 9);
    assert_eq!(sent.id(), 7);
    written(&mut receiver);
    assert_eq!(receiver.pending(), b"");
    assert_eq!(room(step(&mut receiver, CopyEvent::Polled)), 2048);
}

#[test]
fn bytes_behind_a_request_stay() {
    let mut receiver = Receiver::new();
    room(step(&mut receiver, CopyEvent::Polled));
    feed(&mut receiver, b"aaabb");
    whole(&mut receiver, 5, 3);
    assert_eq!(request(step(&mut receiver, CopyEvent::Polled)).data(), b"aaa");
    written(&mut receiver);
    assert_eq!(receiver.pending(), b"bb");
    // more is read before what is left is parsed
    assert_eq!(room(step(&mut receiver, CopyEvent::Polled)), 2043);
    feed(&mut receiver, b"b");
    whole(&mut receiver, 1, 3);
    assert_eq!(request(step(&mut receiver, CopyEvent::Polled)).data(), b"bbb");
    written(&mut receiver);
    assert_eq!(receiver.pending(), b"");
}

#[test]
fn full_buffer_drops_consumed_bytes_first() {
    let mut receiver = Receiver::new();
    assert_eq!(room(step(&mut receiver, CopyEvent::Polled)), 2048);
    let mut data = vec![1u8; 48];
    data.extend(vec![2u8; 2000]);
    feed(&mut receiver, &data);
    whole(&mut receiver, 2048, 48);
    assert_eq!(request(step(&mut receiver, CopyEvent::Polled)).data(), &data[..48]);
    written(&mut receiver);
    assert_eq!(room(step(&mut receiver, CopyEvent::Polled)), 48);
    assert_eq!(receiver.pending(), &data[48..]);
    feed(&mut receiver, &[3u8; 48]);
    partial(&mut receiver, 48);
    // nothing is consumed now, so the capacity doubles
    assert_eq!(room(step(&mut receiver, CopyEvent::Polled)), 2048);
    let mut expected = vec![2u8; 2000];
    expected.extend(vec![3u8; 48]);
    assert_eq!(receiver.pending(), &expected[..]);
}

#[test]
fn capacity_doubles_up_to_one_megabyte() {
    assert_eq!(MAX_REQUEST_SIZE, 1024 * 1024);
    let mut receiver = Receiver::new();
    let mut capacity = 2048usize;
    let mut free = room(step(&mut receiver, CopyEvent::Polled));
    assert_eq!(free, 2048);
    loop {
        let data = vec![9u8; free];
        feed(&mut receiver, &data);
        partial(&mut receiver, free);
        if capacity == MAX_REQUEST_SIZE {
            break;
        }
        free = room(step(&mut receiver, CopyEvent::Polled));
        assert_eq!(free, capacity);
        capacity *= 2;
    }
    assert_eq!(receiver.pending().len(), 1048576);
    for _ in 0..2 {
        match step(&mut receiver, CopyEvent::Polled) {
            CopyAction::Return(Poll::Ready(Err(Failure::Own(error)))) => {
                assert_eq!(error, Error::RequestTooLarge);
                assert_eq!(error.kind(), ErrorKind::InvalidInput);
                assert_eq!(error.message(), "max request size limited: 1mb");
            }
            _ => panic!("expected a refusal"),
        }
    }
    assert_eq!(receiver.pending().len(), 1048576);
}

#[test]
fn largest_request_is_accepted() {
    let mut receiver = Receiver::new();
    loop {
        let free = room(step(&mut receiver, CopyEvent::Polled));
        let data = vec![4u8; free];
        feed(&mut receiver, &data);
        if receiver.pending().len() == MAX_REQUEST_SIZE {
            whole(&mut receiver, free, MAX_REQUEST_SIZE);
            break;
        }
        partial(&mut receiver, free);
    }
    assert_eq!(request(step(&mut receiver, CopyEvent::Polled)).len(), MAX_REQUEST_SIZE);
    written(&mut receiver);
    assert_eq!(receiver.pending(), b"");
    assert_eq!(room(step(&mut receiver, CopyEvent::Polled)), MAX_REQUEST_SIZE);
}

#[test]
fn empty_read_closes() {
    let mut receiver = Receiver::new();
    room(step(&mut receiver, CopyEvent::Polled));
    assert!(matches!(
        step(&mut receiver, CopyEvent::Read(b"")),
        CopyAction::Close { left: 0 }
    ));
    feed(&mut receiver, b"half");
    partial(&mut receiver, 4);
    room(step(&mut receiver, CopyEvent::Polled));
    assert!(matches!(
        step(&mut receiver, CopyEvent::Read(b"")),
        CopyAction::Close { left: 4 }
    ));
    assert_eq!(receiver.pending(), b"half");
}

#[test]
fn waiting_and_failing_change_nothing() {
    let mut receiver = Receiver::new();
    room(step(&mut receiver, CopyEvent::Polled));
    feed(&mut receiver, b"xyz");
    whole(&mut receiver, 3, 2);
    assert_eq!(request(step(&mut receiver, CopyEvent::Polled)).data(), b"xy");
    assert!(matches!(
        step(&mut receiver, CopyEvent::Pending),
        CopyAction::Return(Poll::Pending)
    ));
    assert_eq!(request(step(&mut receiver, CopyEvent::Polled)).data(), b"xy");
    match step(&mut receiver, CopyEvent::Failed("broken".to_string())) {
        CopyAction::Return(Poll::Ready(Err(Failure::Outside(e)))) => assert_eq!(e, "broken"),
        _ => panic!("expected the failure"),
    }
    assert_eq!(request(step(&mut receiver, CopyEvent::Polled)).data(), b"xy");
    assert_eq!(receiver.pending(), b"xyz");
}

#[test]
fn failed_parse_keeps_the_bytes() {
    let mut receiver = Receiver::new();
    room(step(&mut receiver, CopyEvent::Polled));
    feed(&mut receiver, b"???");
    assert!(matches!(
        step(&mut receiver, CopyEvent::Failed("bad".to_string())),
        CopyAction::Return(Poll::Ready(Err(Failure::Outside(_))))
    ));
    assert_eq!(receiver.pending(), b"???");
    assert_eq!(room(step(&mut receiver, CopyEvent::Polled)), 2045);
}

#[test]
fn stream_is_preserved() {
    // requests of 5 bytes, arriving in pieces of 3 and 1100
    let source: Vec<u8> = (0..20000u32).map(|i| (i % 251) as u8).collect();
    for piece in [3usize, 1100] {
        let mut receiver = Receiver::new();
        let mut at = 0usize;
        let mut out: Vec<u8> = Vec::new();
        while at < source.len() {
            let free = room(step(&mut receiver, CopyEvent::Polled));
            let n = piece.min(free).min(source.len() - at);
            feed(&mut receiver, &source[at..at + n]);
            at += n;
            if receiver.pending().len() < 5 {
                partial(&mut receiver, n);
                continue;
            }
            whole(&mut receiver, n, 5);
            out.extend_from_slice(request(step(&mut receiver, CopyEvent::Polled)).data());
            written(&mut receiver);
        }
        out.extend_from_slice(receiver.pending());
        assert_eq!(out, source);
    }
}

#[test]
fn read_buffer_gives_its_filled_bytes() {
    let mut storage = [0u8; 16];
    let mut buf = ReadBuf::new(&mut storage);
    buf.put_slice(b"hello");
    let mut receiver = Receiver::new();
    room(step(&mut receiver, CopyEvent::Polled));
    match step(&mut receiver, CopyEvent::from_read(&buf)) {
        CopyAction::Parse { read } => assert_eq!(read, 5),
        _ => panic!("expected a parse"),
    }
    assert_eq!(receiver.pending(), b"hello");
}

#[test]
fn untouched_read_buffer_closes() {
    let mut storage = [1u8; 16];
    let buf = ReadBuf::new(&mut storage);
    let mut receiver = Receiver::new();
    room(step(&mut receiver, CopyEvent::Polled));
    assert!(matches!(
        step(&mut receiver, CopyEvent::from_read(&buf)),
        CopyAction::Close { left: 0 }
    ));
}

#[test]
fn requests_copy_their_bytes() {
    let request = Request::from(b"abc", 5u8);
    let copy = request.clone();
    assert_eq!(copy.data(), b"abc");
    assert_eq!(copy.id(), 5);
    let empty: Request<u8> = Request::default();
    assert_eq!(empty.len(), 0);
    assert_eq!(empty.id(), 0);
}

#[test]
fn receiver_accepts_only_what_can_follow() {
    let mut receiver = Receiver::new();
    let big = vec![0u8; 2049];
    assert!(accepts(&receiver, CopyEvent::Polled));
    assert!(accepts(&receiver, CopyEvent::Read(&big[..2048])));
    assert!(!accepts(&receiver, CopyEvent::Read(&big)));
    assert!(!accepts(&receiver, CopyEvent::Written));
    feed(&mut receiver, b"abc");
    assert!(accepts(&receiver, CopyEvent::Parsed { read: 3, parsed: true, n: 3 }));
    assert!(!accepts(&receiver, CopyEvent::Parsed { read: 3, parsed: true, n: 4 }));
    assert!(accepts(&receiver, CopyEvent::Parsed { read: 3, parsed: false, n: 4 }));
    whole(&mut receiver, 3, 2);
    assert!(accepts(&receiver, CopyEvent::Written));
    assert!(!accepts(&receiver, CopyEvent::Read(b"d")));
}

#[test]
fn reset_twice_is_reset_once() {
    let mut receiver = Receiver::new();
    feed(&mut receiver, b"abc");
    whole(&mut receiver, 3, 2);
    receiver.reset();
    assert!(!accepts(&receiver, CopyEvent::Written));
    assert_eq!(receiver.pending(), b"abc");
    receiver.reset();
    assert!(!accepts(&receiver, CopyEvent::Written));
    assert_eq!(receiver.pending(), b"abc");
    assert_eq!(room(step(&mut receiver, CopyEvent::Polled)), 2045);
}

#[test]
fn moved_data_is_unchanged() {
    let mut receiver = Receiver::new();
    feed(&mut receiver, b"xxabc");
    whole(&mut receiver, 5, 2);
    written(&mut receiver);
    assert_eq!(room(step(&mut receiver, CopyEvent::Polled)), 2043);
    receiver.move_data();
    assert_eq!(receiver.pending(), b"abc");
    assert_eq!(room(step(&mut receiver, CopyEvent::Polled)), 2045);
}

#[test]
fn nine_growths_reach_the_limit() {
    let mut receiver = Receiver::new();
    let mut capacity = 2048usize;
    for _ in 0..9 {
        let free = capacity - receiver.pending().len();
        feed(&mut receiver, &vec![5u8; free]);
        partial(&mut receiver, free);
        assert!(receiver.extends().is_ok());
        capacity *= 2;
        assert_eq!(room(step(&mut receiver, CopyEvent::Polled)), capacity / 2);
    }
    assert_eq!(capacity, MAX_REQUEST_SIZE);
    feed(&mut receiver, &vec![6u8; MAX_REQUEST_SIZE / 2]);
    for _ in 0..3 {
        assert_eq!(receiver.extends(), Err(Error::RequestTooLarge));
        assert_eq!(receiver.pending().len(), MAX_REQUEST_SIZE);
        assert_eq!(receiver.pending()[MAX_REQUEST_SIZE / 2 - 1], 5);
        assert_eq!(receiver.pending()[MAX_REQUEST_SIZE / 2], 6);
    }
}
