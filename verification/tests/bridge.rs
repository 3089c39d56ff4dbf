use std::cell::RefCell;
use std::sync::atomic::{AtomicBool, Ordering};
use std::sync::Arc;

use stream::bridge::{BridgeAction, BridgeEvent, BridgeResponseToLocal, ResponseHandler};
use stream::error::Failure;
use stream::poll::Poll;
use tokio::io::ReadBuf;

struct Log {
    offset: usize,
    seen: RefCell<Vec<(usize, Vec<u8>)>>,
}

impl ResponseHandler for Log {
    type Response = Vec<u8>;

    fn load_offset(&self) -> usize {
        self.offset
    }

    fn on_received(&self, seq: usize, response: Vec<u8>) {
        self.seen.borrow_mut().push((seq, response));
    }
}

type Bridge = BridgeResponseToLocal<(), Log, &'static str, u8>;

fn bridge(done: &Arc<AtomicBool>) -> Bridge {
    let log = Log { offset: 12, seen: RefCell::new(Vec::new()) };
    BridgeResponseToLocal::from((), log, "parser", 1024, done.clone(), 9)
}

fn step(bridge: &mut Bridge, event: BridgeEvent<String>) -> BridgeAction<String> {
    bridge.poll(event)
}

fn read(bridge: &mut Bridge, len: usize) {
    match step(bridge, BridgeEvent::Read { n: len }) {
        BridgeAction::AdvanceWrite { n } => assert_eq!(n, len),
        _ => panic!("expected to advance"),
    }
}

#[test]
fn new_bridge_is_at_the_start() {
    let done = Arc::new(AtomicBool::new(false));
    let mut bridge = bridge(&done);
    assert_eq!(bridge.seq(), 0);
    assert_eq!(bridge.processed(), 0);
    assert_eq!(bridge.written(), 0);
    assert_eq!(bridge.capacity(), 1024);
    assert_eq!(bridge.ends().parser, "parser");
    bridge.ends_mut().builder = 10;
    assert_eq!(bridge.ends().builder, 10);
    assert_eq!(bridge.seq(), 0);
}

#[test]
fn poll_releases_what_was_consumed() {
    let done = Arc::new(AtomicBool::new(false));
    let mut bridge = bridge(&done);
    assert!(matches!(step(&mut bridge, BridgeEvent::Polled), BridgeAction::LoadOffset));
    let offset = bridge.ends().w.load_offset();
    assert!(matches!(
        step(&mut bridge, BridgeEvent::Consumed { offset }),
        BridgeAction::Reserve { offset: 12 }
    ));
    assert!(matches!(bridge.resume::<String>(false), BridgeAction::LoadOffset));
    assert!(matches!(bridge.resume::<String>(true), BridgeAction::Reconnect));
}

#[test]
fn shut_down_bridge_reconnects() {
    let done = Arc::new(AtomicBool::new(false));
    let mut bridge = bridge(&done);
    done.store(true, Ordering::Relaxed);
    assert!(matches!(step(&mut bridge, BridgeEvent::Polled), BridgeAction::Reconnect));
}

#[test]
fn full_ring_waits() {
    let done = Arc::new(AtomicBool::new(false));
    let mut bridge = bridge(&done);
    assert!(matches!(
        step(&mut bridge, BridgeEvent::Reserved { room: 0 }),
        BridgeAction::Spin
    ));
    assert!(matches!(
        step(&mut bridge, BridgeEvent::Reserved { room: 1 }),
        BridgeAction::Read
    ));
}

#[test]
fn end_of_stream_reconnects() {
    let done = Arc::new(AtomicBool::new(false));
    let mut bridge = bridge(&done);
    assert!(matches!(
        step(&mut bridge, BridgeEvent::Read { n: 0 }),
        BridgeAction::Reconnect
    ));
    assert_eq!(bridge.written(), 0);
}

#[test]
fn waiting_and_failing_end_the_poll() {
    let done = Arc::new(AtomicBool::new(false));
    let mut bridge = bridge(&done);
    assert!(matches!(
        step(&mut bridge, BridgeEvent::Pending),
        BridgeAction::Return(Poll::Pending)
    ));
    match step(&mut bridge, BridgeEvent::Failed("reset".to_string())) {
        BridgeAction::Return(Poll::Ready(Err(Failure::Outside(e)))) => assert_eq!(e, "reset"),
        _ => panic!("expected the failure"),
    }
}

#[test]
fn responses_are_numbered_and_tile_the_stream() {
    let done = Arc::new(AtomicBool::new(false));
    let mut bridge = bridge(&done);
    let data = b"aabbbc";
    read(&mut bridge, 6);
    assert_eq!(bridge.written(), 6);
    for (seq, num) in [(0usize, 2usize), (1, 3)] {
        assert!(matches!(step(&mut bridge, BridgeEvent::Advanced), BridgeAction::Parse));
        let start = bridge.processed();
        match step(&mut bridge, BridgeEvent::Parsed { found: true, num }) {
            BridgeAction::Deliver { seq: given, num: len } => {
                assert_eq!(given, seq);
                assert_eq!(len, num);
                let response = data[start..start + len].to_vec();
                bridge.ends().w.on_received(given, response);
            }
            _ => panic!("expected a delivery"),
        }
    }
    // one byte is left, which is no whole response
    assert!(matches!(step(&mut bridge, BridgeEvent::Advanced), BridgeAction::Parse));
    assert!(matches!(
        step(&mut bridge, BridgeEvent::Parsed { found: false, num: 0 }),
        BridgeAction::Continue
    ));
    assert_eq!(bridge.processed(), 5);
    assert_eq!(bridge.seq(), 2);
    // the rest arrives
    read(&mut bridge, 1);
    assert!(matches!(
        step(&mut bridge, BridgeEvent::Parsed { found: true, num: 2 }),
        BridgeAction::Deliver { seq: 2, num: 2 }
    ));
    assert!(matches!(step(&mut bridge, BridgeEvent::Advanced), BridgeAction::Continue));
    assert_eq!(bridge.processed(), 7);
    assert_eq!(bridge.written(), 7);
    let seen = bridge.ends().w.seen.borrow();
    assert_eq!(*seen, vec![(0, b"aa".to_vec()), (1, b"bbb".to_vec())]);
}

#[test]
fn read_buffer_gives_its_filled_length() {
    let mut storage = [0u8; 16];
    let mut buf = ReadBuf::new(&mut storage);
    assert!(matches!(BridgeEvent::<String>::from_read(&buf), BridgeEvent::Read { n: 0 }));
    buf.put_slice(b"hello");
    assert!(matches!(BridgeEvent::<String>::from_read(&buf), BridgeEvent::Read { n: 5 }));
    buf.put_slice(b"hello world");
    assert!(matches!(BridgeEvent::<String>::from_read(&buf), BridgeEvent::Read { n: 16 }));
}

#[test]
fn bridge_accepts_only_what_can_follow() {
    let done = Arc::new(AtomicBool::new(false));
    let mut bridge = bridge(&done);
    read(&mut bridge, 4);
    assert!(bridge.accepts(&BridgeEvent::<String>::Parsed { found: true, num: 4 }));
    assert!(!bridge.accepts(&BridgeEvent::<String>::Parsed { found: true, num: 5 }));
    assert!(bridge.accepts(&BridgeEvent::<String>::Parsed { found: false, num: 5 }));
    assert!(bridge.accepts(&BridgeEvent::<String>::Read { n: usize::MAX - 4 }));
    assert!(!bridge.accepts(&BridgeEvent::<String>::Read { n: usize::MAX - 3 }));
    assert!(bridge.accepts(&BridgeEvent::<String>::Advanced));
}

/// Drives a bridge over `source`, whose responses end in `;`, in pieces of
/// `piece` bytes. Returns what was delivered and what was left.
fn drive(source: &[u8], piece: usize) -> (Vec<Vec<u8>>, Vec<u8>) {
    let done = Arc::new(AtomicBool::new(false));
    let mut bridge = bridge(&done);
    let mut delivered = Vec::new();
    let mut looked = false;
    let mut event = BridgeEvent::Polled;
    loop {
        event = match step(&mut bridge, event) {
            BridgeAction::LoadOffset => {
                looked = true;
                BridgeEvent::Consumed { offset: bridge.ends().w.load_offset() }
            }
            BridgeAction::Reserve { offset } => {
                assert_eq!(offset, 12);
                BridgeEvent::Reserved { room: piece }
            }
            BridgeAction::Read => {
                assert!(looked);
                looked = false;
                let n = piece.min(source.len() - bridge.written());
                BridgeEvent::Read { n }
            }
            BridgeAction::AdvanceWrite { .. } => BridgeEvent::Advanced,
            BridgeAction::Parse => {
                let rest = &source[bridge.processed()..bridge.written()];
                match rest.iter().position(|b| *b == b';') {
                    Some(at) => BridgeEvent::Parsed { found: true, num: at + 1 },
                    None => BridgeEvent::Parsed { found: false, num: 0 },
                }
            }
            BridgeAction::Deliver { seq, num } => {
                assert_eq!(seq, delivered.len());
                let end = bridge.processed();
                delivered.push(source[end - num..end].to_vec());
                BridgeEvent::Advanced
            }
            BridgeAction::Continue => BridgeEvent::Polled,
            BridgeAction::Reconnect => break,
            BridgeAction::Spin | BridgeAction::Return(_) => panic!("nothing to wait for"),
        };
    }
    let rest = source[bridge.processed()..bridge.written()].to_vec();
    (delivered, rest)
}

#[test]
fn whole_stream_is_delivered() {
    let source = b"one;two;;three;fo";
    for piece in 1..20 {
        let (delivered, rest) = drive(source, piece);
        let expected: Vec<Vec<u8>> =
            vec![b"one;".to_vec(), b"two;".to_vec(), b";".to_vec(), b"three;".to_vec()];
        assert_eq!(delivered, expected);
        assert_eq!(rest, b"fo");
    }
}
