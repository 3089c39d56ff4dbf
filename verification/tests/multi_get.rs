use stream::error::{Error, ErrorKind, Failure};
use stream::multi_get::{AsyncMultiGet, NextAction, NextEvent, Round, WriteAction, WriteEvent};
use stream::poll::Poll;
use stream::request::Request;
use stream::response::Response;

type Get = AsyncMultiGet<&'static str, char, u32, u16>;
type Action = NextAction<u32, String>;
type Keys = Round<String, String>;

fn lookup() -> Get {
    AsyncMultiGet::from_layers(vec!["l1", "l2", "l3"], 'p')
}

fn next(get: &mut Get, round: &mut Keys, event: NextEvent<u32, String, String>) -> Action {
    get.poll_next(round, event)
}

fn reply(items: &[u32], keys: &[&str]) -> NextEvent<u32, String, String> {
    NextEvent::Replied {
        item: Response::from(items.to_vec()),
        found_keys: keys.iter().map(|k| k.to_string()).collect(),
    }
}

fn failed(text: &str) -> NextEvent<u32, String, String> {
    NextEvent::Failed(text.to_string())
}

fn reads(action: Action, expected: usize) {
    match action {
        NextAction::Read { layer } => assert_eq!(layer, expected),
        _ => panic!("expected a read"),
    }
}

fn sends(action: Action, expected: usize) {
    match action {
        NextAction::Send { layer } => assert_eq!(layer, expected),
        _ => panic!("expected a send"),
    }
}

fn answers(action: Action, expected: &[u32]) {
    match action {
        NextAction::Return(Poll::Ready(Ok(response))) => {
            assert_eq!(response.items().as_slice(), expected)
        }
        _ => panic!("expected a response"),
    }
}

fn start(get: &mut Get) {
    let request = Request::from(b"a b c", 77u16);
    assert!(matches!(get.poll_write(&request), WriteAction::Send { layer: 0 }));
    assert!(matches!(
        get.do_write(WriteEvent::Sent),
        WriteAction::Return(Poll::Ready(Ok(())))
    ));
}

#[test]
fn new_lookup_has_no_request() {
    let mut get = lookup();
    assert_eq!(get.layers(), 3);
    assert_eq!(*get.parser(), 'p');
    assert_eq!(get.request().len(), 0);
    assert_eq!(get.request().id(), 0);
    let (layer, request) = get.layer_mut(1);
    assert_eq!(*layer, "l2");
    assert_eq!(request.len(), 0);
    *layer = "other";
    assert_eq!(*get.layer_mut(1).0, "other");
    assert_eq!(*get.layer_mut(2).0, "l3");
}

#[test]
fn write_falls_over_to_the_next_layer() {
    let mut get = lookup();
    let request = Request::from(b"a", 1u16);
    assert!(matches!(get.poll_write(&request), WriteAction::Send { layer: 0 }));
    assert_eq!(get.request().data(), b"a");
    assert!(matches!(get.do_write(WriteEvent::Refused), WriteAction::Send { layer: 1 }));
    assert!(matches!(
        get.do_write(WriteEvent::Pending),
        WriteAction::Return(Poll::Pending)
    ));
    // polled again, the write resumes at the same layer
    assert!(matches!(get.poll_write(&request), WriteAction::Send { layer: 1 }));
    assert!(matches!(get.do_write(WriteEvent::Refused), WriteAction::Send { layer: 2 }));
    assert!(matches!(
        get.do_write(WriteEvent::Sent),
        WriteAction::Return(Poll::Ready(Ok(())))
    ));
}

#[test]
fn write_fails_when_all_layers_refuse() {
    let mut get = lookup();
    get.poll_write(&Request::from(b"a", 1u16));
    get.do_write(WriteEvent::Refused);
    get.do_write(WriteEvent::Refused);
    match get.do_write(WriteEvent::Refused) {
        WriteAction::Return(Poll::Ready(Err(error))) => {
            assert_eq!(error, Error::CannotWrite);
            assert_eq!(error.kind(), ErrorKind::NotConnected);
            assert_eq!(error.message(), "cannot write multi-reqs to all resources");
        }
        _ => panic!("expected a failure"),
    }
    // back at the first layer
    assert!(matches!(get.do_write(WriteEvent::Polled), WriteAction::Send { layer: 0 }));
}

#[test]
fn answers_of_all_layers_are_merged_in_order() {
    let mut get = lookup();
    start(&mut get);
    let mut round = Round::new();
    reads(next(&mut get, &mut round, NextEvent::Polled), 0);
    assert!(matches!(
        next(&mut get, &mut round, reply(&[1, 2], &["a"])),
        NextAction::Rebuild
    ));
    assert_eq!(round.found_keys().as_slice(), &["a".to_string()]);
    sends(next(&mut get, &mut round, NextEvent::Rebuilt(b"b c".to_vec())), 1);
    assert_eq!(get.request().data(), b"b c");
    assert_eq!(get.request().id(), 77);
    reads(next(&mut get, &mut round, NextEvent::Sent), 1);
    // nothing found: the request stays as it is
    sends(next(&mut get, &mut round, reply(&[3], &[])), 2);
    assert_eq!(get.request().data(), b"b c");
    reads(next(&mut get, &mut round, NextEvent::Sent), 2);
    answers(next(&mut get, &mut round, reply(&[4, 5], &["b"])), &[1, 2, 3, 4, 5]);
    // ready for the next request
    assert!(matches!(
        get.poll_write(&Request::from(b"z", 3u16)),
        WriteAction::Send { layer: 0 }
    ));
    assert_eq!(get.request().id(), 3);
}

#[test]
fn layers_that_fail_are_passed_over() {
    let mut get = lookup();
    start(&mut get);
    let mut round = Round::new();
    reads(next(&mut get, &mut round, NextEvent::Polled), 0);
    sends(next(&mut get, &mut round, failed("one")), 1);
    reads(next(&mut get, &mut round, NextEvent::Sent), 1);
    assert!(matches!(next(&mut get, &mut round, reply(&[8], &["a"])), NextAction::Rebuild));
    sends(next(&mut get, &mut round, NextEvent::Rebuilt(b"b".to_vec())), 2);
    reads(next(&mut get, &mut round, NextEvent::Sent), 2);
    answers(next(&mut get, &mut round, failed("three")), &[8]);
}

#[test]
fn failed_layer_keeps_the_keys_found_before() {
    let mut get = lookup();
    start(&mut get);
    let mut round = Round::new();
    reads(next(&mut get, &mut round, NextEvent::Polled), 0);
    assert!(matches!(next(&mut get, &mut round, reply(&[1], &["a"])), NextAction::Rebuild));
    sends(next(&mut get, &mut round, NextEvent::Rebuilt(b"b".to_vec())), 1);
    reads(next(&mut get, &mut round, NextEvent::Sent), 1);
    assert!(matches!(next(&mut get, &mut round, failed("two")), NextAction::Rebuild));
}

#[test]
fn lookup_fails_with_the_last_error() {
    let mut get = lookup();
    start(&mut get);
    let mut round = Round::new();
    reads(next(&mut get, &mut round, NextEvent::Polled), 0);
    sends(next(&mut get, &mut round, failed("one")), 1);
    reads(next(&mut get, &mut round, NextEvent::Sent), 1);
    sends(next(&mut get, &mut round, failed("two")), 2);
    reads(next(&mut get, &mut round, NextEvent::Sent), 2);
    match next(&mut get, &mut round, failed("three")) {
        NextAction::Return(Poll::Ready(Err(Failure::Outside(e)))) => assert_eq!(e, "three"),
        _ => panic!("expected the last error"),
    }
}

#[test]
fn answers_are_dropped_when_no_layer_is_left_to_write_to() {
    let mut get = lookup();
    start(&mut get);
    let mut round = Round::new();
    reads(next(&mut get, &mut round, NextEvent::Polled), 0);
    sends(next(&mut get, &mut round, reply(&[1], &[])), 1);
    sends(next(&mut get, &mut round, NextEvent::Refused), 2);
    match next(&mut get, &mut round, NextEvent::Refused) {
        NextAction::Return(Poll::Ready(Err(Failure::Own(error)))) => {
            assert_eq!(error, Error::CannotRead);
            assert_eq!(error.kind(), ErrorKind::Other);
            assert_eq!(error.message(), "all poll read failed");
        }
        _ => panic!("expected a failure"),
    }
    assert!(matches!(get.do_write(WriteEvent::Polled), WriteAction::Send { layer: 0 }));
}

#[test]
fn last_error_is_reported_when_writing_fails() {
    let mut get = lookup();
    start(&mut get);
    let mut round = Round::new();
    reads(next(&mut get, &mut round, NextEvent::Polled), 0);
    sends(next(&mut get, &mut round, failed("one")), 1);
    sends(next(&mut get, &mut round, NextEvent::Refused), 2);
    match next(&mut get, &mut round, NextEvent::Refused) {
        NextAction::Return(Poll::Ready(Err(Failure::Outside(e)))) => assert_eq!(e, "one"),
        _ => panic!("expected the error"),
    }
}

#[test]
fn waiting_forgets_keys_and_errors_but_not_answers() {
    let mut get = lookup();
    start(&mut get);
    let mut round = Round::new();
    reads(next(&mut get, &mut round, NextEvent::Polled), 0);
    sends(next(&mut get, &mut round, reply(&[1], &[])), 1);
    reads(next(&mut get, &mut round, NextEvent::Sent), 1);
    sends(next(&mut get, &mut round, failed("two")), 2);
    assert!(matches!(
        next(&mut get, &mut round, NextEvent::Pending),
        NextAction::Return(Poll::Pending)
    ));
    reads(next(&mut get, &mut round, NextEvent::Polled), 2);
    assert_eq!(round.found_keys().len(), 0);
    answers(next(&mut get, &mut round, failed("three")), &[1]);
}

#[test]
fn single_layer_ends_at_once() {
    let mut get: Get = AsyncMultiGet::from_layers(vec!["only"], 'p');
    start(&mut get);
    let mut round = Round::new();
    reads(next(&mut get, &mut round, NextEvent::Polled), 0);
    answers(next(&mut get, &mut round, reply(&[6], &["a"])), &[6]);
}

#[test]
fn responses_append() {
    let mut response = Response::from(vec![1, 2]);
    response.append(Response::from(vec![3]));
    response.append(Response::from(Vec::new()));
    assert_eq!(response.items().as_slice(), &[1, 2, 3]);
}
